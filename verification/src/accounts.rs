//! Accounts: what a sign-in form sends, how a password is stored, and the
//! answers of the server to a login and to a registration.

use vstd::prelude::*;

verus! {

/// A user name with a password: typed in by the user, or stored with the
/// password hashed.
pub struct User {
    pub username: String,
    pub password: String,
}

/// The answer of the server to a request.
#[derive(Clone, Copy, Debug, PartialEq, Eq, Structural)]
pub enum Status {
    Success,
    Unauthorized,
    NotFound,
    Conflict,
    InternalServerError,
}

/// What the store answered when it was asked for a user name.
#[derive(Clone, Copy, Debug, PartialEq, Eq, Structural)]
pub enum Lookup {
    /// The store could not be asked.
    Failed,
    /// Nobody has the name.
    Missing,
    /// Somebody has the name.
    Found,
}

/// How a password compared with the stored hash.
#[derive(Clone, Copy, Debug, PartialEq, Eq, Structural)]
pub enum Check {
    /// The stored hash could not be read.
    Failed,
    /// The password is another one.
    Wrong,
    /// The password is the one that was hashed.
    Right,
}

/// The salt with which every password is hashed.
pub const SALT: &'static str = "supercalifragilisticexpialidocious";

/// The text that `argon2::hash_encoded` makes of the bytes of a password and
/// of a salt under its default configuration, or `None` where it refuses
/// them.
pub uninterp spec fn argon2_encoded(password: Seq<char>, salt: Seq<char>) -> Option<Seq<char>>;

/// Hashes the bytes of `password` with those of `salt` by
/// `argon2::hash_encoded` under `argon2::Config::default()`. The function
/// computes its result from the password, the salt and the configuration
/// alone; it returns an error, here `None`, where it refuses the length of
/// one of them.
#[verifier::external_body]
fn hash_encoded(password: &str, salt: &str) -> (encoded: Option<String>)
    ensures
        match encoded {
            Some(text) => argon2_encoded(password@, salt@) == Some(text@),
            None => argon2_encoded(password@, salt@) is None,
        },
{
    argon2::hash_encoded(password.as_bytes(), salt.as_bytes(), &argon2::Config::default()).ok()
}

impl Status {
    /// The number of the status.
    pub open spec fn spec_code(self) -> u16 {
        match self {
            Status::Success => 200,
            Status::Unauthorized => 401,
            Status::NotFound => 404,
            Status::Conflict => 409,
            Status::InternalServerError => 500,
        }
    }

    /// The number of the status.
    #[verifier::when_used_as_spec(spec_code)]
    pub fn code(self) -> (code: u16)
        ensures
            code == self.spec_code(),
    {
        match self {
            Status::Success => 200,
            Status::Unauthorized => 401,
            Status::NotFound => 404,
            Status::Conflict => 409,
            Status::InternalServerError => 500,
        }
    }
}

/// The answer to a login. A store that could not be asked, or a stored hash
/// that could not be read, is the server's fault; an unknown name is not
/// found; a wrong password is unauthorized. `check` counts only where the
/// name was found.
pub fn login_status(lookup: Lookup, check: Check) -> (status: Status)
    ensures
        status == match lookup {
            Lookup::Failed => Status::InternalServerError,
            Lookup::Missing => Status::NotFound,
            Lookup::Found => match check {
                Check::Right => Status::Success,
                Check::Wrong => Status::Unauthorized,
                Check::Failed => Status::InternalServerError,
            },
        },
{
    match lookup {
        Lookup::Failed => Status::InternalServerError,
        Lookup::Missing => Status::NotFound,
        Lookup::Found => match check {
            Check::Right => Status::Success,
            Check::Wrong => Status::Unauthorized,
            Check::Failed => Status::InternalServerError,
        },
    }
}

/// The answer to a registration before anything is stored, if there is one:
/// a name that is taken is a conflict, and a store that could not be asked
/// is the server's fault. `None` says that the user is to be stored.
pub fn register_refusal(lookup: Lookup) -> (status: Option<Status>)
    ensures
        status == match lookup {
            Lookup::Failed => Some(Status::InternalServerError),
            Lookup::Found => Some(Status::Conflict),
            Lookup::Missing => None::<Status>,
        },
{
    match lookup {
        Lookup::Failed => Some(Status::InternalServerError),
        Lookup::Found => Some(Status::Conflict),
        Lookup::Missing => None,
    }
}

/// The answer after the store was asked to keep something.
pub fn stored_status(kept: bool) -> (status: Status)
    ensures
        status == if kept {
            Status::Success
        } else {
            Status::InternalServerError
        },
{
    if kept {
        Status::Success
    } else {
        Status::InternalServerError
    }
}

/// The user as it is stored: the same name, and the password as
/// `hashed` gave it. `None` where there is no hash.
pub fn stored_user(username: &String, hashed: Option<String>) -> (user: Option<User>)
    ensures
        match user {
            Some(u) => hashed is Some && u.username@ == username@ && u.password@
                == hashed.unwrap()@,
            None => hashed is None,
        },
{
    match hashed {
        Some(password) => Some(User { username: username.clone(), password }),
        None => None,
    }
}

/// The user as it is stored: the same name, with the password hashed with
/// `SALT`. `None` where the password cannot be hashed.
pub fn hashed_user(payload: &User) -> (user: Option<User>)
    ensures
        match user {
            Some(u) => u.username@ == payload.username@ && argon2_encoded(
                payload.password@,
                SALT@,
            ) == Some(u.password@),
            None => argon2_encoded(payload.password@, SALT@) is None,
        },
{
    let hashed = hash_encoded(payload.password.as_str(), SALT);
    stored_user(&payload.username, hashed)
}

/// What a form says when it cannot be sent: the user name is asked for
/// first, then the password. A field that is missing counts as empty.
pub open spec fn form_complaint(username: Option<Seq<char>>, password: Option<Seq<char>>) -> Option<
    Seq<char>,
> {
    if username is None || username.unwrap().len() == 0 {
        Some("Username is required"@)
    } else if password is None || password.unwrap().len() == 0 {
        Some("Password is required"@)
    } else {
        None
    }
}

/// The user that a form sends, or what the form says instead.
pub fn user_from_form(username: Option<String>, password: Option<String>) -> (made: Result<
    User,
    &'static str,
>)
    ensures
        match made {
            Ok(user) => form_complaint(
                match username {
                    Some(text) => Some(text@),
                    None => None,
                },
                match password {
                    Some(text) => Some(text@),
                    None => None,
                },
            ) is None && Some(user.username) == username && Some(user.password) == password,
            Err(text) => form_complaint(
                match username {
                    Some(text) => Some(text@),
                    None => None,
                },
                match password {
                    Some(text) => Some(text@),
                    None => None,
                },
            ) == Some(text@),
        },
{
    match username {
        Some(name) => {
            if name.as_str().unicode_len() == 0 {
                return Err("Username is required");
            }
            match password {
                Some(word) => {
                    if word.as_str().unicode_len() == 0 {
                        return Err("Password is required");
                    }
                    Ok(User { username: name, password: word })
                },
                None => Err("Password is required"),
            }
        },
        None => Err("Username is required"),
    }
}

/// What the login form says to an answer of the server, if anything.
pub fn login_complaint(code: u16) -> (text: Option<&'static str>)
    ensures
        match text {
            Some(t) => code != 200 && t@ == "Invalid username or password"@,
            None => code == 200,
        },
{
    if code != 200 {
        Some("Invalid username or password")
    } else {
        None
    }
}

/// What the registration form says to an answer of the server, if anything.
pub fn register_complaint(code: u16) -> (text: Option<&'static str>)
    ensures
        match text {
            Some(t) => if code == 500 {
                t@ == "Database not available"@
            } else {
                code != 200 && t@ == "Invalid username or password"@
            },
            None => code == 200,
        },
{
    if code == 500 {
        Some("Database not available")
    } else if code != 200 {
        Some("Invalid username or password")
    } else {
        None
    }
}

} // verus!
