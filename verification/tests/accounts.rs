use connect_games::accounts::{
    hashed_user, login_complaint, login_status, register_complaint, register_refusal,
    stored_status, stored_user, user_from_form, Check, Lookup, Status, User, SALT,
};

fn user(username: &str, password: &str) -> User {
    User { username: username.to_string(), password: password.to_string() }
}

#[test]
fn statuses_have_their_numbers() {
    assert_eq!(Status::Success.code(), 200);
    assert_eq!(Status::Unauthorized.code(), 401);
    assert_eq!(Status::NotFound.code(), 404);
    assert_eq!(Status::Conflict.code(), 409);
    assert_eq!(Status::InternalServerError.code(), 500);
}

#[test]
fn login_answers_by_lookup_and_check() {
    for check in [Check::Failed, Check::Wrong, Check::Right] {
        assert_eq!(login_status(Lookup::Failed, check), Status::InternalServerError);
        assert_eq!(login_status(Lookup::Missing, check), Status::NotFound);
    }
    assert_eq!(login_status(Lookup::Found, Check::Right), Status::Success);
    assert_eq!(login_status(Lookup::Found, Check::Wrong), Status::Unauthorized);
    assert_eq!(login_status(Lookup::Found, Check::Failed), Status::InternalServerError);
}

#[test]
fn registration_is_refused_for_a_taken_name() {
    assert_eq!(register_refusal(Lookup::Found), Some(Status::Conflict));
    assert_eq!(register_refusal(Lookup::Failed), Some(Status::InternalServerError));
    assert_eq!(register_refusal(Lookup::Missing), None);
    assert_eq!(stored_status(true), Status::Success);
    assert_eq!(stored_status(false), Status::InternalServerError);
}

#[test]
fn a_stored_user_keeps_the_name_and_takes_the_hash() {
    let stored = stored_user(&"ann".to_string(), Some("hash".to_string())).unwrap();
    assert_eq!(stored.username, "ann");
    assert_eq!(stored.password, "hash");
    assert!(stored_user(&"ann".to_string(), None).is_none());
}

#[test]
fn passwords_are_hashed_with_the_salt() {
    assert_eq!(SALT, "supercalifragilisticexpialidocious");
    let stored = hashed_user(&user("ann", "secret")).unwrap();
    assert_eq!(stored.username, "ann");
    assert_ne!(stored.password, "secret");
    assert!(stored
        .password
        .starts_with("$argon2i$v=19$m=4096,t=3,p=1$c3VwZXJjYWxpZnJhZ2lsaXN0aWNleHBpYWxpZG9jaW91cw$"));
    assert_eq!(argon2::verify_encoded(&stored.password, b"secret"), Ok(true));
    assert_eq!(argon2::verify_encoded(&stored.password, b"Secret"), Ok(false));
    let again = hashed_user(&user("bob", "secret")).unwrap();
    assert_eq!(again.password, stored.password);
    let other = hashed_user(&user("ann", "")).unwrap();
    assert_ne!(other.password, stored.password);
}

#[test]
fn a_form_asks_for_the_name_first() {
    assert_eq!(user_from_form(None, None).err(), Some("Username is required"));
    assert_eq!(
        user_from_form(None, Some("secret".to_string())).err(),
        Some("Username is required")
    );
    assert_eq!(
        user_from_form(Some(String::new()), Some("secret".to_string())).err(),
        Some("Username is required")
    );
    assert_eq!(user_from_form(Some(String::new()), None).err(), Some("Username is required"));
    assert_eq!(user_from_form(Some("ann".to_string()), None).err(), Some("Password is required"));
    assert_eq!(
        user_from_form(Some("ann".to_string()), Some(String::new())).err(),
        Some("Password is required")
    );
    let made = user_from_form(Some("ann".to_string()), Some("secret".to_string())).ok().unwrap();
    assert_eq!(made.username, "ann");
    assert_eq!(made.password, "secret");
}

#[test]
fn forms_complain_about_answers_other_than_success() {
    assert_eq!(login_complaint(200), None);
    for code in [401u16, 404, 500, 0, 201] {
        assert_eq!(login_complaint(code), Some("Invalid username or password"));
    }
    assert_eq!(register_complaint(200), None);
    assert_eq!(register_complaint(500), Some("Database not available"));
    for code in [409u16, 404, 0, 201] {
        assert_eq!(register_complaint(code), Some("Invalid username or password"));
    }
}
