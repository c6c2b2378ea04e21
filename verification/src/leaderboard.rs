//! The leaderboard: wins and losses of every player, counted from the
//! records of finished games and ranked.

use crate::records::{records_view, table_view, ConnectGame, Leaderboard, Record, Standing};
use vstd::prelude::*;

verus! {

/// The loser of a game: the second player if the first has won, and the
/// first player otherwise.
pub open spec fn loser(game: Record) -> Seq<char> {
    if game.player1 == game.winner {
        game.player2
    } else {
        game.player1
    }
}

/// The number of games that `name` has won.
pub open spec fn wins_of(games: Seq<Record>, name: Seq<char>) -> nat
    decreases games.len(),
{
    if games.len() == 0 {
        0
    } else {
        wins_of(games.drop_last(), name) + if games.last().winner == name {
            1nat
        } else {
            0nat
        }
    }
}

/// The number of games that `name` has lost.
pub open spec fn losses_of(games: Seq<Record>, name: Seq<char>) -> nat
    decreases games.len(),
{
    if games.len() == 0 {
        0
    } else {
        losses_of(games.drop_last(), name) + if loser(games.last()) == name {
            1nat
        } else {
            0nat
        }
    }
}

/// `table` counts the wins of the first `wi` games and the losses of the
/// first `li` games: it has one line for each player with a win or a loss
/// among them and for nobody else, and each line holds the wins and the
/// losses of its player.
pub open spec fn counted(table: Seq<Standing>, games: Seq<Record>, wi: int, li: int) -> bool {
    &&& forall|k: int|
        0 <= k < table.len() ==> {
            &&& (#[trigger] table[k]).wins == wins_of(games.take(wi), table[k].username)
            &&& table[k].losses == losses_of(games.take(li), table[k].username)
            &&& table[k].wins + table[k].losses > 0
        }
    &&& forall|j: int, k: int|
        0 <= j < k < table.len() ==> (#[trigger] table[j]).username != (#[trigger] table[k]).username
    &&& forall|name: Seq<char>|
        wins_of(games.take(wi), name) + losses_of(games.take(li), name) > 0 ==> exists|k: int|
            0 <= k < table.len() && (#[trigger] table[k]).username == name
}

/// `table` is the tally of `games`.
pub open spec fn tallies(table: Seq<Standing>, games: Seq<Record>) -> bool {
    counted(table, games, games.len() as int, games.len() as int)
}

/// Line `a` does not stand below line `b`: it has more wins, or as many
/// wins and no more losses.
pub open spec fn outranks(a: Standing, b: Standing) -> bool {
    a.wins > b.wins || (a.wins == b.wins && a.losses <= b.losses)
}

/// Every line of `table` outranks the lines after it.
pub open spec fn ranked(table: Seq<Standing>) -> bool {
    forall|j: int, k: int| 0 <= j < k < table.len() ==> outranks(#[trigger] table[j], #[trigger] table[k])
}

/// No player has more wins or more losses than there are games.
proof fn lemma_counts_bounded(games: Seq<Record>, name: Seq<char>)
    ensures
        wins_of(games, name) <= games.len(),
        losses_of(games, name) <= games.len(),
    decreases games.len(),
{
    if games.len() > 0 {
        lemma_counts_bounded(games.drop_last(), name);
    }
}

/// One more game adds one win to its winner and one loss to its loser.
proof fn lemma_counts_step(games: Seq<Record>, i: int, name: Seq<char>)
    requires
        0 <= i < games.len(),
    ensures
        wins_of(games.take(i + 1), name) == wins_of(games.take(i), name) + if games[i].winner
            == name {
            1nat
        } else {
            0nat
        },
        losses_of(games.take(i + 1), name) == losses_of(games.take(i), name) + if loser(games[i])
            == name {
            1nat
        } else {
            0nat
        },
{
    assert(games.take(i + 1).drop_last() =~= games.take(i));
    assert(games.take(i + 1).last() == games[i]);
}

/// The line with one more win, or one more loss.
pub open spec fn bump(line: Standing, win: bool) -> Standing {
    Standing {
        username: line.username,
        wins: line.wins + if win {
            1nat
        } else {
            0nat
        },
        losses: line.losses + if win {
            0nat
        } else {
            1nat
        },
    }
}

/// `name` has a line in `table`.
pub open spec fn listed(table: Seq<Standing>, name: Seq<char>) -> bool {
    exists|k: int| 0 <= k < table.len() && (#[trigger] table[k]).username == name
}

/// `after` is `before` with one more win, or one more loss, on the line of
/// `name`; where `name` had no line, `after` has a new last line for it.
pub open spec fn credited(
    before: Seq<Standing>,
    after: Seq<Standing>,
    name: Seq<char>,
    win: bool,
) -> bool {
    &&& after.len() == before.len() + if listed(before, name) {
        0nat
    } else {
        1nat
    }
    &&& forall|k: int|
        0 <= k < before.len() ==> #[trigger] after[k] == if before[k].username == name {
            bump(before[k], win)
        } else {
            before[k]
        }
    &&& !listed(before, name) ==> after[before.len() as int] == bump(
        Standing { username: name, wins: 0, losses: 0 },
        win,
    )
}

/// Crediting the next win to its winner, or the next loss to its loser,
/// keeps the table in step with the games counted.
proof fn lemma_credit_counts(
    before: Seq<Standing>,
    after: Seq<Standing>,
    games: Seq<Record>,
    wi: int,
    li: int,
    win: bool,
)
    requires
        0 <= wi <= games.len(),
        0 <= li <= games.len(),
        win ==> wi < games.len(),
        !win ==> li < games.len(),
        counted(before, games, wi, li),
        credited(
            before,
            after,
            if win {
                games[wi].winner
            } else {
                loser(games[li])
            },
            win,
        ),
    ensures
        counted(
            after,
            games,
            if win {
                wi + 1
            } else {
                wi
            },
            if win {
                li
            } else {
                li + 1
            },
        ),
{
    let name = if win {
        games[wi].winner
    } else {
        loser(games[li])
    };
    let wj = if win {
        wi + 1
    } else {
        wi
    };
    let lj = if win {
        li
    } else {
        li + 1
    };
    assert forall|n: Seq<char>|
        wins_of(games.take(wj), n) == wins_of(games.take(wi), n) + if win && n == name {
            1nat
        } else {
            0nat
        } && losses_of(games.take(lj), n) == losses_of(games.take(li), n) + if !win && n == name {
            1nat
        } else {
            0nat
        } by {
        if win {
            lemma_counts_step(games, wi, n);
        } else {
            lemma_counts_step(games, li, n);
        }
    }
    assert forall|k: int| 0 <= k < after.len() implies {
        &&& (#[trigger] after[k]).wins == wins_of(games.take(wj), after[k].username)
        &&& after[k].losses == losses_of(games.take(lj), after[k].username)
        &&& after[k].wins + after[k].losses > 0
    } by {
        if k < before.len() {
            let line = before[k];
            assert(line.wins == wins_of(games.take(wi), line.username));
        } else {
            assert(!listed(before, name));
            if wins_of(games.take(wi), name) + losses_of(games.take(li), name) > 0 {
                let j = choose|j: int| 0 <= j < before.len() && (#[trigger] before[j]).username == name;
                assert(listed(before, name));
            }
        }
    }
    assert forall|j: int, k: int| 0 <= j < k < after.len() implies (#[trigger] after[j]).username != (
    #[trigger] after[k]).username by {
        assert(after[j].username == before[j].username);
        if k < before.len() {
            assert(after[k].username == before[k].username);
        } else {
            assert(!listed(before, name));
        }
    }
    assert forall|n: Seq<char>|
        wins_of(games.take(wj), n) + losses_of(games.take(lj), n) > 0 implies exists|k: int|
        0 <= k < after.len() && (#[trigger] after[k]).username == n by {
        if wins_of(games.take(wi), n) + losses_of(games.take(li), n) > 0 {
            let k = choose|k: int| 0 <= k < before.len() && (#[trigger] before[k]).username == n;
            assert(after[k].username == n);
        } else {
            assert(n == name);
            if listed(before, name) {
                let k = choose|k: int| 0 <= k < before.len() && (#[trigger] before[k]).username == name;
                assert(after[k].username == n);
            } else {
                assert(after[before.len() as int].username == n);
            }
        }
    }
}

/// Adds one win, or one loss, to the line of `name`, and makes the line
/// where there is none.
fn credit(table: &mut Vec<Leaderboard>, name: &String, win: bool)
    requires
        forall|k: int|
            0 <= k < old(table)@.len() ==> if win {
                (#[trigger] old(table)@[k]).wins < u32::MAX
            } else {
                old(table)@[k].losses < u32::MAX
            },
    ensures
        credited(table_view(old(table)@), table_view(final(table)@), name@, win),
{
    let mut k: usize = 0;
    let mut found = false;
    let ghost before = table@;
    while k < table.len()
        invariant
            k <= table@.len(),
            table@.len() == before.len(),
            before == old(table)@,
            found == exists|j: int| 0 <= j < k && (#[trigger] before[j]).username@ == name@,
            forall|j: int|
                0 <= j < before.len() ==> if win {
                    (#[trigger] before[j]).wins < u32::MAX
                } else {
                    before[j].losses < u32::MAX
                },
            forall|j: int| k <= j < before.len() ==> #[trigger] table@[j] == before[j],
            forall|j: int|
                0 <= j < k ==> (#[trigger] table@[j])@ == if before[j].username@ == name@ {
                    Standing {
                        username: name@,
                        wins: before[j]@.wins + if win {
                            1nat
                        } else {
                            0nat
                        },
                        losses: before[j]@.losses + if win {
                            0nat
                        } else {
                            1nat
                        },
                    }
                } else {
                    before[j]@
                },
        decreases table@.len() - k,
    {
        if table[k].username == *name {
            if win {
                table[k].wins = table[k].wins + 1;
            } else {
                table[k].losses = table[k].losses + 1;
            }
            found = true;
        }
        k += 1;
    }
    proof {
        let b = table_view(before);
        if found {
            let j = choose|j: int| 0 <= j < k && (#[trigger] before[j]).username@ == name@;
            assert(b[j].username == name@);
        }
        if listed(b, name@) {
            let j = choose|j: int| 0 <= j < b.len() && (#[trigger] b[j]).username == name@;
            assert(before[j].username@ == name@);
        }
        assert(found == listed(b, name@));
    }
    if !found {
        table.push(
            Leaderboard {
                username: name.clone(),
                wins: if win {
                    1
                } else {
                    0
                },
                losses: if win {
                    0
                } else {
                    1
                },
            },
        );
    }
    proof {
        let b = table_view(before);
        let a = table_view(table@);
        assert forall|j: int| 0 <= j < b.len() implies #[trigger] a[j] == if b[j].username
            == name@ {
            bump(b[j], win)
        } else {
            b[j]
        } by {
            assert(a[j] == table@[j]@);
        }
    }
}

/// The tally of `games`: one line for every player who has won or lost a
/// game, with the number of games won and lost, in the order in which the
/// players first occur.
pub fn tally(games: &Vec<ConnectGame>) -> (table: Vec<Leaderboard>)
    requires
        games@.len() <= u32::MAX,
    ensures
        tallies(table_view(table@), records_view(games@)),
{
    let ghost all = records_view(games@);
    let mut table: Vec<Leaderboard> = Vec::new();
    let mut i: usize = 0;
    while i < games.len()
        invariant
            i <= games@.len(),
            games@.len() <= u32::MAX,
            all == records_view(games@),
            counted(table_view(table@), all, i as int, i as int),
        decreases games@.len() - i,
    {
        let game = &games[i];
        assert(all[i as int] == game@);
        proof {
            assert forall|k: int| 0 <= k < table@.len() implies (#[trigger] table@[k]).wins
                < u32::MAX by {
                let line = table_view(table@)[k];
                lemma_counts_bounded(all.take(i as int), line.username);
            }
        }
        let ghost before = table_view(table@);
        credit(&mut table, &game.winner, true);
        let ghost between = table_view(table@);
        proof {
            lemma_credit_counts(before, between, all, i as int, i as int, true);
            assert forall|k: int| 0 <= k < table@.len() implies (#[trigger] table@[k]).losses
                < u32::MAX by {
                let line = between[k];
                lemma_counts_bounded(all.take(i as int), line.username);
            }
        }
        if game.player1 == game.winner {
            credit(&mut table, &game.player2, false);
        } else {
            credit(&mut table, &game.player1, false);
        }
        proof {
            lemma_credit_counts(between, table_view(table@), all, i + 1, i as int, false);
        }
        i += 1;
    }
    assert(all.take(all.len() as int) =~= all);
    table
}

/// `after` holds the lines of `before` in another order: line `i` of
/// `after` is line `p[i]` of `before`, and line `k` of `before` is line
/// `q[k]` of `after`.
pub open spec fn reorders(
    p: Seq<int>,
    q: Seq<int>,
    before: Seq<Standing>,
    after: Seq<Standing>,
) -> bool {
    &&& p.len() == before.len()
    &&& q.len() == before.len()
    &&& after.len() == before.len()
    &&& forall|i: int|
        0 <= i < before.len() ==> 0 <= #[trigger] p[i] < before.len() && q[p[i]] == i && after[i]
            == before[p[i]]
    &&& forall|k: int|
        0 <= k < before.len() ==> 0 <= #[trigger] q[k] < before.len() && p[q[k]] == k
}

/// `after` holds the lines of `before`, each once, in some order.
pub open spec fn same_lines(before: Seq<Standing>, after: Seq<Standing>) -> bool {
    exists|p: Seq<int>, q: Seq<int>| reorders(p, q, before, after)
}

/// A tally stays one in whatever order its lines are put.
pub proof fn lemma_tally_reordered(before: Seq<Standing>, after: Seq<Standing>, games: Seq<Record>)
    requires
        tallies(before, games),
        same_lines(before, after),
    ensures
        tallies(after, games),
{
    let (p, q) = choose|p: Seq<int>, q: Seq<int>| reorders(p, q, before, after);
    let n = games.len() as int;
    assert forall|k: int| 0 <= k < after.len() implies {
        &&& (#[trigger] after[k]).wins == wins_of(games.take(n), after[k].username)
        &&& after[k].losses == losses_of(games.take(n), after[k].username)
        &&& after[k].wins + after[k].losses > 0
    } by {
        assert(after[k] == before[p[k]]);
    }
    assert forall|j: int, k: int| 0 <= j < k < after.len() implies (#[trigger] after[j]).username != (
    #[trigger] after[k]).username by {
        assert(after[j] == before[p[j]]);
        assert(after[k] == before[p[k]]);
        assert(q[p[j]] == j && q[p[k]] == k);
        if p[j] < p[k] {
            assert(before[p[j]].username != before[p[k]].username);
        } else {
            assert(before[p[k]].username != before[p[j]].username);
        }
    }
    assert forall|name: Seq<char>|
        wins_of(games.take(n), name) + losses_of(games.take(n), name) > 0 implies exists|k: int|
        0 <= k < after.len() && (#[trigger] after[k]).username == name by {
        let k = choose|k: int| 0 <= k < before.len() && (#[trigger] before[k]).username == name;
        assert(p[q[k]] == k);
        assert(after[q[k]] == before[p[q[k]]]);
    }
}

/// Whether line `a` does not stand below line `b`.
fn stands_before(a: &Leaderboard, b: &Leaderboard) -> (yes: bool)
    ensures
        yes == outranks(a@, b@),
{
    a.wins > b.wins || (a.wins == b.wins && a.losses <= b.losses)
}

/// Exchanges line `j` with the line before it.
fn swap_down(table: &mut Vec<Leaderboard>, j: usize)
    requires
        0 < j < old(table)@.len(),
    ensures
        final(table)@.len() == old(table)@.len(),
        final(table)@[j - 1] == old(table)@[j as int],
        final(table)@[j as int] == old(table)@[j - 1],
        forall|k: int|
            0 <= k < old(table)@.len() && k != j && k != j - 1 ==> #[trigger] final(table)@[k] == old(
                table,
            )@[k],
{
    let line = table.remove(j);
    table.insert(j - 1, line);
}

/// The lines of `table`, ranked: by wins, the most first, and among lines
/// with as many wins by losses, the fewest first. Lines that tie in both
/// keep their order.
pub fn rank(table: Vec<Leaderboard>) -> (sorted: Vec<Leaderboard>)
    ensures
        ranked(table_view(sorted@)),
        same_lines(table_view(table@), table_view(sorted@)),
{
    let ghost unsorted = table_view(table@);
    let mut table = table;
    let n = table.len();
    let ghost mut p: Seq<int> = Seq::new(n as nat, |i: int| i);
    let ghost mut q: Seq<int> = Seq::new(n as nat, |i: int| i);
    let mut i: usize = 1;
    if n == 0 {
        assert(reorders(p, q, unsorted, table_view(table@)));
        return table;
    }
    while i < n
        invariant
            1 <= i <= n,
            n == table@.len(),
            reorders(p, q, unsorted, table_view(table@)),
            forall|a: int, b: int|
                0 <= a < b < i ==> outranks((#[trigger] table@[a])@, (#[trigger] table@[b])@),
        decreases n - i,
    {
        let mut j: usize = i;
        while j > 0 && !stands_before(&table[j - 1], &table[j])
            invariant
                j <= i < n,
                n == table@.len(),
                reorders(p, q, unsorted, table_view(table@)),
                forall|a: int, b: int|
                    0 <= a < b <= i && a != j && b != j ==> outranks(
                        (#[trigger] table@[a])@,
                        (#[trigger] table@[b])@,
                    ),
                forall|b: int| j < b <= i ==> outranks(table@[j as int]@, (#[trigger] table@[b])@),
            decreases j,
        {
            let ghost before = table@;
            swap_down(&mut table, j);
            proof {
                let pj = p[j as int];
                let pi = p[j - 1];
                let now = table_view(table@);
                let was = table_view(before);
                assert(was[j as int] == unsorted[pj]);
                assert(was[j - 1] == unsorted[pi]);
                p = p.update(j - 1, pj).update(j as int, pi);
                q = q.update(pj, j - 1).update(pi, j as int);
                assert forall|k: int| 0 <= k < unsorted.len() implies 0 <= #[trigger] p[k]
                    < unsorted.len() && q[p[k]] == k && now[k] == unsorted[p[k]] by {
                    if k != j && k != j - 1 {
                        assert(now[k] == was[k]);
                    }
                }
                assert(reorders(p, q, unsorted, now));
            }
            j -= 1;
        }
        i += 1;
    }
    assert forall|a: int, b: int| 0 <= a < b < table_view(table@).len() implies outranks(
        #[trigger] table_view(table@)[a],
        #[trigger] table_view(table@)[b],
    ) by {
        assert(outranks(table@[a]@, table@[b]@));
    }
    table
}

/// The leaderboard of `games`: the tally of wins and losses, ranked.
pub fn leaderboard(games: &Vec<ConnectGame>) -> (table: Vec<Leaderboard>)
    requires
        games@.len() <= u32::MAX,
    ensures
        tallies(table_view(table@), records_view(games@)),
        ranked(table_view(table@)),
{
    let counted = tally(games);
    let ghost before = table_view(counted@);
    let table = rank(counted);
    proof {
        lemma_tally_reordered(before, table_view(table@), records_view(games@));
    }
    table
}

/// `pat` stands in `text` from character `i` on.
pub open spec fn text_occurs_at(text: Seq<char>, pat: Seq<char>, i: int) -> bool {
    0 <= i && i + pat.len() <= text.len() && text.subrange(i, i + pat.len()) == pat
}

/// `pat` stands somewhere in `text`.
pub open spec fn text_contains(text: Seq<char>, pat: Seq<char>) -> bool {
    exists|i: int| text_occurs_at(text, pat, i)
}

/// Whether `pat` stands somewhere in `text`. The empty text stands in every
/// text.
pub fn contains_text(text: &str, pat: &str) -> (found: bool)
    ensures
        found == text_contains(text@, pat@),
{
    let n = text.unicode_len();
    let m = pat.unicode_len();
    if m > n {
        return false;
    }
    let mut i: usize = 0;
    while i <= n - m
        invariant
            n == text@.len(),
            m == pat@.len(),
            m <= n,
            i <= n - m + 1,
            forall|j: int| 0 <= j < i ==> !text_occurs_at(text@, pat@, j),
        decreases n - m + 1 - i,
    {
        let mut k: usize = 0;
        while k < m && text.get_char(i + k) == pat.get_char(k)
            invariant
                n == text@.len(),
                m == pat@.len(),
                i + m <= n,
                k <= m,
                forall|j: int| 0 <= j < k ==> text@[i + j] == pat@[j],
            decreases m - k,
        {
            k += 1;
        }
        if k == m {
            assert(text@.subrange(i as int, i + m) =~= pat@);
            assert(text_occurs_at(text@, pat@, i as int));
            return true;
        }
        assert(!text_occurs_at(text@, pat@, i as int)) by {
            if text_occurs_at(text@, pat@, i as int) {
                assert(text@.subrange(i as int, i + m)[k as int] == pat@[k as int]);
            }
        }
        i += 1;
    }
    false
}

/// The name is that of a computer opponent: it holds `CPU` or `AI`.
pub open spec fn machine_name(name: Seq<char>) -> bool {
    text_contains(name, "CPU"@) || text_contains(name, "AI"@)
}

/// The lines of people among the first `n` lines, in their order.
pub open spec fn people_prefix(table: Seq<Standing>, n: nat) -> Seq<Standing>
    decreases n,
{
    if n == 0 {
        Seq::empty()
    } else if machine_name(table[n - 1].username) {
        people_prefix(table, (n - 1) as nat)
    } else {
        people_prefix(table, (n - 1) as nat).push(table[n - 1])
    }
}

/// The lines of people: those of `table` whose name is not that of a
/// computer opponent, in their order.
pub open spec fn people(table: Seq<Standing>) -> Seq<Standing> {
    people_prefix(table, table.len())
}

/// The lines of `table` that are shown: those of people, in their order.
pub fn human_players(table: &Vec<Leaderboard>) -> (shown: Vec<Leaderboard>)
    ensures
        table_view(shown@) == people(table_view(table@)),
{
    let ghost all = table_view(table@);
    let mut shown: Vec<Leaderboard> = Vec::new();
    let mut i: usize = 0;
    while i < table.len()
        invariant
            i <= table@.len(),
            all == table_view(table@),
            table_view(shown@) == people_prefix(all, i as nat),
        decreases table@.len() - i,
    {
        let line = &table[i];
        assert(all[i as int] == line@);
        let name = line.username.as_str();
        if !contains_text(name, "CPU") && !contains_text(name, "AI") {
            shown.push(
                Leaderboard { username: line.username.clone(), wins: line.wins, losses: line.losses },
            );
            assert(table_view(shown@) =~= people_prefix(all, i as nat).push(all[i as int]));
        }
        i += 1;
    }
    shown
}

} // verus!
