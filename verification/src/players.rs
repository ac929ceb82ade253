//! The players at the table and what happens to their hints during a round.
use vstd::prelude::*;

use crate::text::append_decimal;
use crate::text::decimal;
use crate::text::eq_ignoring_case;
use crate::text::same_ignoring_case;

verus! {

/// A player, with the hint (or, for the guessing player, the guess) of the current round.
#[derive(Debug, PartialEq)]
pub struct Player {
    pub name: String,
    pub word_guess: Option<String>,
    pub word_stricken: bool,
}

/// The mathematical content of a [`Player`].
#[verifier::ext_equal]
pub struct PlayerView {
    pub name: Seq<char>,
    pub word_guess: Option<Seq<char>>,
    pub word_stricken: bool,
}

/// The content of an optional text.
pub open spec fn text_view(t: Option<String>) -> Option<Seq<char>> {
    match t {
        Some(s) => Some(s@),
        None => None,
    }
}

impl View for Player {
    type V = PlayerView;

    open spec fn view(&self) -> PlayerView {
        PlayerView {
            name: self.name@,
            word_guess: text_view(self.word_guess),
            word_stricken: self.word_stricken,
        }
    }
}

/// The content of a row of players.
pub open spec fn players_view(users: Seq<Player>) -> Seq<PlayerView> {
    Seq::new(users.len(), |i: int| users[i]@)
}

/// A player of that name who has not submitted anything.
pub open spec fn newcomer(name: Seq<char>) -> PlayerView {
    PlayerView { name, word_guess: None, word_stricken: false }
}

/// The players of a game on one terminal: `User0`, `User1` and so on.
pub open spec fn numbered_players(n: nat) -> Seq<PlayerView> {
    Seq::new(n, |i: int| newcomer("User"@ + decimal(i as nat)))
}

/// The players at the start of a round: no words, none stricken.
pub open spec fn cleared(users: Seq<PlayerView>) -> Seq<PlayerView> {
    Seq::new(users.len(), |i: int| newcomer(users[i].name))
}

/// The players after player `i` has put down `word`.
pub open spec fn with_word(users: Seq<PlayerView>, i: int, word: Option<Seq<char>>) -> Seq<
    PlayerView,
> {
    users.update(i, PlayerView { word_guess: word, ..users[i] })
}

/// Whether everyone but player `guess_user` has put down a word.
pub open spec fn all_submitted(users: Seq<PlayerView>, guess_user: int) -> bool {
    forall|i: int|
        0 <= i < users.len() ==> i == guess_user || (#[trigger] users[i]).word_guess is Some
}

/// Whether both players have put down a word, and the words differ at most in case.
pub open spec fn same_hint(a: PlayerView, b: PlayerView) -> bool {
    &&& a.word_guess is Some
    &&& b.word_guess is Some
    &&& same_ignoring_case(a.word_guess->0, b.word_guess->0)
}

/// Whether another player has put down the word of player `i`.
pub open spec fn duplicated(users: Seq<PlayerView>, i: int) -> bool {
    exists|j: int| 0 <= j < users.len() && j != i && same_hint(users[i], #[trigger] users[j])
}

/// The players after every word that was put down twice has been stricken.
pub open spec fn duplicates_stricken(users: Seq<PlayerView>) -> Seq<PlayerView> {
    Seq::new(
        users.len(),
        |i: int|
            PlayerView {
                word_stricken: users[i].word_stricken || duplicated(users, i),
                ..users[i]
            },
    )
}

/// The players after the words of the players in `remove` have been stricken.
pub open spec fn stricken(users: Seq<PlayerView>, remove: Seq<usize>) -> Seq<PlayerView> {
    Seq::new(
        users.len(),
        |i: int|
            PlayerView {
                word_stricken: users[i].word_stricken || remove.contains(i as usize),
                ..users[i]
            },
    )
}

/// Every word on the table, with the mark that it was stricken.
pub open spec fn shown_words(users: Seq<PlayerView>) -> Seq<Option<(Seq<char>, bool)>> {
    Seq::new(
        users.len(),
        |i: int|
            match users[i].word_guess {
                Some(w) => Some((w, users[i].word_stricken)),
                None => None,
            },
    )
}

/// The words that were not stricken.
pub open spec fn filtered_words(users: Seq<PlayerView>) -> Seq<Option<Seq<char>>> {
    Seq::new(
        users.len(),
        |i: int|
            if users[i].word_stricken {
                None
            } else {
                users[i].word_guess
            },
    )
}

/// Seats `n` players, `User0`, `User1` and so on.
pub fn number_players(n: usize) -> (r: Vec<Player>)
    ensures
        players_view(r@) == numbered_players(n as nat),
{
    let mut users: Vec<Player> = Vec::new();
    for i in 0..n
        invariant
            players_view(users@) == numbered_players(i as nat),
    {
        let ghost before = users@;
        let mut name: String = "User".to_owned();
        append_decimal(&mut name, i);
        users.push(Player { name, word_guess: None, word_stricken: false });
        assert(players_view(users@) =~= players_view(before).push(users@.last()@));
        assert(numbered_players((i + 1) as nat) =~= numbered_players(i as nat).push(
            users@.last()@,
        ));
    }
    users
}

/// Tells whether all `ids` are below `n`.
pub fn all_below(ids: &Vec<usize>, n: usize) -> (r: bool)
    ensures
        r == (forall|k: int| 0 <= k < ids@.len() ==> (#[trigger] ids@[k]) < n),
{
    for i in 0..ids.len()
        invariant
            forall|k: int| 0 <= k < i ==> (#[trigger] ids@[k]) < n,
    {
        if ids[i] >= n {
            return false;
        }
    }
    true
}

/// Takes all words off the table.
pub fn clear_words(users: &mut Vec<Player>)
    ensures
        players_view(final(users)@) == cleared(players_view(old(users)@)),
{
    let n: usize = users.len();
    clear_words_up_to(users, n);
    assert(players_view(users@) =~= cleared(players_view(old(users)@)));
}

/// The players once the words of the first `m` are off the table.
pub open spec fn cleared_up_to(users: Seq<PlayerView>, m: int) -> Seq<PlayerView> {
    Seq::new(
        users.len(),
        |i: int|
            if i < m {
                newcomer(users[i].name)
            } else {
                users[i]
            },
    )
}

/// Takes the words of the first `m` players off the table.
pub fn clear_words_up_to(users: &mut Vec<Player>, m: usize)
    requires
        m <= old(users).len(),
    ensures
        players_view(final(users)@) == cleared_up_to(players_view(old(users)@), m as int),
{
    let ghost before = users@;
    for i in 0..m
        invariant
            m <= users@.len() == before.len(),
            forall|j: int| 0 <= j < i ==> (#[trigger] users@[j])@ == newcomer(before[j].name@),
            forall|j: int| i <= j < users@.len() ==> #[trigger] users@[j] == before[j],
    {
        users[i].word_guess = None;
        users[i].word_stricken = false;
    }
    assert(players_view(users@) =~= cleared_up_to(players_view(before), m as int));
}

/// Copies the players.
pub fn copy_players(users: &Vec<Player>) -> (r: Vec<Player>)
    ensures
        players_view(r@) == players_view(users@),
{
    let mut r: Vec<Player> = Vec::new();
    for i in 0..users.len()
        invariant
            r@.len() == i,
            forall|j: int| 0 <= j < i ==> (#[trigger] r@[j])@ == users@[j]@,
    {
        let word_guess = match &users[i].word_guess {
            Some(w) => Some(w.clone()),
            None => None,
        };
        r.push(
            Player {
                name: users[i].name.clone(),
                word_guess,
                word_stricken: users[i].word_stricken,
            },
        );
    }
    assert(players_view(r@) =~= players_view(users@));
    r
}

/// Puts down a word (or nothing) for player `i`.
pub fn put_word(users: &mut Vec<Player>, i: usize, word: Option<String>)
    requires
        i < old(users).len(),
    ensures
        players_view(final(users)@) == with_word(
            players_view(old(users)@),
            i as int,
            text_view(word),
        ),
{
    users[i].word_guess = word;
}

/// Tells whether everyone but `guess_user` has put down a word.
pub fn everyone_submitted(users: &Vec<Player>, guess_user: usize) -> (r: bool)
    ensures
        r == all_submitted(players_view(users@), guess_user as int),
{
    for i in 0..users.len()
        invariant
            forall|j: int|
                0 <= j < i ==> j == guess_user || players_view(users@)[j].word_guess is Some,
    {
        if i != guess_user && users[i].word_guess.is_none() {
            assert(players_view(users@)[i as int].word_guess is None);
            return false;
        }
    }
    true
}

fn words_match(a: &Player, b: &Player) -> (r: bool)
    ensures
        r == same_hint(a@, b@),
{
    match (&a.word_guess, &b.word_guess) {
        (Some(v), Some(w)) => eq_ignoring_case(v.as_str(), w.as_str()),
        _ => false,
    }
}

/// Strikes every word that was put down twice.
pub fn strike_duplicates(users: &mut Vec<Player>)
    ensures
        players_view(final(users)@) == duplicates_stricken(players_view(old(users)@)),
{
    let ghost before = players_view(users@);
    let n: usize = users.len();
    for i in 0..n
        invariant
            n == users@.len() == before.len(),
            forall|k: int|
                0 <= k < n ==> (#[trigger] users@[k])@ == (PlayerView {
                    word_stricken: before[k].word_stricken || duplicated_within(
                        before,
                        k,
                        i as int,
                    ),
                    ..before[k]
                }),
    {
        let mut j: usize = 0;
        while j < i && !words_match(&users[i], &users[j])
            invariant
                i < n == users@.len(),
                j <= i,
                forall|m: int|
                    0 <= m < j ==> !same_hint(users@[i as int]@, (#[trigger] users@[m])@),
            decreases i - j,
        {
            j += 1;
        }
        let ghost after = users@;
        proof {
            assert forall|m: int| 0 <= m < j implies !same_hint(
                before[i as int],
                #[trigger] before[m],
            ) by {
                assert(!same_hint(users@[i as int]@, users@[m]@));
            }
            if j < i {
                assert(same_hint(users@[i as int]@, users@[j as int]@));
                assert(same_hint(before[i as int], before[j as int]));
            }
            assert forall|k: int| 0 <= k < n implies #[trigger] duplicated_within(before, k, i + 1)
                == (duplicated_within(before, k, i as int) || (j < i && (k == i || k == j))) by {
                lemma_duplicated_step(before, k, i as int, j as int);
            }
        }
        if j < i {
            users[i].word_stricken = true;
            users[j].word_stricken = true;
        }
        proof {
            assert forall|k: int| 0 <= k < n implies (#[trigger] users@[k])@ == (PlayerView {
                word_stricken: before[k].word_stricken || duplicated_within(before, k, i + 1),
                ..before[k]
            }) by {
                assert(duplicated_within(before, k, i + 1) == (duplicated_within(
                    before,
                    k,
                    i as int,
                ) || (j < i && (k == i || k == j))));
                assert(after[k]@.name == before[k].name);
            }
        }
    }
    proof {
        assert forall|k: int| 0 <= k < n implies #[trigger] duplicated_within(before, k, n as int)
            == duplicated(before, k) by {}
    }
}

/// Whether player `k` and another player, both among the first `n`, have put down the same word.
spec fn duplicated_within(users: Seq<PlayerView>, k: int, n: int) -> bool {
    k < n && exists|m: int| 0 <= m < n && m != k && same_hint(users[k], #[trigger] users[m])
}

/// Having put down the same word is symmetric.
pub proof fn lemma_same_hint_symmetric(a: PlayerView, b: PlayerView)
    ensures
        same_hint(a, b) == same_hint(b, a),
{
    if same_hint(a, b) {
        let (x, y) = (a.word_guess->0, b.word_guess->0);
        assert forall|i: int| 0 <= i < y.len() implies crate::text::ascii_lower(#[trigger] y[i])
            == crate::text::ascii_lower(x[i]) by {
            assert(crate::text::ascii_lower(x[i]) == crate::text::ascii_lower(y[i]));
        }
    }
    if same_hint(b, a) {
        let (x, y) = (a.word_guess->0, b.word_guess->0);
        assert forall|i: int| 0 <= i < x.len() implies crate::text::ascii_lower(#[trigger] x[i])
            == crate::text::ascii_lower(y[i]) by {
            assert(crate::text::ascii_lower(y[i]) == crate::text::ascii_lower(x[i]));
        }
    }
}

/// Having put down the same word is transitive.
pub proof fn lemma_same_hint_transitive(a: PlayerView, b: PlayerView, c: PlayerView)
    requires
        same_hint(a, b),
        same_hint(b, c),
    ensures
        same_hint(a, c),
{
    let (x, y, z) = (a.word_guess->0, b.word_guess->0, c.word_guess->0);
    assert forall|i: int| 0 <= i < x.len() implies crate::text::ascii_lower(#[trigger] x[i])
        == crate::text::ascii_lower(z[i]) by {
        assert(crate::text::ascii_lower(y[i]) == crate::text::ascii_lower(z[i]));
    }
}

proof fn lemma_duplicated_step(users: Seq<PlayerView>, k: int, i: int, j: int)
    requires
        0 <= k < users.len(),
        0 <= j <= i < users.len(),
        j < i ==> same_hint(users[i], users[j]),
        forall|m: int| 0 <= m < j ==> !same_hint(users[i], #[trigger] users[m]),
    ensures
        duplicated_within(users, k, i + 1) == (duplicated_within(users, k, i) || (j < i && (k == i
            || k == j))),
{
    if duplicated_within(users, k, i + 1) {
        let m = choose|m: int|
            0 <= m < i + 1 && m != k && same_hint(users[k], #[trigger] users[m]);
        if k < i && m == i {
            lemma_same_hint_symmetric(users[k], users[i]);
            if k != j {
                lemma_same_hint_transitive(users[k], users[i], users[j]);
            }
        }
    }
    if duplicated_within(users, k, i) {
        let m = choose|m: int| 0 <= m < i && m != k && same_hint(users[k], #[trigger] users[m]);
        assert(0 <= m < i + 1);
    }
    if j < i && k == j {
        lemma_same_hint_symmetric(users[i], users[j]);
        assert(same_hint(users[k], users[i]));
    }
}

/// Strikes the words of the players in `remove`.
pub fn strike(users: &mut Vec<Player>, remove: &Vec<usize>)
    requires
        forall|i: int| 0 <= i < remove@.len() ==> #[trigger] remove@[i] < old(users)@.len(),
    ensures
        players_view(final(users)@) == stricken(players_view(old(users)@), remove@),
{
    let ghost before = players_view(users@);
    let n: usize = users.len();
    for i in 0..remove.len()
        invariant
            n == users@.len() == before.len(),
            forall|k: int| 0 <= k < remove@.len() ==> #[trigger] remove@[k] < before.len(),
            forall|k: int|
                0 <= k < n ==> (#[trigger] users@[k])@ == (PlayerView {
                    word_stricken: before[k].word_stricken || remove@.take(i as int).contains(
                        k as usize,
                    ),
                    ..before[k]
                }),
    {
        let ghost now = users@;
        let uid: usize = remove[i];
        users[uid].word_stricken = true;
        proof {
            let (old_part, new_part) = (remove@.take(i as int), remove@.take(i + 1));
            assert(new_part =~= old_part.push(uid));
            assert forall|k: int| 0 <= k < n implies (#[trigger] users@[k])@ == (
            PlayerView {
                word_stricken: before[k].word_stricken || new_part.contains(k as usize),
                ..before[k]
            }) by {
                assert(now[k]@.name == before[k].name);
                assert(new_part[i as int] == uid);
                if new_part.contains(k as usize) {
                    let m = choose|m: int| 0 <= m < new_part.len() && new_part[m] == k as usize;
                    if m < i {
                        assert(old_part[m] == k as usize);
                    }
                }
                if old_part.contains(k as usize) {
                    let m = choose|m: int| 0 <= m < old_part.len() && old_part[m] == k as usize;
                    assert(new_part[m] == k as usize);
                }
            }
        }
    }
    assert(remove@.take(remove@.len() as int) =~= remove@);
}

/// The content of a word with its mark.
pub open spec fn marked_word_view(word: Option<(String, bool)>) -> Option<(Seq<char>, bool)> {
    match word {
        Some((w, stricken)) => Some((w@, stricken)),
        None => None,
    }
}

/// The content of a list of words with their marks.
pub open spec fn marked_words_view(words: Seq<Option<(String, bool)>>) -> Seq<
    Option<(Seq<char>, bool)>,
> {
    Seq::new(words.len(), |i: int| marked_word_view(words[i]))
}

/// The content of a list of optional words.
pub open spec fn words_view(words: Seq<Option<String>>) -> Seq<Option<Seq<char>>> {
    Seq::new(words.len(), |i: int| text_view(words[i]))
}

/// Lists every word on the table, with the mark that it was stricken.
pub fn list_words(users: &Vec<Player>) -> (r: Vec<Option<(String, bool)>>)
    ensures
        marked_words_view(r@) == shown_words(players_view(users@)),
{
    let mut r: Vec<Option<(String, bool)>> = Vec::new();
    for i in 0..users.len()
        invariant
            r@.len() == i,
            forall|j: int|
                0 <= j < i ==> marked_words_view(r@)[j] == shown_words(players_view(users@))[j],
    {
        let ghost before = r@;
        match &users[i].word_guess {
            Some(w) => {
                r.push(Some((w.clone(), users[i].word_stricken)));
            },
            None => {
                r.push(None);
            },
        }
        assert forall|j: int| 0 <= j < i + 1 implies marked_words_view(r@)[j] == shown_words(
            players_view(users@),
        )[j] by {
            if j < i {
                assert(marked_words_view(before)[j] == shown_words(players_view(users@))[j]);
            }
        }
    }
    r
}

/// Lists the words that were not stricken.
pub fn list_filtered_words(users: &Vec<Player>) -> (r: Vec<Option<String>>)
    ensures
        words_view(r@) == filtered_words(players_view(users@)),
{
    let mut r: Vec<Option<String>> = Vec::new();
    for i in 0..users.len()
        invariant
            r@.len() == i,
            forall|j: int|
                0 <= j < i ==> words_view(r@)[j] == filtered_words(players_view(users@))[j],
    {
        let ghost before = r@;
        match &users[i].word_guess {
            Some(w) if !users[i].word_stricken => {
                r.push(Some(w.clone()));
            },
            _ => {
                r.push(None);
            },
        }
        assert forall|j: int| 0 <= j < i + 1 implies words_view(r@)[j] == filtered_words(
            players_view(users@),
        )[j] by {
            if j < i {
                assert(words_view(before)[j] == filtered_words(players_view(users@))[j]);
            }
        }
    }
    r
}

/// Copies a list of words with their marks.
pub fn copy_marked_words(words: &Vec<Option<(String, bool)>>) -> (r: Vec<Option<(String, bool)>>)
    ensures
        marked_words_view(r@) == marked_words_view(words@),
{
    let mut r: Vec<Option<(String, bool)>> = Vec::new();
    for i in 0..words.len()
        invariant
            r@.len() == i,
            forall|j: int|
                0 <= j < i ==> marked_word_view(#[trigger] r@[j]) == marked_word_view(words@[j]),
    {
        match &words[i] {
            Some((w, stricken)) => {
                r.push(Some((w.clone(), *stricken)));
            },
            None => {
                r.push(None);
            },
        }
    }
    r
}

/// Copies a list of words.
pub fn copy_words(words: &Vec<Option<String>>) -> (r: Vec<Option<String>>)
    ensures
        words_view(r@) == words_view(words@),
{
    let mut r: Vec<Option<String>> = Vec::new();
    for i in 0..words.len()
        invariant
            r@.len() == i,
            forall|j: int| 0 <= j < i ==> text_view(#[trigger] r@[j]) == text_view(words@[j]),
    {
        match &words[i] {
            Some(w) => {
                r.push(Some(w.clone()));
            },
            None => {
                r.push(None);
            },
        }
    }
    r
}

/// Once the duplicates are stricken, no two of the words left differ only in case.
pub proof fn law_filtered_words_are_distinct(users: Seq<PlayerView>, i: int, j: int)
    requires
        0 <= i < users.len(),
        0 <= j < users.len(),
        i != j,
    ensures
        ({
            let words = filtered_words(duplicates_stricken(users));
            words[i] is Some && words[j] is Some ==> !same_ignoring_case(words[i]->0, words[j]->0)
        }),
{
    if same_hint(users[i], users[j]) {
        assert(duplicated(users, i));
    }
}

/// Striking the duplicates hides only words that someone else put down too, and those that were
/// hidden before.
pub proof fn law_single_words_stay(users: Seq<PlayerView>, i: int)
    requires
        0 <= i < users.len(),
        !duplicated(users, i),
    ensures
        filtered_words(duplicates_stricken(users))[i] == filtered_words(users)[i],
{
}

/// Striking the duplicates a second time changes nothing.
pub proof fn law_striking_duplicates_is_idempotent(users: Seq<PlayerView>)
    ensures
        duplicates_stricken(duplicates_stricken(users)) == duplicates_stricken(users),
{
    let once = duplicates_stricken(users);
    assert forall|i: int| 0 <= i < users.len() implies duplicated(once, i) == #[trigger] duplicated(
        users,
        i,
    ) by {
        if duplicated(users, i) {
            let j = choose|j: int|
                0 <= j < users.len() && j != i && same_hint(users[i], #[trigger] users[j]);
            assert(same_hint(once[i], once[j]));
        }
        if duplicated(once, i) {
            let j = choose|j: int|
                0 <= j < once.len() && j != i && same_hint(once[i], #[trigger] once[j]);
            assert(same_hint(users[i], users[j]));
        }
    }
    assert(duplicates_stricken(once) =~= once) by {
        assert forall|i: int| 0 <= i < users.len() implies #[trigger] duplicates_stricken(once)[i]
            == once[i] by {
            assert(duplicated(users, i) == duplicated(once, i));
        }
    }
}

} // verus!
