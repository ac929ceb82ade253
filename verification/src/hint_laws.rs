//! What becomes of the hints on the table, player by player.
use vstd::prelude::*;

use crate::messages::ServerMessageView;
use crate::players::all_submitted;
use crate::players::cleared;
use crate::players::cleared_up_to;
use crate::players::duplicates_stricken;
use crate::players::filtered_words;
use crate::players::newcomer;
use crate::players::numbered_players;
use crate::players::same_hint;
use crate::players::shown_words;
use crate::players::stricken;
use crate::players::with_word;
use crate::players::Player;
use crate::players::PlayerView;
use crate::text::decimal;
use crate::text::same_ignoring_case;

verus! {

/// The players sit at the same places under the same names.
pub open spec fn same_seats(before: Seq<PlayerView>, after: Seq<PlayerView>) -> bool {
    &&& after.len() == before.len()
    &&& forall|i: int| 0 <= i < before.len() ==> (#[trigger] after[i]).name == before[i].name
}

/// The players have the same words before them.
pub open spec fn same_words(before: Seq<PlayerView>, after: Seq<PlayerView>) -> bool {
    &&& after.len() == before.len()
    &&& forall|i: int|
        0 <= i < before.len() ==> (#[trigger] after[i]).word_guess == before[i].word_guess
}

/// Nobody but player `i` is affected.
pub open spec fn same_others(before: Seq<PlayerView>, after: Seq<PlayerView>, i: int) -> bool {
    &&& after.len() == before.len()
    &&& forall|j: int| 0 <= j < before.len() && j != i ==> #[trigger] after[j] == before[j]
}

/// Nobody has a word before them, and nobody's word counts as stricken.
pub open spec fn bare(users: Seq<PlayerView>) -> bool {
    forall|i: int|
        0 <= i < users.len() ==> (#[trigger] users[i]).word_guess is None
            && !users[i].word_stricken
}

/// Another player has the word of player `i`, in whatever case.
pub open spec fn repeated(users: Seq<PlayerView>, i: int) -> bool {
    exists|j: int|
        0 <= j < users.len() && j != i && users[i].word_guess is Some && (
        #[trigger] users[j]).word_guess is Some && same_letters(
            users[i].word_guess->0,
            users[j].word_guess->0,
        )
}

/// The same characters, but for the case of letters of ASCII.
pub open spec fn same_letters(a: Seq<char>, b: Seq<char>) -> bool {
    &&& a.len() == b.len()
    &&& forall|i: int| 0 <= i < a.len() ==> same_letter(#[trigger] a[i], b[i])
}

/// The same character, but for the case of a letter of ASCII.
pub open spec fn same_letter(a: char, b: char) -> bool {
    ||| a == b
    ||| 'a' <= a <= 'z' && a as u32 == b as u32 + 32
    ||| 'a' <= b <= 'z' && b as u32 == a as u32 + 32
}

/// The list shows at each place the player's own word with its mark, or that there is none.
pub open spec fn tells_marked_words(
    words: Seq<Option<(Seq<char>, bool)>>,
    users: Seq<PlayerView>,
) -> bool {
    &&& words.len() == users.len()
    &&& forall|i: int|
        0 <= i < users.len() ==> {
            &&& #[trigger] words[i] is Some <==> users[i].word_guess is Some
            &&& words[i] is Some ==> (words[i]->0).0 == users[i].word_guess->0 && (words[i]->0).1
                == users[i].word_stricken
        }
}

/// The list shows at each place the player's own word, unless it is stricken or there is none.
pub open spec fn tells_words_left(
    words: Seq<Option<Seq<char>>>,
    users: Seq<PlayerView>,
) -> bool {
    &&& words.len() == users.len()
    &&& forall|i: int|
        0 <= i < users.len() ==> {
            &&& #[trigger] words[i] is Some <==> users[i].word_guess is Some
                && !users[i].word_stricken
            &&& words[i] is Some ==> words[i]->0 == users[i].word_guess->0
        }
}

/// Two texts count as the same exactly if they differ in nothing but the case of ASCII letters.
pub proof fn law_case_does_not_count(a: Seq<char>, b: Seq<char>)
    ensures
        same_ignoring_case(a, b) <==> same_letters(a, b),
{
    if same_ignoring_case(a, b) {
        assert forall|i: int| 0 <= i < a.len() implies same_letter(#[trigger] a[i], b[i]) by {
            lemma_same_letter(a[i], b[i]);
        }
    }
    if same_letters(a, b) {
        assert forall|i: int| 0 <= i < a.len() implies crate::text::ascii_lower(#[trigger] a[i])
            == crate::text::ascii_lower(b[i]) by {
            lemma_same_letter(a[i], b[i]);
        }
    }
}

proof fn lemma_same_letter(a: char, b: char)
    ensures
        crate::text::ascii_lower(a) == crate::text::ascii_lower(b) <==> same_letter(a, b),
{
}

/// Hints collide exactly if both players have one and they differ at most in case.
pub proof fn law_hints_collide(a: PlayerView, b: PlayerView)
    ensures
        same_hint(a, b) <==> (a.word_guess is Some && b.word_guess is Some && same_letters(
            a.word_guess->0,
            b.word_guess->0,
        )),
{
    if a.word_guess is Some && b.word_guess is Some {
        law_case_does_not_count(a.word_guess->0, b.word_guess->0);
    }
}

/// Clearing the table leaves everyone their name and nothing else.
pub proof fn law_clearing_leaves_names_only(users: Seq<PlayerView>, m: int)
    requires
        0 <= m <= users.len(),
    ensures
        same_seats(users, cleared(users)),
        bare(cleared(users)),
        same_seats(users, cleared_up_to(users, m)),
        bare(cleared_up_to(users, m).take(m)),
        cleared_up_to(users, m).skip(m) == users.skip(m),
{
    assert(cleared_up_to(users, m).skip(m) =~= users.skip(m));
}

/// Putting down a word changes that player's word and nothing else.
pub proof fn law_words_are_put_down_as_they_are(
    users: Seq<PlayerView>,
    i: int,
    word: Option<Seq<char>>,
)
    requires
        0 <= i < users.len(),
    ensures
        with_word(users, i, word)[i].word_guess == word,
        with_word(users, i, word)[i].word_stricken == users[i].word_stricken,
        same_seats(users, with_word(users, i, word)),
        same_others(users, with_word(users, i, word), i),
{
}

/// Everyone has submitted a hint if nobody but the guessing player is without one.
pub proof fn law_everyone_means_everyone(users: Seq<PlayerView>, guess_user: int)
    ensures
        all_submitted(users, guess_user) <==> !exists|i: int|
            0 <= i < users.len() && i != guess_user && (#[trigger] users[i]).word_guess is None,
{
    if !all_submitted(users, guess_user) {
        let i = choose|i: int|
            0 <= i < users.len() && !(i == guess_user || (
            #[trigger] users[i]).word_guess is Some);
        assert(users[i].word_guess is None);
    }
}

/// Every copy of a repeated hint is stricken, no other hint is, and the words stay on the table.
pub proof fn law_all_copies_are_stricken(users: Seq<PlayerView>, i: int)
    requires
        0 <= i < users.len(),
    ensures
        duplicates_stricken(users)[i].word_stricken <==> users[i].word_stricken || repeated(
            users,
            i,
        ),
        same_seats(users, duplicates_stricken(users)),
        same_words(users, duplicates_stricken(users)),
{
    if crate::players::duplicated(users, i) {
        let j = choose|j: int|
            0 <= j < users.len() && j != i && same_hint(users[i], #[trigger] users[j]);
        law_hints_collide(users[i], users[j]);
        assert(repeated(users, i));
    }
    if repeated(users, i) {
        let j = choose|j: int|
            0 <= j < users.len() && j != i && users[i].word_guess is Some && (
            #[trigger] users[j]).word_guess is Some && same_letters(
                users[i].word_guess->0,
                users[j].word_guess->0,
            );
        law_hints_collide(users[i], users[j]);
        assert(crate::players::duplicated(users, i));
    }
}

/// Exactly the hints that are picked are stricken, besides those that were before, and the words
/// stay on the table.
pub proof fn law_picked_hints_are_stricken(users: Seq<PlayerView>, remove: Seq<usize>, i: int)
    requires
        0 <= i < users.len() <= usize::MAX,
    ensures
        stricken(users, remove)[i].word_stricken <==> users[i].word_stricken || exists|k: int|
            0 <= k < remove.len() && #[trigger] remove[k] == i,
        same_seats(users, stricken(users, remove)),
        same_words(users, stricken(users, remove)),
{
    if remove.contains(i as usize) {
        let k = choose|k: int| 0 <= k < remove.len() && remove[k] == i as usize;
        assert(remove[k] == i);
    }
    if exists|k: int| 0 <= k < remove.len() && #[trigger] remove[k] == i {
        let k = choose|k: int| 0 <= k < remove.len() && #[trigger] remove[k] == i;
        assert(remove[k] == i as usize);
    }
}

/// What is shown is what lies on the table.
pub proof fn law_words_are_shown_as_they_are(users: Seq<PlayerView>)
    ensures
        tells_marked_words(shown_words(users), users),
        tells_words_left(filtered_words(users), users),
{
}

/// The players of a terminal are called by their numbers, and have nothing before them.
pub proof fn law_terminal_players_have_numbers(n: nat)
    ensures
        numbered_players(n).len() == n,
        bare(numbered_players(n)),
        forall|i: int|
            0 <= i < n ==> (#[trigger] numbered_players(n)[i]).name == "User"@ + decimal(i as nat),
{
}

/// A newcomer has a name and nothing before them.
pub proof fn law_newcomers_start_bare(name: Seq<char>)
    ensures
        newcomer(name).name == name,
        newcomer(name).word_guess is None,
        !newcomer(name).word_stricken,
{
}

/// The content of a player is all there is to a player.
pub proof fn law_players_are_seen_whole(p: Player)
    ensures
        p@.name == p.name@,
        p@.word_guess is Some <==> p.word_guess is Some,
        p.word_guess is Some ==> p@.word_guess->0 == p.word_guess->0@,
        p@.word_stricken == p.word_stricken,
{
}

/// One message for every player of `n`, in order.
pub open spec fn to_everyone(
    messages: Seq<ServerMessageView>,
    n: nat,
    message: spec_fn(usize) -> ServerMessageView,
) -> bool {
    &&& messages.len() == n
    &&& forall|i: int| 0 <= i < n ==> #[trigger] messages[i] == message(i as usize)
}

/// One message for every player of `n` but `except`, in order.
pub open spec fn to_everyone_but(
    messages: Seq<ServerMessageView>,
    n: nat,
    except: int,
    message: spec_fn(usize) -> ServerMessageView,
) -> bool {
    &&& messages.len() == (if 0 <= except < n {
        n - 1
    } else {
        n as int
    })
    &&& forall|i: int|
        #![trigger messages[i]]
        0 <= i < n && i < except ==> messages[i] == message(i as usize)
    &&& forall|i: int|
        #![trigger messages[i]]
        0 <= i < n - 1 && i >= except ==> messages[i] == message((i + 1) as usize)
}

/// A message is meant for the player in its first field.
pub proof fn law_messages_name_their_player(i: usize, a: usize, b: usize, c: usize, d: usize)
    ensures
        forall|t: Seq<char>| #[trigger] ServerMessageView::UserAdded(i, t).recipient() == i,
        ServerMessageView::RoundStart(i, a, b, c, d).recipient() == i,
        forall|t: Seq<char>| #[trigger]
            ServerMessageView::WordSubmissionRequest(i, t).recipient() == i,
        ServerMessageView::ManualDuplicateEliminationRequest(i).recipient() == i,
        ServerMessageView::WordGuessRequest(i).recipient() == i,
        forall|w: Seq<Option<(Seq<char>, bool)>>| #[trigger]
            ServerMessageView::ShowWords(i, w).recipient() == i,
        forall|w: Seq<Option<Seq<char>>>| #[trigger]
            ServerMessageView::ShowFilteredWords(i, w).recipient() == i,
        forall|t: Seq<char>, w: Seq<Option<(Seq<char>, bool)>>| #[trigger]
            ServerMessageView::ShowRoundOverview(i, t, w).recipient() == i,
        ServerMessageView::AcceptGuessRequest(i).recipient() == i,
        ServerMessageView::Finished(i, a).recipient() == i,
        ServerMessageView::WordSubmitted(i, a).recipient() == i,
{
}

} // verus!
