//! What each step of a game brings about, for the players and for the table.
use vstd::prelude::*;

use crate::hint_laws::bare;
use crate::hint_laws::law_all_copies_are_stricken;
use crate::hint_laws::law_picked_hints_are_stricken;
use crate::hint_laws::repeated;
use crate::hint_laws::same_others;
use crate::hint_laws::same_seats;
use crate::hint_laws::same_words;
use crate::hint_laws::tells_marked_words;
use crate::hint_laws::tells_words_left;
use crate::hint_laws::to_everyone;
use crate::hint_laws::to_everyone_but;
use crate::justone::fresh_game;
use crate::justone::terminal_game;
use crate::justone::Awaiting;
use crate::justone::ClientMessageView;
use crate::justone::EventView;
use crate::justone::GameView;
use crate::justone::OutboxView;
use crate::justone::State;
use crate::laws::accepts_all;
use crate::laws::run;
use crate::laws::Events;
use crate::messages::ServerMessageView;
use crate::players::PlayerView;
use crate::rounds::lemma_player_after;
use crate::text::decimal;

verus! {

/// Nothing is said.
pub open spec fn quiet(out: OutboxView) -> bool {
    out.messages.len() == 0 && out.required
}

/// The round is the same: its roles and its word, and the points, words left and word list.
pub open spec fn same_round(g: GameView, next: GameView) -> bool {
    &&& next.guess_user == g.guess_user
    &&& next.decision_user == g.decision_user
    &&& next.word_to_guess == g.word_to_guess
    &&& next.words == g.words
    &&& next.score == g.score
    &&& next.words_left == g.words_left
}

/// The player to the left of player `i` of `n`.
pub open spec fn neighbour(i: usize, n: nat) -> int {
    if i + 1 < n {
        i + 1
    } else {
        0
    }
}

/// Someone who joins sits down at the end with nothing before them, nobody else is affected, the
/// others hear the name, and the newcomer hears all names in the order of their seats.
pub proof fn law_joining_adds_a_player(g: GameView, name: Seq<char>)
    requires
        g.state == State::WaitingForPlayers,
        g.users.len() < usize::MAX,
    ensures
        ({
            let (next, out) = g.after(
                EventView::Message(ClientMessageView::NewPlayer(name)),
                Seq::empty(),
            );
            let n = g.users.len();
            &&& next.users.len() == n + 1
            &&& next.users.take(n as int) == g.users
            &&& next.users[n as int].name == name
            &&& next.users[n as int].word_guess is None
            &&& !next.users[n as int].word_stricken
            &&& same_round(g, next) && next.state == g.state && next.awaiting == g.awaiting
            &&& out.required
            &&& out.messages.len() == 2 * n + 1
            &&& to_everyone(
                out.messages.take(n as int),
                n,
                |i: usize| ServerMessageView::UserAdded(i, name),
            )
            &&& to_everyone(
                out.messages.skip(n as int),
                n + 1,
                |i: usize| ServerMessageView::UserAdded(n as usize, next.users[i as int].name),
            )
        }),
{
    let next = g.after(
        EventView::Message(ClientMessageView::NewPlayer(name)),
        Seq::empty(),
    ).0;
    assert(next.users.take(g.users.len() as int) =~= g.users);
}

/// Two players or more can start the game: the first round is next, and nothing else changes.
pub proof fn law_starting_leads_to_a_round(g: GameView)
    requires
        g.state == State::WaitingForPlayers,
        g.users.len() >= 2,
    ensures
        ({
            let (next, out) = g.after(
                EventView::Message(ClientMessageView::StartGame),
                Seq::empty(),
            );
            &&& next.state == State::NextRound && next.awaiting == Awaiting::Turn
            &&& same_round(g, next) && next.users == g.users
            &&& quiet(out)
        }),
{
}

/// A round starts with the next player guessing and the one after that deciding, about the word
/// that was drawn, and everyone is told the roles, the points and the words left.
pub proof fn law_a_round_is_announced(g: GameView, word: Seq<char>)
    requires
        g.wf(),
        g.state == State::NextRound,
        g.users.len() > 0,
    ensures
        ({
            let (next, out) = g.after(EventView::Proceed, word);
            let n = g.users.len();
            &&& next.guess_user == neighbour(g.guess_user, n)
            &&& next.decision_user == neighbour(next.guess_user, n)
            &&& next.word_to_guess == word
            &&& next.state == State::WordSubmission && next.awaiting == Awaiting::Turn
            &&& next.users == g.users && next.words == g.words
            &&& next.score == g.score && next.words_left == g.words_left
            &&& out.required
            &&& to_everyone(
                out.messages,
                n,
                |i: usize|
                    ServerMessageView::RoundStart(
                        i,
                        next.guess_user,
                        next.decision_user,
                        g.score,
                        g.words_left,
                    ),
            )
        }),
{
    let n = g.users.len();
    if g.guess_user + 1 <= n {
        lemma_player_after(g.guess_user, n);
        lemma_player_after(crate::rounds::player_after(g.guess_user, n), n);
    }
}

/// A word is drawn exactly when a round starts.
pub proof fn law_words_are_drawn_for_rounds(g: GameView, event: EventView)
    ensures
        g.draws(event) <==> event is Proceed && g.state == State::NextRound,
{
}

/// Before the hints are asked for the table is bare, words and marks alike. Everyone but the
/// guessing player is asked, with the word of the round.
pub proof fn law_hints_are_asked_for_at_a_bare_table(g: GameView, word: Seq<char>)
    requires
        g.state == State::WordSubmission,
    ensures
        ({
            let (next, out) = g.after(EventView::Proceed, word);
            &&& bare(next.users) && same_seats(g.users, next.users)
            &&& same_round(g, next)
            &&& next.state == g.state && next.awaiting == Awaiting::Message
            &&& out.required
            &&& to_everyone_but(
                out.messages,
                g.users.len(),
                g.guess_user as int,
                |i: usize| ServerMessageView::WordSubmissionRequest(i, g.word_to_guess),
            )
        }),
{
}

/// A hint lies before its player as it was sent, and nothing else on the table changes. The others
/// hear that it is in, unless it was the last: then the hints are compared next.
pub proof fn law_hints_lie_where_they_were_sent_from(g: GameView, i: usize, hint: Seq<char>)
    requires
        g.state == State::WordSubmission,
        i != g.guess_user,
        i < g.users.len(),
    ensures
        ({
            let (next, out) = g.after(
                EventView::Message(ClientMessageView::WordSubmissionResponse(i, hint)),
                Seq::empty(),
            );
            let missing = exists|j: int|
                0 <= j < g.users.len() && j != i && j != g.guess_user && (
                #[trigger] g.users[j]).word_guess is None;
            &&& next.users[i as int].word_guess == Some(hint)
            &&& next.users[i as int].word_stricken == g.users[i as int].word_stricken
            &&& same_seats(g.users, next.users) && same_others(g.users, next.users, i as int)
            &&& same_round(g, next)
            &&& out.required
            &&& if missing {
                &&& next.state == g.state && next.awaiting == g.awaiting
                &&& to_everyone_but(
                    out.messages,
                    g.users.len(),
                    i as int,
                    |j: usize| ServerMessageView::WordSubmitted(j, i),
                )
            } else {
                &&& next.state == State::ManualDuplicateElimination
                &&& next.awaiting == Awaiting::Turn
                &&& quiet(out)
            }
        }),
{
    let next = g.after(
        EventView::Message(ClientMessageView::WordSubmissionResponse(i, hint)),
        Seq::empty(),
    ).0;
    if exists|j: int|
        0 <= j < g.users.len() && j != i && j != g.guess_user && (
        #[trigger] g.users[j]).word_guess is None {
        let j = choose|j: int|
            0 <= j < g.users.len() && j != i && j != g.guess_user && (
            #[trigger] g.users[j]).word_guess is None;
        assert(next.users[j].word_guess is None);
    } else {
        assert forall|j: int| 0 <= j < next.users.len() implies j == g.guess_user || (
        #[trigger] next.users[j]).word_guess is Some by {
            assert(j != i ==> next.users[j] == g.users[j]);
        }
    }
}

/// All copies of a repeated hint are stricken and no other hint is; then everyone but the guessing
/// player sees every word with its mark, and the deciding player is asked.
pub proof fn law_copies_are_stricken_and_shown(g: GameView, word: Seq<char>)
    requires
        g.state == State::ManualDuplicateElimination,
        g.users.len() <= usize::MAX,
    ensures
        ({
            let (next, out) = g.after(EventView::Proceed, word);
            let n = g.users.len();
            let told = if g.guess_user < n {
                n - 1
            } else {
                n as int
            };
            &&& forall|i: int|
                0 <= i < n ==> ((#[trigger] next.users[i]).word_stricken <==> (
                g.users[i].word_stricken || repeated(g.users, i)))
            &&& same_seats(g.users, next.users) && same_words(g.users, next.users)
            &&& same_round(g, next)
            &&& next.state == g.state && next.awaiting == Awaiting::Message
            &&& out.required
            &&& out.messages.len() == told + 1
            &&& out.messages[told] == ServerMessageView::ManualDuplicateEliminationRequest(
                g.decision_user,
            )
            &&& forall|k: int|
                0 <= k < told ==> {
                    &&& #[trigger] out.messages[k] matches ServerMessageView::ShowWords(to, words)
                    &&& to == (if k < g.guess_user {
                        k
                    } else {
                        k + 1
                    })
                    &&& tells_marked_words(words, next.users)
                }
        }),
{
    let next = g.after(EventView::Proceed, word).0;
    assert forall|i: int| 0 <= i < g.users.len() implies ((
    #[trigger] next.users[i]).word_stricken <==> (g.users[i].word_stricken || repeated(
        g.users,
        i,
    ))) by {
        law_all_copies_are_stricken(g.users, i);
    }
}

/// The deciding player strikes exactly the hints that are picked, all of them, and the words stay
/// on the table; the guess is next.
pub proof fn law_every_picked_hint_is_stricken(g: GameView, remove: Seq<usize>)
    requires
        g.state == State::ManualDuplicateElimination,
        g.users.len() <= usize::MAX,
    ensures
        ({
            let (next, out) = g.after(
                EventView::Message(
                    ClientMessageView::ManualDuplicateEliminationResponse(g.decision_user, remove),
                ),
                Seq::empty(),
            );
            &&& forall|k: int|
                0 <= k < remove.len() && remove[k] < g.users.len()
                    ==> next.users[#[trigger] remove[k] as int].word_stricken
            &&& forall|i: int|
                0 <= i < g.users.len() && !remove.contains(i as usize) ==> #[trigger] next.users[i]
                    == g.users[i]
            &&& same_seats(g.users, next.users) && same_words(g.users, next.users)
            &&& same_round(g, next)
            &&& next.state == State::WordGuess && next.awaiting == Awaiting::Turn
            &&& quiet(out)
        }),
{
    let next = g.after(
        EventView::Message(
            ClientMessageView::ManualDuplicateEliminationResponse(g.decision_user, remove),
        ),
        Seq::empty(),
    ).0;
    assert forall|k: int|
        0 <= k < remove.len() && remove[k] < g.users.len() implies next.users[
    #[trigger] remove[k] as int].word_stricken by {
        law_picked_hints_are_stricken(g.users, remove, remove[k] as int);
    }
    assert forall|i: int|
        0 <= i < g.users.len() && !remove.contains(i as usize) implies #[trigger] next.users[i]
        == g.users[i] by {
        law_picked_hints_are_stricken(g.users, remove, i);
    }
}

/// Everyone sees the words that are not stricken, each at its player's place, and the guessing
/// player is asked for the guess. Nothing on the table changes.
pub proof fn law_words_left_are_shown(g: GameView, word: Seq<char>)
    requires
        g.state == State::WordGuess,
        g.users.len() <= usize::MAX,
    ensures
        ({
            let (next, out) = g.after(EventView::Proceed, word);
            let n = g.users.len();
            &&& next.users == g.users && same_round(g, next)
            &&& next.state == g.state && next.awaiting == Awaiting::Message
            &&& out.required
            &&& out.messages.len() == n + 1
            &&& out.messages[n as int] == ServerMessageView::WordGuessRequest(g.guess_user)
            &&& forall|k: int|
                0 <= k < n ==> {
                    &&& #[trigger] out.messages[k] matches ServerMessageView::ShowFilteredWords(
                        to,
                        words,
                    )
                    &&& to == k
                    &&& tells_words_left(words, g.users)
                }
        }),
{
}

/// The list shows at each place the player's own word, unless it was picked or stricken before.
pub open spec fn tells_unpicked_words(
    words: Seq<Option<Seq<char>>>,
    users: Seq<PlayerView>,
    remove: Seq<usize>,
) -> bool {
    &&& words.len() == users.len()
    &&& forall|i: int|
        0 <= i < users.len() ==> #[trigger] words[i] == (if remove.contains(i as usize)
            || users[i].word_stricken {
            None
        } else {
            users[i].word_guess
        })
}

/// A hint that is picked is never shown to the guessing player: what everyone sees after the
/// deciding player's answer are the words of those who were neither picked nor stricken before.
pub proof fn law_picked_hints_are_not_shown(g: GameView, remove: Seq<usize>, word: Seq<char>)
    requires
        g.state == State::ManualDuplicateElimination,
        g.users.len() <= usize::MAX,
    ensures
        ({
            let next = g.after(
                EventView::Message(
                    ClientMessageView::ManualDuplicateEliminationResponse(g.decision_user, remove),
                ),
                Seq::empty(),
            ).0;
            let out = next.after(EventView::Proceed, word).1;
            forall|k: int|
                0 <= k < g.users.len() ==> {
                    &&& #[trigger] out.messages[k] matches ServerMessageView::ShowFilteredWords(
                        _,
                        words,
                    )
                    &&& tells_unpicked_words(words, g.users, remove)
                }
        }),
{
    law_every_picked_hint_is_stricken(g, remove);
    let next = g.after(
        EventView::Message(
            ClientMessageView::ManualDuplicateEliminationResponse(g.decision_user, remove),
        ),
        Seq::empty(),
    ).0;
    law_words_left_are_shown(next, word);
    let out = next.after(EventView::Proceed, word).1;
    assert forall|i: int| 0 <= i < g.users.len() implies ((
    #[trigger] next.users[i]).word_stricken <==> (g.users[i].word_stricken || remove.contains(
        i as usize,
    ))) by {
        if remove.contains(i as usize) {
            let k = choose|k: int| 0 <= k < remove.len() && remove[k] == i as usize;
            assert(next.users[remove[k] as int].word_stricken);
        }
    }
}

/// The guess lies before the guessing player as it was sent, an empty one as none, and nothing else
/// on the table changes.
pub proof fn law_the_guess_is_taken_as_it_is(g: GameView, guess: Seq<char>)
    requires
        g.state == State::WordGuess,
        g.guess_user < g.users.len(),
    ensures
        ({
            let (next, out) = g.after(
                EventView::Message(ClientMessageView::WordGuessResponse(g.guess_user, guess)),
                Seq::empty(),
            );
            let seat = g.guess_user as int;
            &&& guess.len() > 0 ==> next.users[seat].word_guess == Some(guess)
            &&& guess.len() == 0 ==> next.users[seat].word_guess is None
            &&& next.users[seat].word_stricken == g.users[seat].word_stricken
            &&& same_seats(g.users, next.users) && same_others(g.users, next.users, seat)
            &&& same_round(g, next)
            &&& next.state == State::AcceptGuess && next.awaiting == Awaiting::Turn
            &&& quiet(out)
        }),
{
}

/// Everyone sees the word of the round and every word on the table with its mark. Then the game
/// pauses: two seconds if there is a guess, ten if there is none.
pub proof fn law_the_overview_shows_the_table(g: GameView, word: Seq<char>)
    requires
        g.state == State::AcceptGuess,
        g.awaiting == Awaiting::Turn,
        g.guess_user < g.users.len() <= usize::MAX,
    ensures
        ({
            let (next, out) = g.after(EventView::Proceed, word);
            let n = g.users.len();
            &&& next.users == g.users && same_round(g, next) && next.state == g.state
            &&& next.awaiting == (if g.users[g.guess_user as int].word_guess is Some {
                Awaiting::Pause(2)
            } else {
                Awaiting::Pause(10)
            })
            &&& out.required
            &&& out.messages.len() == n
            &&& forall|k: int|
                0 <= k < n ==> {
                    &&& #[trigger] out.messages[k] matches ServerMessageView::ShowRoundOverview(
                        to,
                        shown,
                        words,
                    )
                    &&& to == k
                    &&& shown == g.word_to_guess
                    &&& tells_marked_words(words, g.users)
                }
        }),
{
}

/// Everyone sees the guess as it was sent, at the place of the guessing player.
pub proof fn law_everyone_sees_the_guess(g: GameView, guess: Seq<char>, word: Seq<char>)
    requires
        g.state == State::WordGuess,
        g.guess_user < g.users.len() <= usize::MAX,
        guess.len() > 0,
    ensures
        ({
            let next = g.after(
                EventView::Message(ClientMessageView::WordGuessResponse(g.guess_user, guess)),
                Seq::empty(),
            ).0;
            let out = next.after(EventView::Proceed, word).1;
            forall|k: int|
                0 <= k < g.users.len() ==> {
                    &&& #[trigger] out.messages[k] matches ServerMessageView::ShowRoundOverview(
                        _,
                        shown,
                        words,
                    )
                    &&& shown == g.word_to_guess
                    &&& words[g.guess_user as int] matches Some((seen, _)) && seen == guess
                }
        }),
{
    let next = g.after(
        EventView::Message(ClientMessageView::WordGuessResponse(g.guess_user, guess)),
        Seq::empty(),
    ).0;
    law_the_guess_is_taken_as_it_is(g, guess);
    law_the_overview_shows_the_table(next, word);
}

/// After the pause the deciding player, and nobody else, is asked about the guess.
pub proof fn law_the_deciding_player_is_asked(g: GameView, word: Seq<char>)
    requires
        g.state == State::AcceptGuess,
        g.awaiting is Pause,
        g.guess_user < g.users.len(),
        g.users[g.guess_user as int].word_guess is Some,
    ensures
        ({
            let (next, out) = g.after(EventView::Proceed, word);
            &&& next.users == g.users && same_round(g, next)
            &&& next.state == g.state && next.awaiting == Awaiting::Message
            &&& out.required && out.messages.len() == 1
            &&& out.messages[0] == ServerMessageView::AcceptGuessRequest(g.decision_user)
        }),
{
}

/// The end of a round leaves the table, the roles and the word alone, says nothing, and leads to
/// the end of the game if no words are left and to another round otherwise.
pub open spec fn round_is_over(g: GameView, next: GameView, out: OutboxView) -> bool {
    &&& next.users == g.users
    &&& next.guess_user == g.guess_user && next.decision_user == g.decision_user
    &&& next.word_to_guess == g.word_to_guess && next.words == g.words
    &&& next.awaiting == Awaiting::Turn
    &&& next.state == State::Finished <==> next.words_left == 0
    &&& next.state == State::NextRound <==> next.words_left > 0
    &&& quiet(out)
}

/// An accepted guess brings a point and costs a word; a rejected one costs two words, or the last.
pub proof fn law_verdicts_count(g: GameView, accept: bool)
    requires
        g.wf(),
        g.state == State::AcceptGuess,
        g.words_left >= 1,
    ensures
        ({
            let (next, out) = g.after(
                EventView::Message(ClientMessageView::AcceptGuessResponse(g.decision_user, accept)),
                Seq::empty(),
            );
            &&& round_is_over(g, next, out)
            &&& accept ==> next.score == g.score + 1 && next.words_left == g.words_left - 1
            &&& !accept ==> next.score == g.score
            &&& !accept && g.words_left >= 2 ==> next.words_left == g.words_left - 2
            &&& !accept && g.words_left == 1 ==> next.words_left == 0
        }),
{
}

/// A round in which nothing was guessed costs a word once the pause is over.
pub proof fn law_passing_costs_a_word(g: GameView, word: Seq<char>)
    requires
        g.state == State::AcceptGuess,
        g.awaiting is Pause,
        g.guess_user < g.users.len(),
        g.users[g.guess_user as int].word_guess is None,
        g.words_left >= 1,
    ensures
        ({
            let (next, out) = g.after(EventView::Proceed, word);
            &&& round_is_over(g, next, out)
            &&& next.score == g.score
            &&& next.words_left == g.words_left - 1
        }),
{
}

/// At the end everyone is told the score, once, and the game is over.
pub proof fn law_everyone_is_told_the_score(g: GameView, word: Seq<char>)
    requires
        g.state == State::Finished,
    ensures
        ({
            let (next, out) = g.after(EventView::Proceed, word);
            &&& next.users == g.users && same_round(g, next)
            &&& next.state == g.state && next.awaiting == Awaiting::Nothing
            &&& out.required
            &&& to_everyone(
                out.messages,
                g.users.len(),
                |i: usize| ServerMessageView::Finished(i, g.score),
            )
        }),
{
}

/// How many guesses the deciding player accepts in the course of the events.
pub open spec fn guesses_accepted(g: GameView, events: Events) -> nat
    decreases events.len(),
{
    if events.len() == 0 {
        0
    } else {
        let before = run(g, events.drop_last());
        guesses_accepted(g, events.drop_last()) + (if before.state == State::AcceptGuess
            && events.last().0 == EventView::Message(
            ClientMessageView::AcceptGuessResponse(before.decision_user, true),
        ) {
            1nat
        } else {
            0
        })
    }
}

/// The score is the number of guesses that were accepted.
pub proof fn law_the_score_counts_accepted_guesses(g: GameView, events: Events)
    requires
        g.wf(),
        accepts_all(g, events),
    ensures
        run(g, events).score == g.score + guesses_accepted(g, events),
    decreases events.len(),
{
    crate::laws::law_words_bound_score_and_rounds(g, events);
    if events.len() > 0 {
        law_the_score_counts_accepted_guesses(g, events.drop_last());
        crate::laws::law_words_bound_score_and_rounds(g, events.drop_last());
    }
}

/// A game that waits for players goes on waiting.
pub proof fn law_waiting_goes_on(g: GameView, word: Seq<char>)
    requires
        g.state == State::WaitingForPlayers,
    ensures
        ({
            let (next, out) = g.after(EventView::Proceed, word);
            &&& next.users == g.users && same_round(g, next)
            &&& next.state == g.state && next.awaiting == Awaiting::Message
            &&& quiet(out)
        }),
{
}

/// Stopping changes nothing but that the game has ended.
pub proof fn law_stopping_changes_nothing_else(g: GameView)
    ensures
        ({
            let (next, out) = g.after(
                EventView::Message(ClientMessageView::StopGame),
                Seq::empty(),
            );
            &&& next.users == g.users && same_round(g, next)
            &&& next.state == g.state && next.awaiting == Awaiting::Nothing
            &&& quiet(out)
        }),
{
}

/// Without players the game goes on as if what it waits for had come to an end: the round starts,
/// the hints are compared, nothing is picked, nothing is guessed, or the guess is rejected.
pub proof fn law_lost_players_are_not_waited_for(g: GameView, word: Seq<char>)
    requires
        g.wf(),
        g.state != State::NextRound,
        g.state != State::Finished,
        g.state == State::AcceptGuess ==> g.words_left >= 1,
    ensures
        ({
            let (next, out) = g.after(EventView::Disconnected, word);
            &&& next.users == g.users && next.awaiting == Awaiting::Turn && quiet(out)
            &&& g.state != State::AcceptGuess ==> same_round(g, next)
            &&& g.state == State::WaitingForPlayers ==> next.state == State::NextRound
            &&& g.state == State::WordSubmission ==> next.state
                == State::ManualDuplicateElimination
            &&& g.state == State::ManualDuplicateElimination ==> next.state == State::WordGuess
            &&& g.state == State::WordGuess ==> next.state == State::AcceptGuess
            &&& g.state == State::AcceptGuess ==> round_is_over(g, next, out) && next.score
                == g.score && next.words_left == (if g.words_left >= 2 {
                g.words_left - 2
            } else {
                0
            })
        }),
{
}

/// What a player is told on asking for the state of the game: all names in the order of the seats,
/// the round if there is one, and what that player has been told or asked in its present stage.
pub proof fn law_asking_tells_everything(g: GameView, user: usize)
    requires
        g.users.len() <= usize::MAX,
        g.state == State::AcceptGuess ==> g.guess_user < g.users.len(),
    ensures
        ({
            let (next, out) = g.after(
                EventView::Message(ClientMessageView::ResendGameState(user)),
                Seq::empty(),
            );
            let n = g.users.len() as int;
            let told = out.messages;
            let playing = g.state != State::WaitingForPlayers && g.state != State::Finished;
            let stage = told.skip(n + 1);
            &&& next == g
            &&& !out.required
            &&& to_everyone(
                told.take(n),
                n as nat,
                |i: usize| ServerMessageView::UserAdded(user, g.users[i as int].name),
            )
            &&& told.len() > n <==> playing
            &&& playing ==> told[n] == ServerMessageView::RoundStart(
                user,
                g.guess_user,
                g.decision_user,
                g.score,
                g.words_left,
            )
            &&& g.state == State::NextRound ==> stage.len() == 0
            &&& g.state == State::WordSubmission ==> stage == (if user == g.guess_user {
                Seq::empty()
            } else {
                seq![ServerMessageView::WordSubmissionRequest(user, g.word_to_guess)]
            }) + heard_submissions(user, g.users, g.users.len())
            &&& g.state == State::ManualDuplicateElimination ==> {
                &&& stage.len() == (if user == g.guess_user {
                    0int
                } else {
                    1
                }) + (if user == g.decision_user {
                    1int
                } else {
                    0
                })
                &&& user != g.guess_user ==> (stage[0] matches ServerMessageView::ShowWords(
                    to,
                    words,
                ) && to == user && tells_marked_words(words, g.users))
                &&& user == g.decision_user ==> stage.last()
                    == ServerMessageView::ManualDuplicateEliminationRequest(user)
            }
            &&& g.state == State::WordGuess ==> {
                &&& stage.len() == (if user == g.guess_user {
                    2int
                } else {
                    1
                })
                &&& stage[0] matches ServerMessageView::ShowFilteredWords(to, words) && to == user
                    && tells_words_left(words, g.users)
                &&& user == g.guess_user ==> stage[1] == ServerMessageView::WordGuessRequest(user)
            }
            &&& g.state == State::AcceptGuess ==> {
                let asked = user == g.decision_user
                    && g.users[g.guess_user as int].word_guess is Some;
                &&& stage.len() == (if asked {
                    2int
                } else {
                    1
                })
                &&& stage[0] matches ServerMessageView::ShowRoundOverview(to, shown, words) && to
                    == user && shown == g.word_to_guess && tells_marked_words(words, g.users)
                &&& asked ==> stage[1] == ServerMessageView::AcceptGuessRequest(user)
            }
        }),
{
    let out = g.after(
        EventView::Message(ClientMessageView::ResendGameState(user)),
        Seq::empty(),
    ).1;
    let n = g.users.len() as int;
    let told = out.messages;
    assert(told.take(n) =~= crate::announce::roster(user, g.users));
    if g.state != State::WaitingForPlayers && g.state != State::Finished {
        assert(told.skip(n + 1) =~= g.stage_shown(user));
    } else {
        assert(told.len() == n);
    }
    if g.state == State::WordSubmission {
        lemma_heard_submissions(user, g.users, g.users.len());
        assert(g.users.take(n) =~= g.users);
    }
}

/// The messages that tell `user` which of the first `m` players have put down a hint.
pub open spec fn heard_submissions(user: usize, users: Seq<PlayerView>, m: nat) -> Seq<
    ServerMessageView,
>
    decreases m,
{
    if m == 0 {
        Seq::empty()
    } else {
        heard_submissions(user, users, (m - 1) as nat) + (if users[m - 1].word_guess is Some {
            seq![ServerMessageView::WordSubmitted(user, (m - 1) as usize)]
        } else {
            Seq::empty()
        })
    }
}

proof fn lemma_heard_submissions(user: usize, users: Seq<PlayerView>, m: nat)
    requires
        m <= users.len(),
    ensures
        crate::announce::submissions_so_far(user, users.take(m as int)) == heard_submissions(
            user,
            users,
            m,
        ),
    decreases m,
{
    if m > 0 {
        lemma_heard_submissions(user, users, (m - 1) as nat);
        assert(users.take(m as int).drop_last() =~= users.take(m - 1));
    }
    assert(crate::announce::submissions_so_far(user, users.take(m as int)) =~= heard_submissions(
        user,
        users,
        m,
    ));
}

/// A game is ready for what it awaits, and for nothing else. It must also find what the event calls
/// for: a word and a player for a round, the guessing player for the overview, a word for a round
/// to end with, and the players that a message names.
pub proof fn law_games_are_ready_for_what_they_await(g: GameView)
    ensures
        g.accepts(EventView::Proceed) <==> {
            ||| g.awaiting is Turn && (g.state == State::NextRound ==> g.users.len() > 0
                && g.words.len() > 0) && (g.state == State::AcceptGuess ==> g.guess_user
                < g.users.len())
            ||| g.awaiting is Pause && g.state == State::AcceptGuess && g.guess_user
                < g.users.len() && (g.users[g.guess_user as int].word_guess is Some || g.words_left
                > 0)
        },
        g.accepts(EventView::Disconnected) <==> g.awaiting is Message && (g.state
            == State::AcceptGuess ==> g.words_left > 0),
        g.accepts(EventView::Message(ClientMessageView::StartGame)) <==> g.awaiting is Message,
        g.accepts(EventView::Message(ClientMessageView::StopGame)) <==> g.awaiting is Message,
        forall|name: Seq<char>| #[trigger]
            g.accepts(EventView::Message(ClientMessageView::NewPlayer(name)))
                <==> g.awaiting is Message,
        forall|i: usize| #[trigger]
            g.accepts(EventView::Message(ClientMessageView::ResendGameState(i)))
                <==> g.awaiting is Message && (g.state == State::AcceptGuess ==> g.guess_user
                < g.users.len()),
        forall|i: usize, w: Seq<char>| #[trigger]
            g.accepts(EventView::Message(ClientMessageView::WordSubmissionResponse(i, w)))
                <==> g.awaiting is Message && (g.state == State::WordSubmission && i
                != g.guess_user ==> i < g.users.len()),
        forall|i: usize, w: Seq<char>| #[trigger]
            g.accepts(EventView::Message(ClientMessageView::WordGuessResponse(i, w)))
                <==> g.awaiting is Message && (g.state == State::WordGuess && i == g.guess_user
                ==> i < g.users.len()),
        forall|i: usize, accept: bool| #[trigger]
            g.accepts(EventView::Message(ClientMessageView::AcceptGuessResponse(i, accept)))
                <==> g.awaiting is Message && (g.state == State::AcceptGuess && i
                == g.decision_user ==> g.words_left > 0),
{
}

/// A game is ready to have hints stricken by hand if it awaits a message and, where the hints are
/// really to be stricken, all of them are hints of players at the table.
pub proof fn law_only_hints_at_the_table_are_picked(g: GameView, i: usize, remove: Seq<usize>)
    ensures
        g.accepts(
            EventView::Message(ClientMessageView::ManualDuplicateEliminationResponse(i, remove)),
        ) <==> {
            &&& g.awaiting is Message
            &&& {
                ||| g.state != State::ManualDuplicateElimination
                ||| i != g.decision_user
                ||| forall|k: int| 0 <= k < remove.len() ==> (#[trigger] remove[k]) < g.users.len()
            }
        },
{
    let event = EventView::Message(
        ClientMessageView::ManualDuplicateEliminationResponse(i, remove),
    );
    if g.state == State::ManualDuplicateElimination && i == g.decision_user && g.accepts(event) {
        lemma_picks_within(g, remove);
    }
}

proof fn lemma_picks_within(g: GameView, remove: Seq<usize>)
    requires
        g.state == State::ManualDuplicateElimination,
        g.accepts(
            EventView::Message(
                ClientMessageView::ManualDuplicateEliminationResponse(g.decision_user, remove),
            ),
        ),
    ensures
        forall|k: int| 0 <= k < remove.len() ==> (#[trigger] remove[k]) < g.users.len(),
{
    let m = ClientMessageView::ManualDuplicateEliminationResponse(g.decision_user, remove);
    match (m, g.state) {
        (
            ClientMessageView::ManualDuplicateEliminationResponse(i, r),
            State::ManualDuplicateElimination,
        ) => {
            assert(r == remove);
            assert(forall|k: int| 0 <= k < r.len() ==> (#[trigger] r[k]) < g.users.len());
        },
        _ => {},
    }
}

/// A new game has nobody in it, no points and all its words; one on a terminal has thirteen words,
/// the players of its numbers, and is in its first round.
pub proof fn law_new_games_start_from_nothing(
    words: Seq<Seq<char>>,
    word_count: usize,
    num_users: nat,
    word: Seq<char>,
)
    ensures
        ({
            let g = fresh_game(words, word_count);
            &&& g.state == State::WaitingForPlayers && g.awaiting == Awaiting::Message
            &&& g.users.len() == 0 && g.words == words && g.word_to_guess.len() == 0
            &&& g.guess_user == 0 && g.decision_user == 1
            &&& g.score == 0 && g.words_left == word_count
        }),
        ({
            let g = terminal_game(num_users, words, word);
            &&& g.state == State::WordSubmission && g.awaiting == Awaiting::Turn
            &&& g.users.len() == num_users && bare(g.users)
            &&& forall|i: int|
                0 <= i < num_users ==> (#[trigger] g.users[i]).name == "User"@ + decimal(i as nat)
            &&& g.words == words && g.word_to_guess == word
            &&& g.guess_user == 0 && g.decision_user == 1
            &&& g.score == 0 && g.words_left == 13
        }),
{
}

/// A game that cannot announce a newcomer to those at the table has not seated the newcomer; one
/// that cannot tell the newcomer the names has.
pub proof fn law_interrupted_joining(g: GameView, name: Seq<char>, k: int)
    requires
        g.state == State::WaitingForPlayers,
        g.users.len() < usize::MAX,
        0 <= k <= 2 * g.users.len(),
    ensures
        ({
            let ended = g.interrupted(EventView::Message(ClientMessageView::NewPlayer(name)), k);
            let n = g.users.len();
            &&& same_round(g, ended) && ended.state == g.state
            &&& ended.awaiting == Awaiting::Nothing
            &&& k < n ==> ended.users == g.users
            &&& k >= n ==> ended.users.len() == n + 1 && ended.users.last().name == name
                && ended.users.take(n as int) == g.users && ended.users.last().word_guess is None
                && !ended.users.last().word_stricken
        }),
{
    let ended = g.interrupted(EventView::Message(ClientMessageView::NewPlayer(name)), k);
    if k >= g.users.len() {
        assert(ended.users.take(g.users.len() as int) =~= g.users);
    }
}

/// A round that cannot be announced has its players but not its word, and has not begun.
pub proof fn law_interrupted_round_start(g: GameView, k: int)
    requires
        g.wf(),
        g.state == State::NextRound,
        g.users.len() > 0,
    ensures
        ({
            let ended = g.interrupted(EventView::Proceed, k);
            let n = g.users.len();
            &&& ended.guess_user == neighbour(g.guess_user, n)
            &&& ended.decision_user == neighbour(ended.guess_user, n)
            &&& ended.word_to_guess == g.word_to_guess && ended.words == g.words
            &&& ended.users == g.users
            &&& ended.score == g.score && ended.words_left == g.words_left
            &&& ended.state == g.state && ended.awaiting == Awaiting::Nothing
        }),
{
    law_a_round_is_announced(g, Seq::empty());
}

/// Where a player cannot be asked for a hint, the table is bare up to that player and untouched
/// behind.
pub proof fn law_interrupted_question(g: GameView, k: int, asked: usize)
    requires
        g.state == State::WordSubmission,
        0 <= k,
        asked == (if k < g.guess_user {
            k
        } else {
            k + 1
        }),
        asked < g.users.len(),
    ensures
        ({
            let ended = g.interrupted(EventView::Proceed, k);
            &&& same_seats(g.users, ended.users)
            &&& bare(ended.users.take(asked + 1))
            &&& ended.users.skip(asked + 1) == g.users.skip(asked + 1)
            &&& same_round(g, ended) && ended.state == g.state
            &&& ended.awaiting == Awaiting::Nothing
        }),
{
    let ended = g.interrupted(EventView::Proceed, k);
    assert(ended.users.skip(asked + 1) =~= g.users.skip(asked + 1));
}

/// In every other step the messages come last: all of it is done, only that the game has ended.
pub proof fn law_interrupted_elsewhere(g: GameView, event: EventView, k: int)
    requires
        event is Proceed ==> g.state != State::NextRound && g.state != State::WordSubmission,
        g.state == State::WaitingForPlayers ==> !(event matches EventView::Message(
            ClientMessageView::NewPlayer(_),
        )),
    ensures
        ({
            let ended = g.interrupted(event, k);
            let next = g.after(event, Seq::empty()).0;
            &&& ended.users == next.users && same_round(next, ended) && ended.state == next.state
            &&& ended.awaiting == Awaiting::Nothing
        }),
{
}

} // verus!
