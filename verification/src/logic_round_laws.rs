//! What each step of a game with channels brings about, for the players and for the table.
use vstd::prelude::*;

use crate::hint_laws::bare;
use crate::hint_laws::law_all_copies_are_stricken;
use crate::hint_laws::law_picked_hints_are_stricken;
use crate::hint_laws::repeated;
use crate::hint_laws::same_others;
use crate::hint_laws::same_seats;
use crate::hint_laws::same_words;
use crate::hint_laws::tells_marked_words;
use crate::hint_laws::tells_words_left;
use crate::hint_laws::to_everyone;
use crate::hint_laws::to_everyone_but;
use crate::justone::Awaiting;
use crate::logic::delivered;
use crate::logic::fresh_logic;
use crate::logic::terminal_logic;
use crate::logic::ClientMessageView;
use crate::logic::EventView;
use crate::logic::LogicView;
use crate::logic::State;
use crate::logic::UserView;
use crate::logic_laws::law_logic_words_bound_score_and_rounds;
use crate::logic_laws::logic_accepts_all;
use crate::logic_laws::logic_run;
use crate::logic_laws::LogicEvents;
use crate::messages::ServerMessageView;
use crate::round_laws::neighbour;
use crate::round_laws::tells_unpicked_words;
use crate::rounds::lemma_player_after;
use crate::rounds::player_after;
use crate::text::decimal;

verus! {

/// The round is the same: its roles and its word, and the points, words left, word list and
/// channels.
pub open spec fn logic_same_round(g: LogicView, next: LogicView) -> bool {
    &&& next.current_user == g.current_user
    &&& next.decision_user == g.decision_user
    &&& next.word_to_guess == g.word_to_guess
    &&& next.words == g.words
    &&& next.channels == g.channels
    &&& next.score == g.score
    &&& next.words_left == g.words_left
}

/// Everyone is told of the round that `next` is in.
pub open spec fn tells_the_round(messages: Seq<ServerMessageView>, next: LogicView) -> bool {
    to_everyone(
        messages,
        next.users.len(),
        |i: usize|
            ServerMessageView::RoundStart(
                i,
                next.current_user,
                next.decision_user,
                next.score,
                next.words_left,
            ),
    )
}

/// Every message goes out in its turn, unchanged, on the channel of the player it is meant for.
pub proof fn law_messages_are_delivered_unchanged(
    channels: Seq<u64>,
    messages: Seq<ServerMessageView>,
)
    ensures
        delivered(channels, messages).len() == messages.len(),
        forall|k: int|
            0 <= k < messages.len() ==> {
                &&& (#[trigger] delivered(channels, messages)[k]).message == messages[k]
                &&& delivered(channels, messages)[k].channel
                    == channels[messages[k].recipient() as int]
            },
{
}

/// Someone who joins sits down at the end as they are, with their channel, nobody else is affected,
/// the others hear the name, and the newcomer hears all names in the order of their seats.
pub proof fn law_logic_joining_adds_a_player(g: LogicView, user: UserView, word: Seq<char>)
    requires
        g.state == State::WaitingForPlayers,
        g.users.len() == g.channels.len(),
        g.users.len() < usize::MAX,
    ensures
        ({
            let (next, messages) = g.after(
                EventView::Message(ClientMessageView::NewPlayer(user)),
                word,
            );
            let n = g.users.len();
            &&& next.users.len() == n + 1 && next.channels.len() == n + 1
            &&& next.users.take(n as int) == g.users
            &&& next.channels.take(n as int) == g.channels
            &&& next.users[n as int] == user.player
            &&& next.channels[n as int] == user.channel_out
            &&& next.current_user == g.current_user && next.decision_user == g.decision_user
            &&& next.word_to_guess == g.word_to_guess && next.words == g.words
            &&& next.score == g.score && next.words_left == g.words_left
            &&& next.state == g.state && next.awaiting == g.awaiting
            &&& messages.len() == 2 * n + 1
            &&& to_everyone(
                messages.take(n as int),
                n,
                |i: usize| ServerMessageView::UserAdded(i, user.player.name),
            )
            &&& to_everyone(
                messages.skip(n as int),
                n + 1,
                |i: usize| ServerMessageView::UserAdded(n as usize, next.users[i as int].name),
            )
        }),
{
    let next = g.after(EventView::Message(ClientMessageView::NewPlayer(user)), word).0;
    assert(next.users.take(g.users.len() as int) =~= g.users);
    assert(next.channels.take(g.users.len() as int) =~= g.channels);
}

/// Two players or more can start the game, and losing the connection starts it with any number: the
/// first round is about the word that was drawn, with the roles as they are, and everyone is told.
pub proof fn law_logic_starting_announces_a_round(g: LogicView, word: Seq<char>, lost: bool)
    requires
        g.state == State::WaitingForPlayers,
        !lost ==> g.users.len() >= 2,
    ensures
        ({
            let event = if lost {
                EventView::Disconnected
            } else {
                EventView::Message(ClientMessageView::StartGame)
            };
            let (next, messages) = g.after(event, word);
            &&& next.state == State::WordSubmission && next.awaiting == Awaiting::Turn
            &&& next.word_to_guess == word
            &&& logic_same_round(LogicView { word_to_guess: word, ..g }, next)
            &&& next.users == g.users
            &&& tells_the_round(messages, next)
        }),
{
}

/// Before the hints are asked for the table is bare, words and marks alike. Everyone but the
/// current player is asked, with the word of the round.
pub proof fn law_logic_hints_are_asked_for_at_a_bare_table(g: LogicView, word: Seq<char>)
    requires
        g.state == State::WordSubmission,
    ensures
        ({
            let (next, messages) = g.after(EventView::Proceed, word);
            &&& bare(next.users) && same_seats(g.users, next.users)
            &&& logic_same_round(g, next)
            &&& next.state == g.state && next.awaiting == Awaiting::Message
            &&& to_everyone_but(
                messages,
                g.users.len(),
                g.current_user as int,
                |i: usize| ServerMessageView::WordSubmissionRequest(i, g.word_to_guess),
            )
        }),
{
}

/// A hint lies before its player as it was sent, and nothing else on the table changes. The others
/// hear that it is in, unless it was the last: then the hints are compared next.
pub proof fn law_logic_hints_lie_where_they_were_sent_from(
    g: LogicView,
    i: usize,
    hint: Seq<char>,
    word: Seq<char>,
)
    requires
        g.state == State::WordSubmission,
        i != g.current_user,
        i < g.users.len(),
    ensures
        ({
            let (next, messages) = g.after(
                EventView::Message(ClientMessageView::WordSubmissionResponse(i, hint)),
                word,
            );
            let missing = exists|j: int|
                0 <= j < g.users.len() && j != i && j != g.current_user && (
                #[trigger] g.users[j]).word_guess is None;
            &&& next.users[i as int].word_guess == Some(hint)
            &&& next.users[i as int].word_stricken == g.users[i as int].word_stricken
            &&& same_seats(g.users, next.users) && same_others(g.users, next.users, i as int)
            &&& logic_same_round(g, next)
            &&& if missing {
                &&& next.state == g.state && next.awaiting == g.awaiting
                &&& to_everyone_but(
                    messages,
                    g.users.len(),
                    i as int,
                    |j: usize| ServerMessageView::WordSubmitted(j, i),
                )
            } else {
                &&& next.state == State::ManualDuplicateElimination
                &&& next.awaiting == Awaiting::Turn
                &&& messages.len() == 0
            }
        }),
{
    let next = g.after(
        EventView::Message(ClientMessageView::WordSubmissionResponse(i, hint)),
        word,
    ).0;
    if exists|j: int|
        0 <= j < g.users.len() && j != i && j != g.current_user && (
        #[trigger] g.users[j]).word_guess is None {
        let j = choose|j: int|
            0 <= j < g.users.len() && j != i && j != g.current_user && (
            #[trigger] g.users[j]).word_guess is None;
        assert(next.users[j].word_guess is None);
    } else {
        assert forall|j: int| 0 <= j < next.users.len() implies j == g.current_user || (
        #[trigger] next.users[j]).word_guess is Some by {
            assert(j != i ==> next.users[j] == g.users[j]);
        }
    }
}

/// All copies of a repeated hint are stricken and no other hint is; then everyone but the current
/// player sees every word with its mark, and the deciding player is asked.
pub proof fn law_logic_copies_are_stricken_and_shown(g: LogicView, word: Seq<char>)
    requires
        g.state == State::ManualDuplicateElimination,
        g.users.len() <= usize::MAX,
    ensures
        ({
            let (next, messages) = g.after(EventView::Proceed, word);
            let n = g.users.len();
            let told = if g.current_user < n {
                n - 1
            } else {
                n as int
            };
            &&& forall|i: int|
                0 <= i < n ==> ((#[trigger] next.users[i]).word_stricken <==> (
                g.users[i].word_stricken || repeated(g.users, i)))
            &&& same_seats(g.users, next.users) && same_words(g.users, next.users)
            &&& logic_same_round(g, next)
            &&& next.state == g.state && next.awaiting == Awaiting::Message
            &&& messages.len() == told + 1
            &&& messages[told] == ServerMessageView::ManualDuplicateEliminationRequest(
                g.decision_user,
            )
            &&& forall|k: int|
                0 <= k < told ==> {
                    &&& #[trigger] messages[k] matches ServerMessageView::ShowWords(to, words)
                    &&& to == (if k < g.current_user {
                        k
                    } else {
                        k + 1
                    })
                    &&& tells_marked_words(words, next.users)
                }
        }),
{
    let next = g.after(EventView::Proceed, word).0;
    assert forall|i: int| 0 <= i < g.users.len() implies ((
    #[trigger] next.users[i]).word_stricken <==> (g.users[i].word_stricken || repeated(
        g.users,
        i,
    ))) by {
        law_all_copies_are_stricken(g.users, i);
    }
}

/// The deciding player strikes exactly the hints that are picked, all of them, and the words stay
/// on the table. Everyone sees the words of those who were neither picked nor stricken before, and
/// the guess is next.
pub proof fn law_logic_every_picked_hint_is_stricken(
    g: LogicView,
    remove: Seq<usize>,
    word: Seq<char>,
)
    requires
        g.state == State::ManualDuplicateElimination,
        g.users.len() <= usize::MAX,
    ensures
        ({
            let (next, messages) = g.after(
                EventView::Message(
                    ClientMessageView::ManualDuplicateEliminationResponse(g.decision_user, remove),
                ),
                word,
            );
            &&& forall|k: int|
                0 <= k < remove.len() && remove[k] < g.users.len()
                    ==> next.users[#[trigger] remove[k] as int].word_stricken
            &&& forall|i: int|
                0 <= i < g.users.len() && !remove.contains(i as usize) ==> #[trigger] next.users[i]
                    == g.users[i]
            &&& same_seats(g.users, next.users) && same_words(g.users, next.users)
            &&& logic_same_round(g, next)
            &&& next.state == State::WordGuess && next.awaiting == Awaiting::Turn
            &&& messages.len() == g.users.len()
            &&& forall|k: int|
                0 <= k < g.users.len() ==> {
                    &&& #[trigger] messages[k] matches ServerMessageView::ShowFilteredWords(
                        to,
                        words,
                    )
                    &&& to == k
                    &&& tells_unpicked_words(words, g.users, remove)
                }
        }),
{
    let (next, messages) = g.after(
        EventView::Message(
            ClientMessageView::ManualDuplicateEliminationResponse(g.decision_user, remove),
        ),
        word,
    );
    assert forall|i: int| 0 <= i < g.users.len() implies ((
    #[trigger] next.users[i]).word_stricken <==> (g.users[i].word_stricken || remove.contains(
        i as usize,
    ))) by {
        law_picked_hints_are_stricken(g.users, remove, i);
        if remove.contains(i as usize) {
            let k = choose|k: int| 0 <= k < remove.len() && remove[k] == i as usize;
            assert(remove[k] == i);
        }
    }
    assert forall|k: int|
        0 <= k < remove.len() && remove[k] < g.users.len() implies next.users[
    #[trigger] remove[k] as int].word_stricken by {
        assert(remove.contains(remove[k]));
    }
}

/// The guess is asked for, of the current player and nobody else. Nothing on the table changes.
pub proof fn law_logic_the_guess_is_asked_for(g: LogicView, word: Seq<char>)
    requires
        g.state == State::WordGuess,
    ensures
        ({
            let (next, messages) = g.after(EventView::Proceed, word);
            &&& next.users == g.users && logic_same_round(g, next)
            &&& next.state == g.state && next.awaiting == Awaiting::Message
            &&& messages.len() == 1
            &&& messages[0] == ServerMessageView::WordGuessRequest(g.current_user)
        }),
{
}

/// Everyone sees the word of the round and every word that now lies on the table with its mark, and
/// the game pauses: two seconds if there is a guess, ten if there is none.
pub open spec fn overview_is_up(g: LogicView, next: LogicView, messages: Seq<
    ServerMessageView,
>) -> bool {
    &&& logic_same_round(g, next)
    &&& next.state == State::AcceptGuess
    &&& next.awaiting == (if next.users[next.current_user as int].word_guess is Some {
        Awaiting::Pause(2)
    } else {
        Awaiting::Pause(10)
    })
    &&& messages.len() == g.users.len()
    &&& forall|k: int|
        0 <= k < g.users.len() ==> {
            &&& #[trigger] messages[k] matches ServerMessageView::ShowRoundOverview(
                to,
                shown,
                words,
            )
            &&& to == k
            &&& shown == g.word_to_guess
            &&& tells_marked_words(words, next.users)
        }
}

/// The guess lies before the current player as it was sent, an empty one as none, and nothing else
/// on the table changes; then the overview goes up.
pub proof fn law_logic_the_guess_is_shown_as_it_is(g: LogicView, guess: Seq<char>, word: Seq<char>)
    requires
        g.state == State::WordGuess,
        g.current_user < g.users.len() <= usize::MAX,
    ensures
        ({
            let (next, messages) = g.after(
                EventView::Message(ClientMessageView::WordGuessResponse(g.current_user, guess)),
                word,
            );
            let seat = g.current_user as int;
            &&& guess.len() > 0 ==> next.users[seat].word_guess == Some(guess)
            &&& guess.len() == 0 ==> next.users[seat].word_guess is None
            &&& next.users[seat].word_stricken == g.users[seat].word_stricken
            &&& same_seats(g.users, next.users) && same_others(g.users, next.users, seat)
            &&& overview_is_up(g, next, messages)
        }),
{
}

/// After the pause the deciding player, and nobody else, is asked about the guess.
pub proof fn law_logic_the_deciding_player_is_asked(g: LogicView, word: Seq<char>)
    requires
        g.state == State::AcceptGuess,
        g.users[g.current_user as int].word_guess is Some,
    ensures
        ({
            let (next, messages) = g.after(EventView::Proceed, word);
            &&& next.users == g.users && logic_same_round(g, next)
            &&& next.state == g.state && next.awaiting == Awaiting::Message
            &&& messages.len() == 1
            &&& messages[0] == ServerMessageView::AcceptGuessRequest(g.decision_user)
        }),
{
}

/// The end of a round leaves the table alone. If no words are left the game is over and nothing is
/// said. Otherwise the next player is to guess the word that was drawn, and everyone is told.
pub open spec fn logic_round_is_over(
    g: LogicView,
    next: LogicView,
    messages: Seq<ServerMessageView>,
    word: Seq<char>,
) -> bool {
    let n = g.users.len();
    &&& next.users == g.users && next.channels == g.channels && next.words == g.words
    &&& next.awaiting == Awaiting::Turn
    &&& if next.words_left == 0 {
        &&& next.state == State::Finished
        &&& next.current_user == g.current_user && next.decision_user == g.decision_user
        &&& next.word_to_guess == g.word_to_guess
        &&& messages.len() == 0
    } else {
        &&& next.state == State::WordSubmission
        &&& next.current_user == neighbour(g.current_user, n)
        &&& next.decision_user == neighbour(next.current_user, n)
        &&& next.word_to_guess == word
        &&& tells_the_round(messages, next)
    }
}

/// An accepted guess brings a point and costs a word; a rejected one costs two words, or the last.
/// Losing the connection counts as a rejection.
pub proof fn law_logic_verdicts_count(g: LogicView, accept: bool, lost: bool, word: Seq<char>)
    requires
        g.wf(),
        g.state == State::AcceptGuess,
        g.users.len() > 0,
        g.words_left >= 1,
        lost ==> !accept,
    ensures
        ({
            let event = if lost {
                EventView::Disconnected
            } else {
                EventView::Message(ClientMessageView::AcceptGuessResponse(g.decision_user, accept))
            };
            let (next, messages) = g.after(event, word);
            &&& logic_round_is_over(g, next, messages, word)
            &&& accept ==> next.score == g.score + 1 && next.words_left == g.words_left - 1
            &&& !accept ==> next.score == g.score
            &&& !accept && g.words_left >= 2 ==> next.words_left == g.words_left - 2
            &&& !accept && g.words_left == 1 ==> next.words_left == 0
        }),
{
    lemma_neighbours(g);
}

/// A round in which nothing was guessed costs a word once the pause is over.
pub proof fn law_logic_passing_costs_a_word(g: LogicView, word: Seq<char>)
    requires
        g.wf(),
        g.state == State::AcceptGuess,
        g.users.len() > 0,
        g.users[g.current_user as int].word_guess is None,
        g.words_left >= 1,
    ensures
        ({
            let (next, messages) = g.after(EventView::Proceed, word);
            &&& logic_round_is_over(g, next, messages, word)
            &&& next.score == g.score
            &&& next.words_left == g.words_left - 1
        }),
{
    lemma_neighbours(g);
}

proof fn lemma_neighbours(g: LogicView)
    requires
        g.wf(),
        g.users.len() > 0,
    ensures
        player_after(g.current_user, g.users.len()) == neighbour(g.current_user, g.users.len()),
        player_after(player_after(g.current_user, g.users.len()), g.users.len()) == neighbour(
            player_after(g.current_user, g.users.len()),
            g.users.len(),
        ),
{
    let n = g.users.len();
    lemma_player_after(g.current_user, n);
    lemma_player_after(player_after(g.current_user, n), n);
}

/// At the end everyone is told the score, once, and the game is over.
pub proof fn law_logic_everyone_is_told_the_score(g: LogicView, word: Seq<char>)
    requires
        g.state == State::Finished,
    ensures
        ({
            let (next, messages) = g.after(EventView::Proceed, word);
            &&& next.users == g.users && logic_same_round(g, next)
            &&& next.state == g.state && next.awaiting == Awaiting::Nothing
            &&& to_everyone(
                messages,
                g.users.len(),
                |i: usize| ServerMessageView::Finished(i, g.score),
            )
        }),
{
}

/// How many guesses the deciding player accepts in the course of the events.
pub open spec fn logic_guesses_accepted(g: LogicView, events: LogicEvents) -> nat
    decreases events.len(),
{
    if events.len() == 0 {
        0
    } else {
        let before = logic_run(g, events.drop_last());
        logic_guesses_accepted(g, events.drop_last()) + (if before.state == State::AcceptGuess
            && events.last().0 == EventView::Message(
            ClientMessageView::AcceptGuessResponse(before.decision_user, true),
        ) {
            1nat
        } else {
            0
        })
    }
}

/// The score is the number of guesses that were accepted.
pub proof fn law_logic_score_counts_accepted_guesses(g: LogicView, events: LogicEvents)
    requires
        g.wf(),
        logic_accepts_all(g, events),
    ensures
        logic_run(g, events).score == g.score + logic_guesses_accepted(g, events),
    decreases events.len(),
{
    law_logic_words_bound_score_and_rounds(g, events);
    if events.len() > 0 {
        law_logic_score_counts_accepted_guesses(g, events.drop_last());
        law_logic_words_bound_score_and_rounds(g, events.drop_last());
    }
}

/// A game that waits for players goes on waiting.
pub proof fn law_logic_waiting_goes_on(g: LogicView, word: Seq<char>)
    requires
        g.state == State::WaitingForPlayers,
    ensures
        ({
            let (next, messages) = g.after(EventView::Proceed, word);
            &&& next.users == g.users && logic_same_round(g, next)
            &&& next.state == g.state && next.awaiting == Awaiting::Message
            &&& messages.len() == 0
        }),
{
}

/// Without players the game goes on as if what it waits for had come to an end: the hints are
/// compared, nothing is picked and the words left are shown, or nothing is guessed and the overview
/// goes up.
pub proof fn law_logic_lost_players_are_not_waited_for(g: LogicView, word: Seq<char>)
    requires
        g.users.len() <= usize::MAX,
    ensures
        ({
            let (next, messages) = g.after(EventView::Disconnected, word);
            &&& next.users == g.users
            &&& g.state == State::WordSubmission ==> {
                &&& logic_same_round(g, next) && messages.len() == 0
                &&& next.state == State::ManualDuplicateElimination
                &&& next.awaiting == Awaiting::Turn
            }
            &&& g.state == State::ManualDuplicateElimination ==> {
                &&& logic_same_round(g, next)
                &&& next.state == State::WordGuess && next.awaiting == Awaiting::Turn
                &&& messages.len() == g.users.len()
                &&& forall|k: int|
                    0 <= k < g.users.len() ==> {
                        &&& #[trigger] messages[k] matches ServerMessageView::ShowFilteredWords(
                            to,
                            words,
                        )
                        &&& to == k
                        &&& tells_words_left(words, g.users)
                    }
            }
            &&& g.state == State::WordGuess ==> overview_is_up(g, next, messages)
        }),
{
}

/// A word is drawn exactly when a round starts: at the beginning, and after a round that leaves
/// words.
pub proof fn law_logic_words_are_drawn_for_rounds(g: LogicView, event: EventView)
    requires
        g.accepts(event),
    ensures
        g.draws(event) <==> g.state != State::WordSubmission && g.after(event, Seq::empty()).0.state
            == State::WordSubmission,
{
}

/// A new game has nobody in it, no points and thirteen words; one on a terminal has the players of
/// its numbers, all on one channel, and is in its first round.
pub proof fn law_new_logics_start_from_nothing(
    words: Seq<Seq<char>>,
    num_users: nat,
    channel: u64,
    word: Seq<char>,
)
    ensures
        ({
            let g = fresh_logic(words);
            &&& g.state == State::WaitingForPlayers && g.awaiting == Awaiting::Message
            &&& g.users.len() == 0 && g.channels.len() == 0
            &&& g.words == words && g.word_to_guess.len() == 0
            &&& g.current_user == 0 && g.decision_user == 1
            &&& g.score == 0 && g.words_left == 13
        }),
        ({
            let g = terminal_logic(num_users, channel, words, word);
            &&& g.state == State::WordSubmission && g.awaiting == Awaiting::Turn
            &&& g.users.len() == num_users && bare(g.users) && g.channels.len() == num_users
            &&& forall|i: int|
                0 <= i < num_users ==> (#[trigger] g.users[i]).name == "User"@ + decimal(i as nat)
            &&& forall|i: int| 0 <= i < num_users ==> #[trigger] g.channels[i] == channel
            &&& g.words == words && g.word_to_guess == word
            &&& g.current_user == 0 && g.decision_user == 1
            &&& g.score == 0 && g.words_left == 13
        }),
{
}

/// A round that leaves so many words can be followed by what comes next: if words are left, there
/// are players and words for another round.
pub open spec fn can_go_on(g: LogicView, words_left: int) -> bool {
    words_left > 0 ==> g.users.len() > 0 && g.words.len() > 0
}

/// A game is ready for what it awaits, and for nothing else. It must also find what the event calls
/// for: players and a word for a round, the players in charge where they are asked, a word for a
/// round to end with, and the players that a message names.
pub proof fn law_logics_are_ready_for_what_they_await(g: LogicView)
    ensures
        g.accepts(EventView::Proceed) <==> {
            ||| g.awaiting is Turn && g.state != State::AcceptGuess && (g.state
                == State::ManualDuplicateElimination ==> g.decision_user < g.users.len()) && (
            g.state == State::WordGuess ==> g.current_user < g.users.len())
            ||| g.awaiting is Pause && g.state == State::AcceptGuess && g.current_user
                < g.users.len() && (if g.users[g.current_user as int].word_guess is Some {
                g.decision_user < g.users.len()
            } else {
                g.words_left > 0 && can_go_on(g, g.words_left - 1)
            })
        },
        g.accepts(EventView::Disconnected) <==> g.awaiting is Message && (g.state
            == State::WaitingForPlayers ==> g.words.len() > 0) && (g.state == State::WordGuess
            ==> g.current_user < g.users.len()) && (g.state == State::AcceptGuess ==> g.words_left
            > 0 && can_go_on(g, g.words_left - 2)),
        g.accepts(EventView::Message(ClientMessageView::StartGame)) <==> g.awaiting is Message && (
        g.state == State::WaitingForPlayers && g.users.len() > 1 ==> g.words.len() > 0),
        forall|user: UserView| #[trigger]
            g.accepts(EventView::Message(ClientMessageView::NewPlayer(user)))
                <==> g.awaiting is Message,
        forall|i: usize| #[trigger]
            g.accepts(EventView::Message(ClientMessageView::ResendGameState(i)))
                <==> g.awaiting is Message,
        forall|i: usize, w: Seq<char>| #[trigger]
            g.accepts(EventView::Message(ClientMessageView::WordSubmissionResponse(i, w)))
                <==> g.awaiting is Message && (g.state == State::WordSubmission && i
                != g.current_user ==> i < g.users.len()),
        forall|i: usize, w: Seq<char>| #[trigger]
            g.accepts(EventView::Message(ClientMessageView::WordGuessResponse(i, w)))
                <==> g.awaiting is Message && (g.state == State::WordGuess && i == g.current_user
                ==> i < g.users.len()),
        forall|i: usize, accept: bool| #[trigger]
            g.accepts(EventView::Message(ClientMessageView::AcceptGuessResponse(i, accept)))
                <==> g.awaiting is Message && (g.state == State::AcceptGuess && i
                == g.decision_user ==> g.words_left > 0 && can_go_on(
                g,
                if accept {
                    g.words_left - 1
                } else {
                    g.words_left - 2
                },
            )),
{
}

/// A game is ready to have hints stricken by hand if it awaits a message and, where the hints are
/// really to be stricken, all of them are hints of players at the table.
pub proof fn law_logic_only_hints_at_the_table_are_picked(
    g: LogicView,
    i: usize,
    remove: Seq<usize>,
)
    ensures
        g.accepts(
            EventView::Message(ClientMessageView::ManualDuplicateEliminationResponse(i, remove)),
        ) <==> {
            &&& g.awaiting is Message
            &&& {
                ||| g.state != State::ManualDuplicateElimination
                ||| i != g.decision_user
                ||| forall|k: int| 0 <= k < remove.len() ==> (#[trigger] remove[k]) < g.users.len()
            }
        },
{
    let event = EventView::Message(
        ClientMessageView::ManualDuplicateEliminationResponse(i, remove),
    );
    if g.state == State::ManualDuplicateElimination && i == g.decision_user && g.accepts(event) {
        lemma_logic_picks_within(g, remove);
    }
}

proof fn lemma_logic_picks_within(g: LogicView, remove: Seq<usize>)
    requires
        g.state == State::ManualDuplicateElimination,
        g.accepts(
            EventView::Message(
                ClientMessageView::ManualDuplicateEliminationResponse(g.decision_user, remove),
            ),
        ),
    ensures
        forall|k: int| 0 <= k < remove.len() ==> (#[trigger] remove[k]) < g.users.len(),
{
    let m = ClientMessageView::ManualDuplicateEliminationResponse(g.decision_user, remove);
    match (m, g.state) {
        (
            ClientMessageView::ManualDuplicateEliminationResponse(i, r),
            State::ManualDuplicateElimination,
        ) => {
            assert(r == remove);
            assert(forall|k: int| 0 <= k < r.len() ==> (#[trigger] r[k]) < g.users.len());
        },
        _ => {},
    }
}

} // verus!
