//! What holds of every game in which the players have channels of their own.
use vstd::prelude::*;

use crate::justone::Awaiting;
use crate::laws::distinct_words;
use crate::laws::gives_away;
use crate::laws::lemma_names_told_none;
use crate::laws::lemma_names_told_on_joining;
use crate::laws::names_told;
use crate::laws::player_names;
use crate::logic::delivered;
use crate::logic::fresh_logic;
use crate::logic::terminal_logic;
use crate::logic::ClientMessageView;
use crate::logic::DeliveryView;
use crate::logic::EventView;
use crate::logic::LogicView;
use crate::logic::State;
use crate::messages::ServerMessageView;
use crate::players::all_submitted;
use crate::players::filtered_words;
use crate::players::law_filtered_words_are_distinct;
use crate::rounds::lemma_player_after;
use crate::rounds::lemma_player_after_mod;
use crate::rounds::player_after;
use crate::text::same_ignoring_case;

verus! {

/// A game in play: there are words to draw, at least two players once it has started, the players
/// in charge sit at the table next to each other, and it is over when no words are left.
pub open spec fn logic_in_play(g: LogicView) -> bool {
    let n = g.users.len();
    &&& g.wf()
    &&& g.words.len() > 0
    &&& g.state == State::WaitingForPlayers ==> g.current_user == 0 && g.decision_user == 1
    &&& g.state != State::WaitingForPlayers ==> n >= 2 && g.decision_user == player_after(
        g.current_user,
        n,
    )
    &&& g.state == State::Finished <==> g.words_left == 0
    &&& g.awaiting is Pause ==> g.state == State::AcceptGuess
    &&& g.awaiting is Turn ==> g.state != State::AcceptGuess
    &&& g.awaiting is Message ==> g.state != State::Finished
}

/// The event is of the kind that the game awaits, and names only players at the table.
pub open spec fn logic_fits(g: LogicView, event: EventView) -> bool {
    let n = g.users.len();
    match event {
        EventView::Proceed => g.awaiting is Turn || g.awaiting is Pause,
        EventView::Disconnected => g.awaiting is Message,
        EventView::Message(m) => {
            g.awaiting is Message && match m {
                ClientMessageView::WordSubmissionResponse(i, _) => i < n,
                ClientMessageView::ManualDuplicateEliminationResponse(i, remove) => {
                    i < n && forall|k: int| 0 <= k < remove.len() ==> (#[trigger] remove[k]) < n
                },
                ClientMessageView::WordGuessResponse(i, _) => i < n,
                ClientMessageView::AcceptGuessResponse(i, _) => i < n,
                _ => true,
            }
        },
    }
}

/// The game loses its connection before there are two players.
pub open spec fn logic_starved(g: LogicView, event: EventView) -> bool {
    event is Disconnected && g.state == State::WaitingForPlayers && g.users.len() < 2
}

/// Games with a word list are in play from the start; on one terminal they need two players.
pub proof fn law_new_logics_are_in_play(
    words: Seq<Seq<char>>,
    num_users: nat,
    channel: u64,
    i: int,
)
    requires
        0 <= i < words.len(),
        2 <= num_users <= usize::MAX,
    ensures
        logic_in_play(fresh_logic(words)),
        logic_in_play(terminal_logic(num_users, channel, words, words[i])),
{
    lemma_player_after(0, num_users);
}

/// A game in play is ready for every event that fits.
pub proof fn law_logics_in_play_never_get_stuck(g: LogicView, event: EventView)
    requires
        logic_in_play(g),
        logic_fits(g, event),
    ensures
        g.accepts(event),
{
    if g.users.len() > 0 {
        lemma_player_after(g.current_user, g.users.len());
    }
}

/// A game in play stays in play.
pub proof fn law_logics_stay_in_play(g: LogicView, event: EventView, word: Seq<char>)
    requires
        logic_in_play(g),
        g.after(event, word).0.users.len() <= usize::MAX,
        g.accepts(event),
        !logic_starved(g, event),
    ensures
        logic_in_play(g.after(event, word).0),
{
    let n = g.users.len();
    if n > 0 {
        lemma_player_after(g.current_user, n);
        lemma_player_after(player_after(g.current_user, n), n);
    }
}

/// The current player never decides about the guess: with two players or more the roles differ.
pub proof fn law_current_player_does_not_decide(g: LogicView)
    requires
        logic_in_play(g),
        g.state != State::WaitingForPlayers,
    ensures
        g.current_user < g.users.len(),
        g.decision_user < g.users.len(),
        g.decision_user != g.current_user,
{
    lemma_player_after(g.current_user, g.users.len());
}

/// Every message goes out on the channel of the player it is meant for, who is at the table.
pub proof fn law_messages_go_to_their_players(
    g: LogicView,
    event: EventView,
    word: Seq<char>,
    k: int,
)
    requires
        g.wf(),
        g.after(event, word).0.users.len() <= usize::MAX,
        g.accepts(event),
        0 <= k < g.after(event, word).1.len(),
    ensures
        ({
            let (next, messages) = g.after(event, word);
            &&& messages[k].recipient() < next.users.len()
            &&& delivered(next.channels, messages)[k].channel
                == next.channels[messages[k].recipient() as int]
            &&& delivered(next.channels, messages)[k].message == messages[k]
        }),
{
}

/// The players at the table stay, in their order and with their channels, and newcomers sit down
/// behind them; only while the game waits for players does anyone join.
pub proof fn law_players_keep_their_channels(g: LogicView, event: EventView, word: Seq<char>)
    requires
        g.wf(),
        g.accepts(event),
    ensures
        ({
            let next = g.after(event, word).0;
            &&& g.users.len() <= next.users.len() <= g.users.len() + 1
            &&& next.users.len() > g.users.len() ==> g.state == State::WaitingForPlayers
            &&& forall|i: int|
                0 <= i < g.users.len() ==> (#[trigger] next.users[i]).name == g.users[i].name
            &&& forall|i: int|
                0 <= i < g.users.len() ==> #[trigger] next.channels[i] == g.channels[i]
        }),
{
}

/// The verdict on the guess that `event` brings: losing the connection counts as a rejection.
pub open spec fn logic_verdict(g: LogicView, event: EventView) -> Option<bool> {
    if g.state != State::AcceptGuess {
        None
    } else {
        match event {
            EventView::Message(ClientMessageView::AcceptGuessResponse(i, accept)) => if i
                == g.decision_user {
                Some(accept)
            } else {
                None
            },
            EventView::Disconnected => Some(false),
            _ => None,
        }
    }
}

/// Whether `event` ends a round in which nothing was guessed.
pub open spec fn logic_passed(g: LogicView, event: EventView) -> bool {
    g.state == State::AcceptGuess && g.awaiting is Pause && event is Proceed && !g.guessed()
}

/// No event makes words or points out of nothing: what a word adds to the score it takes from the
/// words left. An accepted guess takes one word and brings a point, a rejected one takes two words
/// as far as there are two, a round without a guess takes one, and nothing else counts.
pub proof fn law_logic_points_are_paid_with_words(g: LogicView, event: EventView, word: Seq<char>)
    requires
        g.wf(),
        g.accepts(event),
    ensures
        ({
            let next = g.after(event, word).0;
            &&& next.score + next.words_left <= g.score + g.words_left
            &&& match logic_verdict(g, event) {
                Some(true) => next.score == g.score + 1 && next.words_left == g.words_left - 1,
                Some(false) => next.score == g.score && next.words_left == (if g.words_left == 1 {
                    0
                } else {
                    g.words_left - 2
                }),
                None => next.score == g.score && next.words_left == (if logic_passed(g, event) {
                    g.words_left - 1
                } else {
                    g.words_left as int
                }),
            }
        }),
{
}

/// A round that ends has used up a word. The game is over if it was the last, and otherwise hands
/// the guess on to the next player.
pub proof fn law_logic_rounds_use_up_words(g: LogicView, event: EventView, word: Seq<char>)
    requires
        g.wf(),
        g.accepts(event),
        g.state == State::AcceptGuess,
        g.after(event, word).0.state != State::AcceptGuess,
    ensures
        ({
            let next = g.after(event, word).0;
            &&& next.words_left < g.words_left
            &&& if next.words_left == 0 {
                next.state == State::Finished
            } else {
                &&& next.state == State::WordSubmission
                &&& next.current_user == player_after(g.current_user, g.users.len())
                &&& next.decision_user == player_after(next.current_user, g.users.len())
                &&& next.word_to_guess == word
            }
        }),
{
}

/// Events, each with the word that a round would be about if the event started one.
pub type LogicEvents = Seq<(EventView, Seq<char>)>;

/// The game after a series of events.
pub open spec fn logic_run(g: LogicView, events: LogicEvents) -> LogicView
    decreases events.len(),
{
    if events.len() == 0 {
        g
    } else {
        logic_run(g, events.drop_last()).after(events.last().0, events.last().1).0
    }
}

/// Whether the game is ready for each of the events when it happens.
pub open spec fn logic_accepts_all(g: LogicView, events: LogicEvents) -> bool
    decreases events.len(),
{
    events.len() > 0 ==> {
        &&& logic_accepts_all(g, events.drop_last())
        &&& logic_run(g, events.drop_last()).accepts(events.last().0)
    }
}

/// How many rounds end in the course of the events.
pub open spec fn logic_rounds_ended(g: LogicView, events: LogicEvents) -> nat
    decreases events.len(),
{
    if events.len() == 0 {
        0
    } else {
        let rest = events.drop_last();
        logic_rounds_ended(g, rest) + (if logic_run(g, rest).state == State::AcceptGuess
            && logic_run(g, events).state != State::AcceptGuess {
            1nat
        } else {
            0
        })
    }
}

/// Words bound points and rounds: a game scores at most one point in a round, uses up at least one
/// word and at most two, and so makes no more points and plays no more rounds than it had words at
/// the start. When it is over it has played at least half as many rounds as it had words.
pub proof fn law_logic_words_bound_score_and_rounds(g: LogicView, events: LogicEvents)
    requires
        g.wf(),
        logic_accepts_all(g, events),
    ensures
        ({
            let now = logic_run(g, events);
            let rounds = logic_rounds_ended(g, events);
            &&& now.score + now.words_left <= g.score + g.words_left
            &&& g.score <= now.score <= g.score + rounds
            &&& rounds + now.words_left <= g.words_left <= 2 * rounds + now.words_left
            &&& g.state != State::Finished && now.state == State::Finished ==> now.words_left == 0
                && (g.words_left + 1) / 2 <= rounds <= g.words_left
        }),
    decreases events.len(),
{
    if events.len() > 0 {
        law_logic_words_bound_score_and_rounds(g, events.drop_last());
    }
}

/// How many rounds have begun in the end: those that start in the course of the events, and the one
/// that the game is in at the beginning unless it waits for players.
pub open spec fn logic_rounds_begun(g: LogicView, events: LogicEvents) -> nat
    decreases events.len(),
{
    if events.len() == 0 {
        if g.state == State::WaitingForPlayers {
            0
        } else {
            1
        }
    } else {
        logic_rounds_begun(g, events.drop_last()) + (if logic_run(g, events.drop_last()).draws(
            events.last().0,
        ) {
            1nat
        } else {
            0
        })
    }
}

/// The game has yet to begin, or is in its first round, which the first player guesses and the
/// second decides. New games are like this.
pub open spec fn logic_at_first(g: LogicView) -> bool {
    &&& g.current_user == 0
    &&& g.decision_user == 1
    &&& g.state == State::WaitingForPlayers || g.state == State::WordSubmission
}

/// Over a whole game of two players or more the turns go round the table: round `k`, counted from
/// nought, is guessed by player `k % n` of `n` and decided by player `(k + 1) % n`.
pub proof fn law_logic_rounds_go_round_the_table(g: LogicView, events: LogicEvents, k: nat)
    requires
        logic_at_first(g),
        logic_accepts_all(g, events),
        2 <= logic_run(g, events).users.len() <= usize::MAX,
        logic_rounds_begun(g, events) == k + 1,
    ensures
        ({
            let now = logic_run(g, events);
            let n = now.users.len();
            &&& now.current_user == k % n
            &&& now.decision_user == (k + 1) % n
        }),
    decreases events.len(),
{
    let n = logic_run(g, events).users.len();
    lemma_logic_before_the_first_round(g, events);
    assert(0nat % n == 0) by (nonlinear_arith)
        requires
            n >= 2,
    ;
    assert(1nat % n == 1) by (nonlinear_arith)
        requires
            n >= 2,
    ;
    if events.len() > 0 {
        let rest = events.drop_last();
        let before = logic_run(g, rest);
        lemma_logic_before_the_first_round(g, rest);
        if before.state != State::WaitingForPlayers {
            let earlier = (logic_rounds_begun(g, rest) - 1) as nat;
            law_logic_rounds_go_round_the_table(g, rest, earlier);
            lemma_player_after_mod(earlier, n);
            lemma_player_after_mod(earlier + 1, n);
        }
    }
}

/// As long as a game waits for its players no round has begun, and the first two players are to
/// guess and to decide.
proof fn lemma_logic_before_the_first_round(g: LogicView, events: LogicEvents)
    requires
        logic_at_first(g),
        logic_accepts_all(g, events),
    ensures
        logic_run(g, events).state == State::WaitingForPlayers <==> logic_rounds_begun(g, events)
            == 0,
        logic_rounds_begun(g, events) == 0 ==> logic_run(g, events).current_user == 0 && logic_run(
            g,
            events,
        ).decision_user == 1,
    decreases events.len(),
{
    if events.len() > 0 {
        lemma_logic_before_the_first_round(g, events.drop_last());
    }
}

/// The deliveries of a whole series of events, in order.
pub open spec fn delivered_in_all(g: LogicView, events: LogicEvents) -> Seq<DeliveryView>
    decreases events.len(),
{
    if events.len() == 0 {
        Seq::empty()
    } else {
        let (now, messages) = logic_run(g, events.drop_last()).after(
            events.last().0,
            events.last().1,
        );
        delivered_in_all(g, events.drop_last()) + delivered(now.channels, messages)
    }
}

/// The messages on a channel that tell of a player who joined, in order.
pub open spec fn added_on(deliveries: Seq<DeliveryView>, channel: u64) -> Seq<ServerMessageView>
    decreases deliveries.len(),
{
    if deliveries.len() == 0 {
        Seq::empty()
    } else {
        let before = added_on(deliveries.drop_last(), channel);
        if deliveries.last().channel == channel && deliveries.last().message is UserAdded {
            before.push(deliveries.last().message)
        } else {
            before
        }
    }
}

/// No two players share a channel.
pub open spec fn own_channels(channels: Seq<u64>) -> bool {
    forall|i: int, j: int|
        0 <= i < j < channels.len() ==> #[trigger] channels[i] != #[trigger] channels[j]
}

/// The messages that tell player `i` these names.
pub open spec fn introductions(i: usize, names: Seq<Seq<char>>) -> Seq<ServerMessageView> {
    Seq::new(names.len(), |k: int| ServerMessageView::UserAdded(i, names[k]))
}

/// On the channel of every player the names of all players are told once, in the order in which
/// they joined, which is the order of their numbers; and on no other channel is any name told.
pub proof fn law_names_are_told_on_every_channel(
    g: LogicView,
    events: LogicEvents,
    i: usize,
    channel: u64,
)
    requires
        g.wf(),
        g.users.len() == 0,
        logic_accepts_all(g, events),
        logic_run(g, events).users.len() <= usize::MAX,
        own_channels(logic_run(g, events).channels),
    ensures
        ({
            let now = logic_run(g, events);
            let told = delivered_in_all(g, events);
            &&& i < now.users.len() ==> added_on(told, now.channels[i as int]) == introductions(
                i,
                player_names(now.users),
            )
            &&& !now.channels.contains(channel) ==> added_on(told, channel) == Seq::<
                ServerMessageView,
            >::empty()
        }),
    decreases events.len(),
{
    if events.len() > 0 {
        let rest = events.drop_last();
        let before = logic_run(g, rest);
        let (event, word) = events.last();
        let (now, messages) = before.after(event, word);
        let n = before.users.len();
        lemma_logic_run_wf(g, rest);
        lemma_logic_run_wf(g, events);
        law_players_keep_their_channels(before, event, word);
        assert forall|a: int, b: int| 0 <= a < b < before.channels.len() implies
            #[trigger] before.channels[a] != #[trigger] before.channels[b] by {
            assert(now.channels[a] == before.channels[a]);
            assert(now.channels[b] == before.channels[b]);
        }
        let sent = delivered(now.channels, messages);
        if i < now.users.len() {
            let c = now.channels[i as int];
            assert forall|k: int| 0 <= k < messages.len() implies (
            #[trigger] messages[k]).recipient() < now.channels.len() by {
                law_messages_go_to_their_players(before, event, word, k);
            }
            lemma_added_on_sum(delivered_in_all(g, rest), sent, c);
            lemma_added_on_own_channel(now.channels, messages, i);
            if i >= n {
                assert(!before.channels.contains(c)) by {
                    assert forall|a: int| 0 <= a < before.channels.len() implies
                        before.channels[a] != c by {
                        assert(now.channels[a] == before.channels[a]);
                    }
                }
            }
            law_names_are_told_on_every_channel(g, rest, i, c);
            lemma_logic_names_told(before, event, word, i);
            assert(added_on(delivered_in_all(g, rest), c) + added_on(sent, c) =~= introductions(
                i,
                player_names(now.users),
            ));
        }
        if !now.channels.contains(channel) {
            assert(!before.channels.contains(channel)) by {
                assert forall|a: int| 0 <= a < before.channels.len() implies before.channels[a]
                    != channel by {
                    assert(now.channels[a] == before.channels[a]);
                }
            }
            law_names_are_told_on_every_channel(g, rest, 0, channel);
            lemma_added_on_sum(delivered_in_all(g, rest), sent, channel);
            assert forall|k: int| 0 <= k < sent.len() implies (#[trigger] sent[k]).channel
                != channel by {
                law_messages_go_to_their_players(before, event, word, k);
            }
            lemma_added_on_none(sent, channel);
        }
    }
}

/// What an event tells player `i`: the new name, or, if the player has just joined, all of them.
proof fn lemma_logic_names_told(g: LogicView, event: EventView, word: Seq<char>, i: usize)
    requires
        g.wf(),
        g.accepts(event),
        g.after(event, word).0.users.len() <= usize::MAX,
        i < g.after(event, word).0.users.len(),
    ensures
        ({
            let (now, messages) = g.after(event, word);
            player_names(now.users) == (if i < g.users.len() {
                player_names(g.users)
            } else {
                Seq::empty()
            }) + names_told(messages, i)
        }),
{
    let (now, messages) = g.after(event, word);
    match event {
        EventView::Message(ClientMessageView::NewPlayer(user)) => {
            if g.state == State::WaitingForPlayers {
                lemma_names_told_on_joining(g.users, now.users, user.player.name, i);
            }
        },
        _ => {},
    }
    if now.users.len() == g.users.len() {
        assert forall|k: int| 0 <= k < messages.len() implies !(
        #[trigger] messages[k] is UserAdded) by {}
        lemma_names_told_none(messages, i);
    }
    assert(player_names(now.users) =~= (if i < g.users.len() {
        player_names(g.users)
    } else {
        Seq::empty()
    }) + names_told(messages, i));
}

/// Every game that can be reached is well formed.
proof fn lemma_logic_run_wf(g: LogicView, events: LogicEvents)
    requires
        g.wf(),
        logic_accepts_all(g, events),
        logic_run(g, events).users.len() <= usize::MAX,
    ensures
        logic_run(g, events).wf(),
    decreases events.len(),
{
    if events.len() > 0 {
        let before = logic_run(g, events.drop_last());
        lemma_logic_run_wf(g, events.drop_last());
        if before.users.len() > 0 {
            lemma_player_after(before.current_user, before.users.len());
        }
    }
}

/// What two lists of deliveries tell one after the other.
proof fn lemma_added_on_sum(a: Seq<DeliveryView>, b: Seq<DeliveryView>, channel: u64)
    ensures
        added_on(a + b, channel) == added_on(a, channel) + added_on(b, channel),
    decreases b.len(),
{
    if b.len() == 0 {
        assert(a + b =~= a);
        assert(added_on(a, channel) + added_on(b, channel) =~= added_on(a, channel));
    } else {
        lemma_added_on_sum(a, b.drop_last(), channel);
        assert((a + b).drop_last() =~= a + b.drop_last());
        assert(added_on(a + b, channel) =~= added_on(a, channel) + added_on(b, channel));
    }
}

/// Deliveries on other channels tell nothing on this one.
proof fn lemma_added_on_none(deliveries: Seq<DeliveryView>, channel: u64)
    requires
        forall|k: int|
            0 <= k < deliveries.len() ==> (#[trigger] deliveries[k]).channel != channel,
    ensures
        added_on(deliveries, channel) == Seq::<ServerMessageView>::empty(),
    decreases deliveries.len(),
{
    if deliveries.len() > 0 {
        let rest = deliveries.drop_last();
        assert forall|k: int| 0 <= k < rest.len() implies (#[trigger] rest[k]).channel
            != channel by {
            assert(rest[k] == deliveries[k]);
        }
        lemma_added_on_none(rest, channel);
        assert(deliveries[deliveries.len() - 1].channel != channel);
    }
}

/// A player's own channel carries the names that the player is told.
proof fn lemma_added_on_own_channel(
    channels: Seq<u64>,
    messages: Seq<ServerMessageView>,
    i: usize,
)
    requires
        own_channels(channels),
        i < channels.len(),
        forall|k: int|
            0 <= k < messages.len() ==> (#[trigger] messages[k]).recipient() < channels.len(),
    ensures
        added_on(delivered(channels, messages), channels[i as int]) == introductions(
            i,
            names_told(messages, i),
        ),
    decreases messages.len(),
{
    let sent = delivered(channels, messages);
    if messages.len() > 0 {
        let rest = messages.drop_last();
        assert forall|k: int| 0 <= k < rest.len() implies (#[trigger] rest[k]).recipient()
            < channels.len() by {
            assert(rest[k] == messages[k]);
        }
        lemma_added_on_own_channel(channels, rest, i);
        assert(sent.drop_last() =~= delivered(channels, rest));
        let to = messages[messages.len() - 1].recipient();
        assert(to < channels.len());
        assert(sent.last().channel == channels[to as int]);
        assert(to != i ==> channels[to as int] != channels[i as int]);
    }
    assert(added_on(sent, channels[i as int]) =~= introductions(i, names_told(messages, i)));
}

/// A message starts a game only if there are two players.
pub proof fn law_logic_two_players_start_a_game(
    g: LogicView,
    m: ClientMessageView,
    word: Seq<char>,
)
    requires
        g.wf(),
        g.state == State::WaitingForPlayers,
        g.accepts(EventView::Message(m)),
        g.receive(m, word).0.state != State::WaitingForPlayers,
    ensures
        m is StartGame,
        g.users.len() >= 2,
{
}

/// Until the guess is in, the current player is told neither the word nor the hints that were
/// stricken.
pub proof fn law_current_player_is_kept_in_the_dark(
    g: LogicView,
    event: EventView,
    word: Seq<char>,
    k: int,
)
    requires
        g.wf(),
        g.accepts(event),
        0 <= k < g.after(event, word).1.len(),
    ensures
        ({
            let (next, messages) = g.after(event, word);
            gives_away(messages[k]) && messages[k].recipient() == next.current_user ==> g.state
                == State::WordGuess
        }),
{
}

/// Once the duplicates have been stricken, the hints left are distinct.
pub open spec fn logic_hints_sifted(g: LogicView) -> bool {
    (g.state == State::ManualDuplicateElimination && g.awaiting != Awaiting::Turn)
        ==> distinct_words(filtered_words(g.users))
}

/// The hints that are shown to the current player are distinct: every game starts out with
/// `logic_hints_sifted`, every event keeps it, and it covers what is shown.
pub proof fn law_logic_shown_hints_are_distinct(
    g: LogicView,
    event: EventView,
    word: Seq<char>,
    k: int,
)
    requires
        g.wf(),
        logic_hints_sifted(g),
        g.accepts(event),
    ensures
        ({
            let (next, messages) = g.after(event, word);
            &&& logic_hints_sifted(next)
            &&& 0 <= k < messages.len() ==> (messages[k] matches
                ServerMessageView::ShowFilteredWords(_, words) ==> distinct_words(words))
        }),
{
    let next = g.after(event, word).0;
    if g.state == State::ManualDuplicateElimination {
        let words = filtered_words(next.users);
        let before = filtered_words(g.users);
        match event {
            EventView::Proceed => {
                assert forall|i: int, j: int|
                    #![trigger words[i], words[j]]
                    0 <= i < words.len() && 0 <= j < words.len() && i != j && words[i] is Some
                        && words[j] is Some implies !same_ignoring_case(
                    words[i]->0,
                    words[j]->0,
                ) by {
                    law_filtered_words_are_distinct(g.users, i, j);
                }
            },
            EventView::Message(_) => {
                assert forall|i: int, j: int|
                    #![trigger words[i], words[j]]
                    0 <= i < words.len() && 0 <= j < words.len() && i != j && words[i] is Some
                        && words[j] is Some implies !same_ignoring_case(
                    words[i]->0,
                    words[j]->0,
                ) by {
                    assert(before[i] == words[i]);
                    assert(before[j] == words[j]);
                }
            },
            _ => {},
        }
    }
}

/// The hints are complete before they are compared: a message moves the game on from collecting
/// them only when everyone but the current player has submitted one.
pub proof fn law_logic_all_hints_are_awaited(g: LogicView, m: ClientMessageView, word: Seq<char>)
    requires
        g.wf(),
        g.state == State::WordSubmission,
        g.accepts(EventView::Message(m)),
    ensures
        ({
            let next = g.receive(m, word).0;
            next.state != State::WordSubmission ==> next.state == State::ManualDuplicateElimination
                && all_submitted(next.users, next.current_user as int)
        }),
{
}

/// The message answers what the game has asked for, by the player it has asked.
pub open spec fn logic_called_for(g: LogicView, m: ClientMessageView) -> bool {
    match m {
        ClientMessageView::ResendGameState(_) => false,
        ClientMessageView::StartGame => g.state == State::WaitingForPlayers && g.users.len() > 1,
        ClientMessageView::NewPlayer(_) => g.state == State::WaitingForPlayers,
        ClientMessageView::WordSubmissionResponse(i, _) => g.state == State::WordSubmission && i
            != g.current_user,
        ClientMessageView::ManualDuplicateEliminationResponse(i, _) => g.state
            == State::ManualDuplicateElimination && i == g.decision_user,
        ClientMessageView::WordGuessResponse(i, _) => g.state == State::WordGuess && i
            == g.current_user,
        ClientMessageView::AcceptGuessResponse(i, _) => g.state == State::AcceptGuess && i
            == g.decision_user,
    }
}

/// Other messages change nothing and are answered with nothing.
pub proof fn law_logic_ignores_uncalled_messages(
    g: LogicView,
    m: ClientMessageView,
    word: Seq<char>,
)
    requires
        !logic_called_for(g, m),
    ensures
        g.receive(m, word) == (g, Seq::<ServerMessageView>::empty()),
{
}

/// What happens to a game whose players are all gone.
pub open spec fn logic_unattended(g: LogicView) -> EventView {
    if g.awaiting is Message {
        EventView::Disconnected
    } else {
        EventView::Proceed
    }
}

/// How many steps a game can go on without players.
pub open spec fn logic_stamina(g: LogicView) -> nat {
    g.words_left as nat * 20 + match (g.state, g.awaiting) {
        (_, Awaiting::Nothing) => 0nat,
        (State::WaitingForPlayers, Awaiting::Turn) => 12,
        (State::WaitingForPlayers, _) => 11,
        (State::WordSubmission, Awaiting::Turn) => 9,
        (State::WordSubmission, _) => 8,
        (State::ManualDuplicateElimination, Awaiting::Turn) => 7,
        (State::ManualDuplicateElimination, _) => 6,
        (State::WordGuess, Awaiting::Turn) => 5,
        (State::WordGuess, _) => 4,
        (State::AcceptGuess, Awaiting::Pause(_)) => 2,
        (State::AcceptGuess, _) => 1,
        (State::Finished, _) => 1,
    }
}

/// The events are those of a game whose players are all gone.
pub open spec fn logic_left_alone(g: LogicView, events: LogicEvents) -> bool
    decreases events.len(),
{
    events.len() > 0 ==> {
        let before = logic_run(g, events.drop_last());
        &&& logic_left_alone(g, events.drop_last())
        &&& before.awaiting != Awaiting::Nothing
        &&& events.last().0 == logic_unattended(before)
    }
}

/// A game whose players are all gone, once there were two, comes to an end: it does not get stuck,
/// and it goes through no more steps than its stamina allows.
pub proof fn law_abandoned_logics_end(g: LogicView, events: LogicEvents)
    requires
        logic_in_play(g),
        2 <= g.users.len(),
        logic_left_alone(g, events),
    ensures
        ({
            let now = logic_run(g, events);
            &&& logic_accepts_all(g, events)
            &&& logic_in_play(now)
            &&& now.users.len() == g.users.len()
            &&& now.awaiting != Awaiting::Nothing ==> now.accepts(logic_unattended(now))
            &&& events.len() + logic_stamina(now) <= logic_stamina(g)
        }),
    decreases events.len(),
{
    if events.len() > 0 {
        let before = logic_run(g, events.drop_last());
        law_abandoned_logics_end(g, events.drop_last());
        law_logics_stay_in_play(before, events.last().0, events.last().1);
        lemma_logic_stamina(before, events.last().1);
    }
    let now = logic_run(g, events);
    if now.awaiting != Awaiting::Nothing {
        law_logics_in_play_never_get_stuck(now, logic_unattended(now));
    }
}

/// Every step takes something off the stamina.
proof fn lemma_logic_stamina(g: LogicView, word: Seq<char>)
    requires
        logic_in_play(g),
        g.awaiting != Awaiting::Nothing,
        g.accepts(logic_unattended(g)),
    ensures
        logic_stamina(g.after(logic_unattended(g), word).0) < logic_stamina(g),
        g.after(logic_unattended(g), word).0.users.len() == g.users.len(),
{
}

} // verus!
