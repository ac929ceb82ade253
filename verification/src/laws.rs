//! What holds of every game, whatever the players send.
use vstd::prelude::*;

use crate::announce::joined;
use crate::announce::roster;
use crate::announce::submissions_so_far;
use crate::justone::fresh_game;
use crate::justone::silence;
use crate::justone::terminal_game;
use crate::justone::Awaiting;
use crate::justone::ClientMessageView;
use crate::justone::EventView;
use crate::justone::GameView;
use crate::justone::State;
use crate::messages::ServerMessageView;
use crate::players::all_submitted;
use crate::players::cleared;
use crate::players::filtered_words;
use crate::players::PlayerView;
use crate::rounds::lemma_player_after;
use crate::rounds::lemma_player_after_mod;
use crate::rounds::player_after;
use crate::text::same_ignoring_case;

verus! {

/// A game in play: there are words to draw, at least two players once it has started, the players
/// in charge sit at the table next to each other, it is over when no words are left, and it awaits
/// messages only where it has use for them.
pub open spec fn in_play(g: GameView) -> bool {
    let n = g.users.len();
    &&& g.wf()
    &&& g.words.len() > 0
    &&& g.state == State::WaitingForPlayers ==> g.guess_user == 0
    &&& g.state != State::WaitingForPlayers ==> n >= 2
    &&& g.state != State::WaitingForPlayers && g.state != State::NextRound ==> g.decision_user
        == player_after(g.guess_user, n)
    &&& g.state == State::Finished <==> g.words_left == 0
    &&& g.awaiting is Pause ==> g.state == State::AcceptGuess
    &&& g.awaiting is Message ==> g.state != State::NextRound && g.state != State::Finished
}

/// The event is of the kind that the game awaits, and names only players at the table.
pub open spec fn fits(g: GameView, event: EventView) -> bool {
    let n = g.users.len();
    match event {
        EventView::Proceed => g.awaiting is Turn || g.awaiting is Pause,
        EventView::Disconnected => g.awaiting is Message,
        EventView::Message(m) => {
            g.awaiting is Message && match m {
                ClientMessageView::WordSubmissionResponse(i, _) => i < n,
                ClientMessageView::ManualDuplicateEliminationResponse(i, remove) => {
                    i < n && forall|k: int| 0 <= k < remove.len() ==> (#[trigger] remove[k]) < n
                },
                ClientMessageView::WordGuessResponse(i, _) => i < n,
                ClientMessageView::AcceptGuessResponse(i, _) => i < n,
                _ => true,
            }
        },
    }
}

/// The game loses its connection before there are two players.
pub open spec fn starved(g: GameView, event: EventView) -> bool {
    event is Disconnected && g.state == State::WaitingForPlayers && g.users.len() < 2
}

/// Games with a word list and at least one word to guess are in play from the start; on one
/// terminal they need two players.
pub proof fn law_new_games_are_in_play(
    words: Seq<Seq<char>>,
    word_count: usize,
    num_users: nat,
    i: int,
)
    requires
        0 <= i < words.len(),
        word_count >= 1,
        2 <= num_users <= usize::MAX,
    ensures
        in_play(fresh_game(words, word_count)),
        in_play(terminal_game(num_users, words, words[i])),
{
    assert((0usize + 1) % num_users as int == 1) by (nonlinear_arith)
        requires
            num_users >= 2,
    ;
}

/// A game in play is ready for every event that fits.
pub proof fn law_games_in_play_never_get_stuck(g: GameView, event: EventView)
    requires
        in_play(g),
        fits(g, event),
    ensures
        g.accepts(event),
{
}

/// A game in play stays in play.
pub proof fn law_games_stay_in_play(g: GameView, event: EventView, word: Seq<char>)
    requires
        in_play(g),
        g.after(event, word).0.users.len() <= usize::MAX,
        g.accepts(event),
        !starved(g, event),
    ensures
        in_play(g.after(event, word).0),
{
    if g.users.len() > 0 {
        lemma_player_after(g.guess_user, g.users.len());
        lemma_player_after(player_after(g.guess_user, g.users.len()), g.users.len());
    }
}

/// The guessing player never decides about the guess: with two players or more the roles differ.
pub proof fn law_guesser_does_not_decide(g: GameView)
    requires
        in_play(g),
        g.state != State::WaitingForPlayers,
        g.state != State::NextRound,
    ensures
        g.guess_user < g.users.len(),
        g.decision_user < g.users.len(),
        g.decision_user != g.guess_user,
{
    lemma_player_after(g.guess_user, g.users.len());
}

/// Each round hands the guess on to the next player.
pub proof fn law_turns_go_round(g: GameView, word: Seq<char>)
    requires
        g.wf(),
        g.state == State::NextRound,
        g.accepts(EventView::Proceed),
    ensures
        ({
            let next = g.after(EventView::Proceed, word).0;
            &&& next.guess_user == player_after(g.guess_user, g.users.len())
            &&& next.decision_user == player_after(next.guess_user, g.users.len())
            &&& next.word_to_guess == word
            &&& next.state == State::WordSubmission
        }),
{
}

/// The verdict on the guess that `event` brings: losing the connection counts as a rejection.
pub open spec fn verdict(g: GameView, event: EventView) -> Option<bool> {
    if g.state != State::AcceptGuess {
        None
    } else {
        match event {
            EventView::Message(ClientMessageView::AcceptGuessResponse(i, accept)) => if i
                == g.decision_user {
                Some(accept)
            } else {
                None
            },
            EventView::Disconnected => Some(false),
            _ => None,
        }
    }
}

/// Whether `event` ends a round in which nothing was guessed.
pub open spec fn passed(g: GameView, event: EventView) -> bool {
    g.state == State::AcceptGuess && g.awaiting is Pause && event is Proceed && !g.guessed()
}

/// No event makes words or points out of nothing: what a word adds to the score it takes from the
/// words left. An accepted guess takes one word and brings a point, a rejected one takes two words
/// as far as there are two, a round without a guess takes one, and nothing else counts.
pub proof fn law_points_are_paid_with_words(g: GameView, event: EventView, word: Seq<char>)
    requires
        g.wf(),
        g.accepts(event),
    ensures
        ({
            let next = g.after(event, word).0;
            &&& next.score + next.words_left <= g.score + g.words_left
            &&& match verdict(g, event) {
                Some(true) => next.score == g.score + 1 && next.words_left == g.words_left - 1,
                Some(false) => next.score == g.score && next.words_left == (if g.words_left == 1 {
                    0
                } else {
                    g.words_left - 2
                }),
                None => next.score == g.score && next.words_left == (if passed(g, event) {
                    g.words_left - 1
                } else {
                    g.words_left as int
                }),
            }
        }),
{
}

/// Whether `event` ends a round.
pub open spec fn ends_round(g: GameView, event: EventView, word: Seq<char>) -> bool {
    g.state == State::AcceptGuess && g.after(event, word).0.state != State::AcceptGuess
}

/// A round that ends has used up a word, and the game is over exactly if it was the last.
pub proof fn law_rounds_use_up_words(g: GameView, event: EventView, word: Seq<char>)
    requires
        g.wf(),
        g.accepts(event),
        ends_round(g, event, word),
    ensures
        ({
            let next = g.after(event, word).0;
            &&& next.words_left < g.words_left
            &&& next.state == (if next.words_left == 0 {
                State::Finished
            } else {
                State::NextRound
            })
        }),
{
}

/// Events, each with the word that a round would be about if the event started one.
pub type Events = Seq<(EventView, Seq<char>)>;

/// The game after a series of events.
pub open spec fn run(g: GameView, events: Events) -> GameView
    decreases events.len(),
{
    if events.len() == 0 {
        g
    } else {
        run(g, events.drop_last()).after(events.last().0, events.last().1).0
    }
}

/// Whether the game is ready for each of the events when it happens.
pub open spec fn accepts_all(g: GameView, events: Events) -> bool
    decreases events.len(),
{
    events.len() > 0 ==> {
        &&& accepts_all(g, events.drop_last())
        &&& run(g, events.drop_last()).accepts(events.last().0)
    }
}

/// How many rounds end in the course of the events.
pub open spec fn rounds_ended(g: GameView, events: Events) -> nat
    decreases events.len(),
{
    if events.len() == 0 {
        0
    } else {
        rounds_ended(g, events.drop_last()) + (if ends_round(
            run(g, events.drop_last()),
            events.last().0,
            events.last().1,
        ) {
            1nat
        } else {
            0
        })
    }
}

/// The players at the table stay, in their order, and newcomers sit down behind them; only while
/// the game waits for players does anyone join.
pub proof fn law_players_keep_their_seats(g: GameView, event: EventView, word: Seq<char>)
    requires
        g.wf(),
        g.accepts(event),
    ensures
        ({
            let next = g.after(event, word).0;
            &&& g.users.len() <= next.users.len() <= g.users.len() + 1
            &&& next.users.len() > g.users.len() ==> g.state == State::WaitingForPlayers
            &&& forall|i: int|
                0 <= i < g.users.len() ==> (#[trigger] next.users[i]).name == g.users[i].name
        }),
{
}

/// Words bound points and rounds: a game scores at most one point in a round, uses up at least one
/// word and at most two, and so makes no more points and plays no more rounds than it had words at
/// the start. When it is over it has played at least half as many rounds as it had words.
pub proof fn law_words_bound_score_and_rounds(g: GameView, events: Events)
    requires
        g.wf(),
        accepts_all(g, events),
    ensures
        ({
            let now = run(g, events);
            let rounds = rounds_ended(g, events);
            &&& now.score + now.words_left <= g.score + g.words_left
            &&& g.score <= now.score <= g.score + rounds
            &&& rounds + now.words_left <= g.words_left <= 2 * rounds + now.words_left
            &&& g.state != State::Finished && now.state == State::Finished ==> now.words_left == 0
                && (g.words_left + 1) / 2 <= rounds <= g.words_left
        }),
    decreases events.len(),
{
    if events.len() > 0 {
        law_words_bound_score_and_rounds(g, events.drop_last());
    }
}

/// How many rounds start in the course of the events.
pub open spec fn rounds_started(g: GameView, events: Events) -> nat
    decreases events.len(),
{
    if events.len() == 0 {
        0
    } else {
        rounds_started(g, events.drop_last()) + (if run(g, events.drop_last()).draws(
            events.last().0,
        ) {
            1nat
        } else {
            0
        })
    }
}

/// The game has yet to begin, or is in its first round, which the first player guesses and the next
/// one decides. New games are like this.
pub open spec fn at_first(g: GameView) -> bool {
    &&& g.guess_user == 0
    &&& g.state == State::WaitingForPlayers || (g.state == State::WordSubmission && g.users.len()
        > 0 && g.decision_user == player_after(0, g.users.len()))
}

/// Over a whole game the turns go round the table: after `k` rounds have started, player `k % n` of
/// `n` guesses and the one after that player decides. So a game that waits for its players begins
/// with the second player, and round `k` after that one is guessed by player `(k + 1) % n`.
pub proof fn law_rounds_go_round_the_table(g: GameView, events: Events)
    requires
        at_first(g),
        accepts_all(g, events),
        0 < run(g, events).users.len() <= usize::MAX,
    ensures
        ({
            let now = run(g, events);
            let k = rounds_started(g, events);
            let n = now.users.len();
            &&& now.guess_user == k % n
            &&& k > 0 || g.state == State::WordSubmission ==> now.decision_user == (k + 1) % n
        }),
    decreases events.len(),
{
    let n = run(g, events).users.len();
    if events.len() == 0 {
        assert(0nat % n == 0) by (nonlinear_arith)
            requires
                n > 0,
        ;
        lemma_player_after_mod(0, n);
    } else {
        let before = run(g, events.drop_last());
        let k = rounds_started(g, events.drop_last());
        lemma_before_the_first_round(g, events.drop_last());
        if before.users.len() > 0 {
            law_rounds_go_round_the_table(g, events.drop_last());
        }
        if before.draws(events.last().0) {
            lemma_player_after_mod(k, n);
            lemma_player_after_mod(k + 1, n);
        } else if before.users.len() < n {
            assert(k == 0);
            assert(0nat % n == 0) by (nonlinear_arith)
                requires
                    n > 0,
            ;
        } else {
            assert(before.users.len() == n);
        }
    }
}

/// As long as a game waits for its players, the first player is to guess and no round has started.
proof fn lemma_before_the_first_round(g: GameView, events: Events)
    requires
        at_first(g),
        accepts_all(g, events),
    ensures
        run(g, events).state == State::WaitingForPlayers ==> rounds_started(g, events) == 0 && run(
            g,
            events,
        ).guess_user == 0,
        rounds_started(g, events) == 0 ==> run(g, events).guess_user == 0,
        g.state != State::WaitingForPlayers ==> run(g, events).state != State::WaitingForPlayers,
    decreases events.len(),
{
    if events.len() > 0 {
        lemma_before_the_first_round(g, events.drop_last());
    }
}

/// After the first `m` events, the last of which has started a round, it is the turn of `player`.
pub open spec fn gets_turn(g: GameView, events: Events, m: int, player: usize) -> bool {
    &&& 0 < m <= events.len()
    &&& run(g, events.take(m - 1)).draws(events[m - 1].0)
    &&& run(g, events.take(m)).guess_user == player
}

/// Everyone gets to guess: once as many rounds have started as there are players, every player has
/// had a turn.
pub proof fn law_everyone_gets_a_turn(g: GameView, events: Events, player: usize)
    requires
        at_first(g),
        accepts_all(g, events),
        player < run(g, events).users.len() <= usize::MAX,
        rounds_started(g, events) >= run(g, events).users.len(),
    ensures
        exists|m: int| gets_turn(g, events, m, player),
{
    let n = run(g, events).users.len();
    let k: nat = if player == 0 {
        n
    } else {
        player as nat
    };
    let m = lemma_round_starts(g, events, k);
    law_rounds_go_round_the_table(g, events.take(m));
    assert(k % n == player) by (nonlinear_arith)
        requires
            n > 0,
            (k == n && player == 0) || (k == player && k < n),
    ;
    assert(gets_turn(g, events, m, player));
}

/// Finds the event that starts round `k`.
proof fn lemma_round_starts(g: GameView, events: Events, k: nat) -> (m: int)
    requires
        at_first(g),
        accepts_all(g, events),
        0 < k <= rounds_started(g, events),
    ensures
        0 < m <= events.len(),
        accepts_all(g, events.take(m)),
        run(g, events.take(m - 1)).draws(events[m - 1].0),
        rounds_started(g, events.take(m)) == k,
        run(g, events.take(m)).users.len() == run(g, events).users.len(),
        run(g, events.take(m)).state != State::WaitingForPlayers,
        run(g, events).state != State::WaitingForPlayers,
    decreases events.len(),
{
    let rest = events.drop_last();
    if rounds_started(g, rest) >= k {
        let m = lemma_round_starts(g, rest, k);
        assert(rest.take(m) =~= events.take(m));
        assert(rest.take(m - 1) =~= events.take(m - 1));
        m
    } else {
        let m = events.len() as int;
        assert(events.take(m) =~= events);
        assert(events.take(m - 1) =~= rest);
        m
    }
}

/// The messages of a whole series of events, in order.
pub open spec fn said(g: GameView, events: Events) -> Seq<ServerMessageView>
    decreases events.len(),
{
    if events.len() == 0 {
        Seq::empty()
    } else {
        said(g, events.drop_last()) + run(g, events.drop_last()).after(
            events.last().0,
            events.last().1,
        ).1.messages
    }
}

/// The names that the messages tell `user`, in order.
pub open spec fn names_told(messages: Seq<ServerMessageView>, user: usize) -> Seq<Seq<char>>
    decreases messages.len(),
{
    if messages.len() == 0 {
        Seq::empty()
    } else {
        let before = names_told(messages.drop_last(), user);
        match messages.last() {
            ServerMessageView::UserAdded(to, name) => if to == user {
                before.push(name)
            } else {
                before
            },
            _ => before,
        }
    }
}

/// The names of the players, in the order of their seats.
pub open spec fn player_names(users: Seq<PlayerView>) -> Seq<Seq<char>> {
    Seq::new(users.len(), |i: int| users[i].name)
}

/// No player asks for the state of the game.
pub open spec fn nobody_asks(events: Events) -> bool {
    forall|k: int|
        0 <= k < events.len() ==> !((#[trigger] events[k]).0 matches EventView::Message(
            ClientMessageView::ResendGameState(_),
        ))
}

/// Everyone is told the name of every player once, in the order in which they joined: those who
/// were there before and those who came after. Only who asks for the state of the game is told
/// again.
pub proof fn law_everyone_is_told_all_names(g: GameView, events: Events, user: usize)
    requires
        g.users.len() == 0,
        accepts_all(g, events),
        nobody_asks(events),
        run(g, events).users.len() <= usize::MAX,
    ensures
        names_told(said(g, events), user) == (if user < run(g, events).users.len() {
            player_names(run(g, events).users)
        } else {
            Seq::empty()
        }),
    decreases events.len(),
{
    if events.len() > 0 {
        let rest = events.drop_last();
        let before = run(g, rest);
        let (now, out) = before.after(events.last().0, events.last().1);
        let n = before.users.len();
        assert forall|k: int| 0 <= k < rest.len() implies !((#[trigger] rest[k]).0 matches
            EventView::Message(ClientMessageView::ResendGameState(_))) by {
            assert(rest[k] == events[k]);
        }
        assert(events[events.len() - 1] == events.last());
        law_everyone_is_told_all_names(g, rest, user);
        lemma_names_told_sum(said(g, rest), out.messages, user);
        match events.last().0 {
            EventView::Message(ClientMessageView::NewPlayer(name)) => {
                if before.state == State::WaitingForPlayers {
                    lemma_names_told_on_joining(before.users, now.users, name, user);
                }
            },
            _ => {},
        }
        if now.users.len() == n {
            assert forall|k: int| 0 <= k < out.messages.len() implies !(
            #[trigger] out.messages[k] is UserAdded) by {}
            lemma_names_told_none(out.messages, user);
            assert(player_names(now.users) =~= player_names(before.users));
        }
    } else {
        assert(player_names(g.users) =~= Seq::empty());
    }
}

/// What two lists of messages tell one after the other.
pub proof fn lemma_names_told_sum(
    a: Seq<ServerMessageView>,
    b: Seq<ServerMessageView>,
    user: usize,
)
    ensures
        names_told(a + b, user) == names_told(a, user) + names_told(b, user),
    decreases b.len(),
{
    if b.len() == 0 {
        assert(a + b =~= a);
        assert(names_told(a, user) + names_told(b, user) =~= names_told(a, user));
    } else {
        lemma_names_told_sum(a, b.drop_last(), user);
        assert((a + b).drop_last() =~= a + b.drop_last());
        assert((a + b).last() == b.last());
        assert(names_told(a + b, user) =~= names_told(a, user) + names_told(b, user));
    }
}

/// Messages of other kinds tell no names.
pub proof fn lemma_names_told_none(messages: Seq<ServerMessageView>, user: usize)
    requires
        forall|k: int| 0 <= k < messages.len() ==> !(#[trigger] messages[k] is UserAdded),
    ensures
        names_told(messages, user) == Seq::<Seq<char>>::empty(),
    decreases messages.len(),
{
    if messages.len() > 0 {
        let rest = messages.drop_last();
        assert forall|k: int| 0 <= k < rest.len() implies !(#[trigger] rest[k] is UserAdded) by {
            assert(rest[k] == messages[k]);
        }
        lemma_names_told_none(rest, user);
        assert(messages[messages.len() - 1] == messages.last());
    }
}

/// A player who joins is told all names, and everyone else the new one.
pub proof fn lemma_names_told_on_joining(
    before: Seq<PlayerView>,
    now: Seq<PlayerView>,
    name: Seq<char>,
    user: usize,
)
    requires
        now.len() == before.len() + 1 <= usize::MAX,
        now.last().name == name,
        forall|i: int| 0 <= i < before.len() ==> (#[trigger] now[i]).name == before[i].name,
    ensures
        ({
            let messages = joined(before.len(), name) + roster(before.len() as usize, now);
            names_told(messages, user) == (if user < before.len() {
                seq![name]
            } else if user == before.len() {
                player_names(now)
            } else {
                Seq::empty()
            })
        }),
        player_names(now) == player_names(before).push(name),
{
    let n = before.len();
    lemma_names_told_sum(joined(n, name), roster(n as usize, now), user);
    lemma_names_told_joined(n, name, user);
    lemma_names_told_roster(n as usize, now, user);
    assert(player_names(now) =~= player_names(before).push(name));
    assert(names_told(joined(n, name), user) + names_told(roster(n as usize, now), user) =~= (
    if user < n {
        seq![name]
    } else if user == n {
        player_names(now)
    } else {
        Seq::empty()
    }));
}

proof fn lemma_names_told_joined(n: nat, name: Seq<char>, user: usize)
    requires
        n <= usize::MAX,
    ensures
        names_told(joined(n, name), user) == (if user < n {
            seq![name]
        } else {
            Seq::empty()
        }),
    decreases n,
{
    if n > 0 {
        lemma_names_told_joined((n - 1) as nat, name, user);
        assert(joined(n, name).drop_last() =~= joined((n - 1) as nat, name));
        assert(names_told(joined(n, name), user) =~= (if user < n {
            seq![name]
        } else {
            Seq::empty()
        }));
    }
}

proof fn lemma_names_told_roster(to: usize, users: Seq<PlayerView>, user: usize)
    ensures
        names_told(roster(to, users), user) == (if user == to {
            player_names(users)
        } else {
            Seq::empty()
        }),
    decreases users.len(),
{
    if users.len() > 0 {
        lemma_names_told_roster(to, users.drop_last(), user);
        assert(roster(to, users).drop_last() =~= roster(to, users.drop_last()));
        assert(player_names(users) =~= player_names(users.drop_last()).push(users.last().name));
    } else {
        assert(player_names(users) =~= Seq::empty());
    }
}

/// What happens to a game whose players are all gone.
pub open spec fn unattended(g: GameView) -> EventView {
    if g.awaiting is Message {
        EventView::Disconnected
    } else {
        EventView::Proceed
    }
}

/// The events are those of a game whose players are all gone.
pub open spec fn left_alone(g: GameView, events: Events) -> bool
    decreases events.len(),
{
    events.len() > 0 ==> {
        let before = run(g, events.drop_last());
        &&& left_alone(g, events.drop_last())
        &&& before.awaiting != Awaiting::Nothing
        &&& events.last().0 == unattended(before)
    }
}

/// How many steps a game can go on without players: at most twenty for each word that is left, and
/// some for the round it is in.
pub open spec fn stamina(g: GameView) -> nat {
    g.words_left as nat * 20 + match (g.state, g.awaiting) {
        (_, Awaiting::Nothing) => 0nat,
        (State::WaitingForPlayers, Awaiting::Turn) => 12,
        (State::WaitingForPlayers, _) => 11,
        (State::NextRound, _) => 10,
        (State::WordSubmission, Awaiting::Turn) => 9,
        (State::WordSubmission, _) => 8,
        (State::ManualDuplicateElimination, Awaiting::Turn) => 7,
        (State::ManualDuplicateElimination, _) => 6,
        (State::WordGuess, Awaiting::Turn) => 5,
        (State::WordGuess, _) => 4,
        (State::AcceptGuess, Awaiting::Turn) => 3,
        (State::AcceptGuess, Awaiting::Pause(_)) => 2,
        (State::AcceptGuess, Awaiting::Message) => 1,
        (State::Finished, _) => 1,
    }
}

/// A game whose players are all gone, once there were two, comes to an end: it does not get stuck,
/// and it goes through no more steps than its stamina allows.
pub proof fn law_abandoned_games_end(g: GameView, events: Events)
    requires
        in_play(g),
        2 <= g.users.len(),
        left_alone(g, events),
    ensures
        accepts_all(g, events),
        in_play(run(g, events)),
        run(g, events).awaiting != Awaiting::Nothing ==> run(g, events).accepts(
            unattended(run(g, events)),
        ),
        events.len() + stamina(run(g, events)) <= stamina(g),
    decreases events.len(),
{
    if events.len() > 0 {
        let before = run(g, events.drop_last());
        law_abandoned_games_end(g, events.drop_last());
        lemma_seats_stay(g, events.drop_last());
        law_games_in_play_never_get_stuck(before, events.last().0);
        law_games_stay_in_play(before, events.last().0, events.last().1);
        lemma_stamina(before, events.last().1);
    }
    let now = run(g, events);
    if now.awaiting != Awaiting::Nothing {
        law_games_in_play_never_get_stuck(now, unattended(now));
    }
}

/// Nobody joins a game that is left alone.
proof fn lemma_seats_stay(g: GameView, events: Events)
    requires
        left_alone(g, events),
    ensures
        run(g, events).users.len() == g.users.len(),
    decreases events.len(),
{
    if events.len() > 0 {
        lemma_seats_stay(g, events.drop_last());
    }
}

/// Every step takes something off the stamina.
proof fn lemma_stamina(g: GameView, word: Seq<char>)
    requires
        in_play(g),
        g.awaiting != Awaiting::Nothing,
        g.accepts(unattended(g)),
    ensures
        stamina(g.after(unattended(g), word).0) < stamina(g),
{
}

/// The messages of `messages` that are meant for `user`.
pub open spec fn addressed_to(messages: Seq<ServerMessageView>, user: usize) -> Seq<
    ServerMessageView,
> {
    messages.filter(|m: ServerMessageView| m.recipient() == user)
}

proof fn lemma_addressed_push(messages: Seq<ServerMessageView>, m: ServerMessageView, user: usize)
    ensures
        addressed_to(messages.push(m), user) == (if m.recipient() == user {
            addressed_to(messages, user).push(m)
        } else {
            addressed_to(messages, user)
        }),
{
    reveal(Seq::filter);
    assert(messages.push(m).drop_last() =~= messages);
}

proof fn lemma_addressed_none(messages: Seq<ServerMessageView>, user: usize)
    requires
        forall|i: int| 0 <= i < messages.len() ==> (#[trigger] messages[i]).recipient() != user,
    ensures
        addressed_to(messages, user) == Seq::<ServerMessageView>::empty(),
    decreases messages.len(),
{
    reveal(Seq::filter);
    if messages.len() > 0 {
        lemma_addressed_none(messages.drop_last(), user);
        assert(messages.last().recipient() != user);
    }
}

proof fn lemma_addressed_one(messages: Seq<ServerMessageView>, p: int, user: usize)
    requires
        0 <= p < messages.len(),
        messages[p].recipient() == user,
        forall|i: int|
            0 <= i < messages.len() && i != p ==> (#[trigger] messages[i]).recipient() != user,
    ensures
        addressed_to(messages, user) == seq![messages[p]],
    decreases messages.len(),
{
    reveal(Seq::filter);
    let rest = messages.drop_last();
    if p == messages.len() - 1 {
        lemma_addressed_none(rest, user);
        assert(addressed_to(messages, user) =~= seq![messages[p]]);
    } else {
        lemma_addressed_one(rest, p, user);
        assert(messages.last().recipient() != user);
    }
}

proof fn lemma_nothing_submitted(user: usize, users: Seq<PlayerView>)
    ensures
        submissions_so_far(user, cleared(users)) == Seq::<ServerMessageView>::empty(),
    decreases users.len(),
{
    if users.len() > 0 {
        lemma_nothing_submitted(user, users.drop_last());
        assert(cleared(users).drop_last() =~= cleared(users.drop_last()));
    }
}

/// A player who asks for the state of the game when a round or one of its stages has just begun
/// is told what that player was told when it began.
pub proof fn law_rejoining_players_are_told_the_same(g: GameView, user: usize, word: Seq<char>)
    requires
        g.wf(),
        g.awaiting == Awaiting::Turn,
        g.accepts(EventView::Proceed),
        g.state != State::WaitingForPlayers,
        g.state != State::AcceptGuess,
        g.state != State::Finished,
        user < g.users.len(),
        g.guess_user < g.users.len(),
    ensures
        ({
            let (next, out) = g.after(EventView::Proceed, word);
            addressed_to(out.messages, user) == if g.state == State::NextRound {
                next.round_shown(user)
            } else {
                next.stage_shown(user)
            }
        }),
{
    let (next, out) = g.after(EventView::Proceed, word);
    let n = g.users.len();
    match g.state {
        State::NextRound => {
            lemma_addressed_one(out.messages, user as int, user);
        },
        State::WordSubmission => {
            lemma_nothing_submitted(user, g.users);
            if user == g.guess_user {
                lemma_addressed_none(out.messages, user);
            } else {
                lemma_addressed_one(
                    out.messages,
                    if user < g.guess_user {
                        user as int
                    } else {
                        user - 1
                    },
                    user,
                );
            }
            assert(addressed_to(out.messages, user) =~= next.stage_shown(user));
        },
        State::ManualDuplicateElimination => {
            let shown = out.messages.drop_last();
            if user == g.guess_user {
                lemma_addressed_none(shown, user);
            } else {
                lemma_addressed_one(
                    shown,
                    if user < g.guess_user {
                        user as int
                    } else {
                        user - 1
                    },
                    user,
                );
            }
            lemma_addressed_push(shown, out.messages.last(), user);
            assert(out.messages =~= shown.push(out.messages.last()));
            assert(addressed_to(out.messages, user) =~= next.stage_shown(user));
        },
        State::WordGuess => {
            let shown = out.messages.drop_last();
            lemma_addressed_one(shown, user as int, user);
            lemma_addressed_push(shown, out.messages.last(), user);
            assert(out.messages =~= shown.push(out.messages.last()));
            assert(addressed_to(out.messages, user) =~= next.stage_shown(user));
        },
        _ => {},
    }
}

/// The same for the last stage, which begins in two steps when there is a guess to judge: the
/// overview, and after a pause the question to the deciding player.
pub proof fn law_rejoining_players_are_told_the_same_about_the_guess(g: GameView, user: usize)
    requires
        g.wf(),
        g.state == State::AcceptGuess,
        g.awaiting == Awaiting::Turn,
        g.accepts(EventView::Proceed),
        g.guessed(),
        user < g.users.len(),
    ensures
        ({
            let (shown, overview) = g.after(EventView::Proceed, Seq::empty());
            let (next, question) = shown.after(EventView::Proceed, Seq::empty());
            &&& shown.accepts(EventView::Proceed)
            &&& next.awaiting == Awaiting::Message
            &&& addressed_to(overview.messages, user) + addressed_to(question.messages, user)
                == next.stage_shown(user)
        }),
{
    let (shown, overview) = g.after(EventView::Proceed, Seq::empty());
    let (next, question) = shown.after(EventView::Proceed, Seq::empty());
    lemma_addressed_one(overview.messages, user as int, user);
    if user == g.decision_user {
        lemma_addressed_one(question.messages, 0, user);
    } else {
        lemma_addressed_none(question.messages, user);
    }
    assert(addressed_to(overview.messages, user) + addressed_to(question.messages, user)
        =~= next.stage_shown(user));
}

/// A player who joins is told the same as one who asks for the state of the game after that.
pub proof fn law_newcomers_are_told_the_state(g: GameView, name: Seq<char>)
    requires
        g.wf(),
        g.state == State::WaitingForPlayers,
        g.awaiting == Awaiting::Message,
        g.users.len() < usize::MAX,
    ensures
        ({
            let (next, out) = g.receive(ClientMessageView::NewPlayer(name));
            let seat = g.users.len() as usize;
            addressed_to(out.messages, seat) == next.full_state(seat)
        }),
{
    let (next, out) = g.receive(ClientMessageView::NewPlayer(name));
    let n = g.users.len();
    let seat = n as usize;
    assert(out.messages.skip(n as int) =~= next.full_state(seat));
    lemma_addressed_suffix(out.messages, n as int, seat);
}

proof fn lemma_addressed_suffix(messages: Seq<ServerMessageView>, k: int, user: usize)
    requires
        0 <= k <= messages.len(),
        forall|i: int| 0 <= i < k ==> (#[trigger] messages[i]).recipient() != user,
        forall|i: int| k <= i < messages.len() ==> (#[trigger] messages[i]).recipient() == user,
    ensures
        addressed_to(messages, user) == messages.skip(k),
    decreases messages.len(),
{
    reveal(Seq::filter);
    if k == messages.len() {
        lemma_addressed_none(messages, user);
        assert(messages.skip(k) =~= Seq::empty());
    } else {
        lemma_addressed_suffix(messages.drop_last(), k, user);
        assert(messages.last().recipient() == user);
        assert(messages.skip(k) =~= messages.drop_last().skip(k).push(messages.last()));
    }
}

/// The message tells the word, or a hint that may have been stricken.
pub open spec fn gives_away(m: ServerMessageView) -> bool {
    m is WordSubmissionRequest || m is ShowWords || m is ShowRoundOverview
}

/// Until the guess is in, the guessing player is told neither the word nor the hints that were
/// stricken, not even on asking for the state of the game.
pub proof fn law_guesser_is_kept_in_the_dark(g: GameView, event: EventView, word: Seq<char>, k: int)
    requires
        g.wf(),
        g.accepts(event),
        0 <= k < g.after(event, word).1.messages.len(),
    ensures
        ({
            let (next, out) = g.after(event, word);
            gives_away(out.messages[k]) && out.messages[k].recipient() == next.guess_user
                ==> g.state == State::AcceptGuess
        }),
{
    if g.state == State::WordSubmission {
        match event {
            EventView::Message(ClientMessageView::ResendGameState(i)) => {
                lemma_submissions_give_nothing_away(i, g.users);
            },
            _ => {},
        }
    }
}

proof fn lemma_submissions_give_nothing_away(user: usize, users: Seq<PlayerView>)
    ensures
        forall|i: int|
            0 <= i < submissions_so_far(user, users).len() ==> (#[trigger] submissions_so_far(
                user,
                users,
            )[i]) is WordSubmitted,
    decreases users.len(),
{
    if users.len() > 0 {
        lemma_submissions_give_nothing_away(user, users.drop_last());
    }
}

/// No two of the words differ only in case.
pub open spec fn distinct_words(words: Seq<Option<Seq<char>>>) -> bool {
    forall|i: int, j: int|
        #![trigger words[i], words[j]]
        0 <= i < words.len() && 0 <= j < words.len() && i != j && words[i] is Some
            && words[j] is Some ==> !same_ignoring_case(words[i]->0, words[j]->0)
}

/// Once the duplicates have been stricken, the hints left are distinct.
pub open spec fn hints_sifted(g: GameView) -> bool {
    (g.state == State::ManualDuplicateElimination && g.awaiting != Awaiting::Turn) || g.state
        == State::WordGuess ==> distinct_words(filtered_words(g.users))
}

/// The hints that are shown to the guessing player are distinct: every game starts out with
/// `hints_sifted`, every event keeps it, and it covers what is shown.
pub proof fn law_shown_hints_are_distinct(g: GameView, event: EventView, word: Seq<char>, k: int)
    requires
        g.wf(),
        hints_sifted(g),
        g.accepts(event),
    ensures
        ({
            let (next, out) = g.after(event, word);
            &&& hints_sifted(next)
            &&& 0 <= k < out.messages.len() ==> (out.messages[k] matches
                ServerMessageView::ShowFilteredWords(_, words) ==> distinct_words(words))
        }),
{
    let (next, out) = g.after(event, word);
    match g.state {
        State::WordSubmission => {
            match event {
                EventView::Message(ClientMessageView::ResendGameState(i)) => {
                    lemma_submissions_give_nothing_away(i, g.users);
                },
                _ => {},
            }
        },
        State::ManualDuplicateElimination => {
            match event {
                EventView::Proceed => {
                    let words = filtered_words(next.users);
                    assert forall|i: int, j: int|
                        #![trigger words[i], words[j]]
                        0 <= i < words.len() && 0 <= j < words.len() && i != j && words[i] is Some
                            && words[j] is Some implies !same_ignoring_case(
                        words[i]->0,
                        words[j]->0,
                    ) by {
                        crate::players::law_filtered_words_are_distinct(g.users, i, j);
                    }
                },
                EventView::Message(_) => {
                    let words = filtered_words(next.users);
                    let before = filtered_words(g.users);
                    assert forall|i: int, j: int|
                        #![trigger words[i], words[j]]
                        0 <= i < words.len() && 0 <= j < words.len() && i != j && words[i] is Some
                            && words[j] is Some implies !same_ignoring_case(
                        words[i]->0,
                        words[j]->0,
                    ) by {
                        assert(before[i] == words[i]);
                        assert(before[j] == words[j]);
                    }
                },
                _ => {},
            }
        },
        _ => {},
    }
}

/// The hints are complete before they are compared: a message moves the game on from collecting
/// them only when everyone but the guessing player has submitted one.
pub proof fn law_all_hints_are_awaited(g: GameView, m: ClientMessageView)
    requires
        g.wf(),
        g.state == State::WordSubmission,
        g.accepts(EventView::Message(m)),
    ensures
        ({
            let next = g.receive(m).0;
            next.state != State::WordSubmission ==> next.state == State::ManualDuplicateElimination
                && all_submitted(next.users, next.guess_user as int)
        }),
{
}

/// A message starts a game only if there are two players.
pub proof fn law_two_players_start_a_game(g: GameView, m: ClientMessageView)
    requires
        g.wf(),
        g.state == State::WaitingForPlayers,
        g.accepts(EventView::Message(m)),
        g.receive(m).0.state != State::WaitingForPlayers,
    ensures
        m is StartGame,
        g.users.len() >= 2,
{
}

/// The message answers what the game has asked for, by the player it has asked.
pub open spec fn called_for(g: GameView, m: ClientMessageView) -> bool {
    match m {
        ClientMessageView::ResendGameState(_) => true,
        ClientMessageView::StopGame => true,
        ClientMessageView::StartGame => g.state == State::WaitingForPlayers && g.users.len() > 1,
        ClientMessageView::NewPlayer(_) => g.state == State::WaitingForPlayers,
        ClientMessageView::WordSubmissionResponse(i, _) => g.state == State::WordSubmission && i
            != g.guess_user,
        ClientMessageView::ManualDuplicateEliminationResponse(i, _) => g.state
            == State::ManualDuplicateElimination && i == g.decision_user,
        ClientMessageView::WordGuessResponse(i, _) => g.state == State::WordGuess && i
            == g.guess_user,
        ClientMessageView::AcceptGuessResponse(i, _) => g.state == State::AcceptGuess && i
            == g.decision_user,
    }
}

/// Other messages change nothing and are answered with nothing.
pub proof fn law_uncalled_messages_are_ignored(g: GameView, m: ClientMessageView)
    requires
        !called_for(g, m),
    ensures
        g.receive(m) == (g, silence()),
{
}

/// Asking for the state of the game does not change it.
pub proof fn law_asking_changes_nothing(g: GameView, user: usize)
    ensures
        g.receive(ClientMessageView::ResendGameState(user)).0 == g,
{
}

/// A game that was stopped, or has told the final score, is ready for nothing any more.
pub proof fn law_ended_games_stay_ended(g: GameView, event: EventView)
    requires
        g.awaiting == Awaiting::Nothing,
    ensures
        !g.accepts(event),
{
}

/// A game that cannot send a message it depends on ends, wherever it is. It keeps its points and
/// words, its players keep their names, and at most a newcomer has sat down.
pub proof fn law_failed_sends_end_the_game(g: GameView, event: EventView, k: int)
    requires
        g.wf(),
        g.accepts(event),
        g.outbox(event).required,
        0 <= k < g.outbox(event).messages.len(),
    ensures
        ({
            let ended = g.interrupted(event, k);
            &&& ended.awaiting == Awaiting::Nothing
            &&& forall|next: EventView| !ended.accepts(next)
            &&& ended.state == g.state
            &&& ended.score == g.score && ended.words_left == g.words_left
            &&& g.users.len() <= ended.users.len() <= g.users.len() + 1
            &&& forall|i: int|
                0 <= i < g.users.len() ==> (#[trigger] ended.users[i]).name == g.users[i].name
        }),
{
}

/// Stopping ends a game that awaits a message, whatever its state, and says nothing.
pub proof fn law_stopping_ends_the_game(g: GameView)
    requires
        g.awaiting == Awaiting::Message,
    ensures
        g.accepts(EventView::Message(ClientMessageView::StopGame)),
        g.receive(ClientMessageView::StopGame).0.awaiting == Awaiting::Nothing,
        g.receive(ClientMessageView::StopGame).1 == silence(),
{
}

} // verus!
