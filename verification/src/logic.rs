//! A variant of the game in which every player has a channel of their own.
use vstd::prelude::*;

pub use crate::cli::JustOneCLI;
pub use crate::messages::ServerMessage;

use crate::announce::announce_filtered_shown;
use crate::announce::announce_finished;
use crate::announce::announce_hints_asked;
use crate::announce::announce_joined;
use crate::announce::announce_overview_shown;
use crate::announce::announce_roster;
use crate::announce::announce_round_started;
use crate::announce::announce_submission_noted;
use crate::announce::announce_words_shown;
use crate::announce::filtered_shown;
use crate::announce::finished;
use crate::announce::hints_asked;
use crate::announce::joined;
use crate::announce::overview_shown;
use crate::announce::roster;
use crate::announce::round_started;
use crate::announce::submission_noted;
use crate::announce::words_shown;
use crate::chance::draw_word;
use crate::chance::vocabulary;
use crate::justone::Awaiting;
use crate::cli::Command;
use crate::cli::CommandView;
use crate::messages::messages_view;
use crate::messages::ServerMessageView;
use crate::players::all_below;
use crate::players::all_submitted;
use crate::players::clear_words;
use crate::players::cleared;
use crate::players::duplicates_stricken;
use crate::players::everyone_submitted;
use crate::players::filtered_words;
use crate::players::number_players;
use crate::players::numbered_players;
use crate::players::players_view;
use crate::players::put_word;
use crate::players::shown_words;
use crate::players::strike;
use crate::players::strike_duplicates;
use crate::players::stricken;
use crate::players::text_view;
use crate::players::with_word;
use crate::players::Player;
use crate::players::PlayerView;
use crate::rounds::judge;
use crate::rounds::next_player;
use crate::rounds::player_after;
use crate::rounds::score_after;
use crate::rounds::words_after;
use crate::rounds::DEFAULT_WORD_COUNT;
use crate::rounds::PASS_PAUSE;
use crate::rounds::VERDICT_PAUSE;

verus! {

/// What the game is busy with.
#[derive(Debug, Clone, Copy, PartialEq, Eq, Structural)]
pub enum State {
    WaitingForPlayers,
    /// Everyone but the guessing player submits a hint.
    WordSubmission,
    /// The deciding player strikes hints.
    ManualDuplicateElimination,
    /// The current player guesses.
    WordGuess,
    /// The guess is shown and judged.
    AcceptGuess,
    Finished,
}

/// A player, and the number of the channel on which the player is reached.
#[derive(Debug, PartialEq)]
pub struct User {
    pub name: String,
    pub word_guess: Option<String>,
    pub word_stricken: bool,
    pub channel_out: u64,
}

/// The mathematical content of a [`User`].
pub struct UserView {
    pub player: PlayerView,
    pub channel_out: u64,
}

impl View for User {
    type V = UserView;

    open spec fn view(&self) -> UserView {
        UserView {
            player: PlayerView {
                name: self.name@,
                word_guess: text_view(self.word_guess),
                word_stricken: self.word_stricken,
            },
            channel_out: self.channel_out,
        }
    }
}

/// A message of a player to the game.
#[derive(Debug, PartialEq)]
pub enum ClientMessage {
    NewPlayer(User),
    StartGame,
    ResendGameState(usize),
    WordSubmissionResponse(usize, String),
    ManualDuplicateEliminationResponse(usize, Vec<usize>),
    WordGuessResponse(usize, String),
    AcceptGuessResponse(usize, bool),
}

/// The mathematical content of a [`ClientMessage`].
pub enum ClientMessageView {
    NewPlayer(UserView),
    StartGame,
    ResendGameState(usize),
    WordSubmissionResponse(usize, Seq<char>),
    ManualDuplicateEliminationResponse(usize, Seq<usize>),
    WordGuessResponse(usize, Seq<char>),
    AcceptGuessResponse(usize, bool),
}

impl View for ClientMessage {
    type V = ClientMessageView;

    open spec fn view(&self) -> ClientMessageView {
        match self {
            ClientMessage::NewPlayer(user) => ClientMessageView::NewPlayer(user@),
            ClientMessage::StartGame => ClientMessageView::StartGame,
            ClientMessage::ResendGameState(i) => ClientMessageView::ResendGameState(*i),
            ClientMessage::WordSubmissionResponse(i, word) =>
                ClientMessageView::WordSubmissionResponse(*i, word@),
            ClientMessage::ManualDuplicateEliminationResponse(i, remove) =>
                ClientMessageView::ManualDuplicateEliminationResponse(*i, remove@),
            ClientMessage::WordGuessResponse(i, word) => ClientMessageView::WordGuessResponse(
                *i,
                word@,
            ),
            ClientMessage::AcceptGuessResponse(i, accept) =>
                ClientMessageView::AcceptGuessResponse(*i, *accept),
        }
    }
}

impl ClientMessage {
    /// The message that a typed command stands for.
    pub open spec fn of_command(command: CommandView) -> ClientMessageView {
        match command {
            CommandView::WordSubmissionResponse(i, word) =>
                ClientMessageView::WordSubmissionResponse(i, word),
            CommandView::AcceptGuessResponse(i, accept) =>
                ClientMessageView::AcceptGuessResponse(i, accept),
            CommandView::WordGuessResponse(i, word) => ClientMessageView::WordGuessResponse(
                i,
                word,
            ),
            CommandView::ResendGameState(i) => ClientMessageView::ResendGameState(i),
            CommandView::ManualDuplicateEliminationResponse(i, ids) =>
                ClientMessageView::ManualDuplicateEliminationResponse(i, ids),
        }
    }

    /// Makes the message that a typed command stands for.
    pub fn from_command(command: Command) -> (r: ClientMessage)
        ensures
            r@ == Self::of_command(command@),
    {
        match command {
            Command::WordSubmissionResponse(i, word) => ClientMessage::WordSubmissionResponse(
                i,
                word,
            ),
            Command::AcceptGuessResponse(i, accept) => ClientMessage::AcceptGuessResponse(
                i,
                accept,
            ),
            Command::WordGuessResponse(i, word) => ClientMessage::WordGuessResponse(i, word),
            Command::ResendGameState(i) => ClientMessage::ResendGameState(i),
            Command::ManualDuplicateEliminationResponse(i, ids) =>
                ClientMessage::ManualDuplicateEliminationResponse(i, ids),
        }
    }
}

/// What can happen to a game.
#[derive(Debug, PartialEq)]
pub enum Event {
    /// It is the game's turn, or the pause it asked for is over.
    Proceed,
    /// A message has arrived.
    Message(ClientMessage),
    /// No further message can arrive.
    Disconnected,
}

/// The mathematical content of an [`Event`].
pub enum EventView {
    Proceed,
    Message(ClientMessageView),
    Disconnected,
}

impl View for Event {
    type V = EventView;

    open spec fn view(&self) -> EventView {
        match self {
            Event::Proceed => EventView::Proceed,
            Event::Message(m) => EventView::Message(m@),
            Event::Disconnected => EventView::Disconnected,
        }
    }
}

/// A message on its way to a player.
#[derive(Debug, PartialEq)]
pub struct Delivery {
    pub channel: u64,
    pub message: ServerMessage,
}

/// The mathematical content of a [`Delivery`].
#[verifier::ext_equal]
pub struct DeliveryView {
    pub channel: u64,
    pub message: ServerMessageView,
}

impl View for Delivery {
    type V = DeliveryView;

    open spec fn view(&self) -> DeliveryView {
        DeliveryView { channel: self.channel, message: self.message@ }
    }
}

/// The content of a list of deliveries.
pub open spec fn deliveries_view(deliveries: Seq<Delivery>) -> Seq<DeliveryView> {
    Seq::new(deliveries.len(), |i: int| deliveries[i]@)
}

/// Sends every message on the channel of the player it is meant for.
pub open spec fn delivered(channels: Seq<u64>, messages: Seq<ServerMessageView>) -> Seq<
    DeliveryView,
> {
    Seq::new(
        messages.len(),
        |i: int|
            DeliveryView {
                channel: channels[messages[i].recipient() as int],
                message: messages[i],
            },
    )
}

/// The mathematical content of a [`Logic`].
#[verifier::ext_equal]
pub struct LogicView {
    pub state: State,
    pub awaiting: Awaiting,
    pub current_user: usize,
    pub decision_user: usize,
    pub word_to_guess: Seq<char>,
    pub users: Seq<PlayerView>,
    pub channels: Seq<u64>,
    pub words: Seq<Seq<char>>,
    pub score: usize,
    pub words_left: usize,
}

impl LogicView {
    /// Every player has a channel, and the counters are in range.
    pub open spec fn wf(self) -> bool {
        &&& self.users.len() == self.channels.len() <= usize::MAX
        &&& self.current_user < self.users.len() || self.current_user == 0
        &&& self.score + self.words_left <= usize::MAX
    }

    /// The game has its turn in state `state`.
    pub open spec fn moved_to(self, state: State) -> LogicView {
        LogicView { state, awaiting: Awaiting::Turn, ..self }
    }

    /// The current player has put down a guess.
    pub open spec fn guessed(self) -> bool {
        self.users[self.current_user as int].word_guess is Some
    }

    /// The start of a round about `word`, and its announcement.
    pub open spec fn round_begun(self, word: Seq<char>) -> (LogicView, Seq<ServerMessageView>) {
        (
            LogicView { word_to_guess: word, ..self }.moved_to(State::WordSubmission),
            round_started(
                self.users.len(),
                self.current_user,
                self.decision_user,
                self.score,
                self.words_left,
            ),
        )
    }

    /// The game after a round that brought it to `score` and `words_left`: it is over, or the
    /// next player guesses `word`.
    pub open spec fn settled(self, score: usize, words_left: usize, word: Seq<char>) -> (
        LogicView,
        Seq<ServerMessageView>,
    ) {
        let done = LogicView { score, words_left, ..self };
        if words_left == 0 {
            (done.moved_to(State::Finished), Seq::empty())
        } else {
            let n = self.users.len();
            let current_user = player_after(self.current_user, n);
            LogicView {
                current_user,
                decision_user: player_after(current_user, n),
                ..done
            }.round_begun(word)
        }
    }

    /// The game after the guess was judged.
    pub open spec fn judged(self, accepted: bool, word: Seq<char>) -> (
        LogicView,
        Seq<ServerMessageView>,
    ) {
        self.settled(
            score_after(self.score, accepted),
            words_after(self.words_left, accepted),
            word,
        )
    }

    /// The hints that are left go to everyone, and the guess is next.
    pub open spec fn hints_settled(self) -> (LogicView, Seq<ServerMessageView>) {
        (
            self.moved_to(State::WordGuess),
            filtered_shown(self.users.len(), filtered_words(self.users)),
        )
    }

    /// The overview of the round goes to everyone, and stays up for a while.
    pub open spec fn guess_shown(self) -> (LogicView, Seq<ServerMessageView>) {
        let pause = if self.guessed() {
            VERDICT_PAUSE
        } else {
            PASS_PAUSE
        };
        (
            LogicView {
                state: State::AcceptGuess,
                awaiting: Awaiting::Pause(pause),
                ..self
            },
            overview_shown(self.users.len(), self.word_to_guess, shown_words(self.users)),
        )
    }

    /// What the game does when it is its turn, or the pause is over.
    pub open spec fn proceed(self, word: Seq<char>) -> (LogicView, Seq<ServerMessageView>) {
        let n = self.users.len();
        let ready = LogicView { awaiting: Awaiting::Message, ..self };
        match self.state {
            State::WaitingForPlayers => (ready, Seq::empty()),
            State::WordSubmission => {
                (
                    LogicView { users: cleared(self.users), ..ready },
                    hints_asked(n, self.current_user, self.word_to_guess),
                )
            },
            State::ManualDuplicateElimination => {
                let users = duplicates_stricken(self.users);
                (
                    LogicView { users, ..ready },
                    words_shown(n, self.current_user, shown_words(users)).push(
                        ServerMessageView::ManualDuplicateEliminationRequest(self.decision_user),
                    ),
                )
            },
            State::WordGuess => {
                (ready, seq![ServerMessageView::WordGuessRequest(self.current_user)])
            },
            State::AcceptGuess => {
                if self.guessed() {
                    (ready, seq![ServerMessageView::AcceptGuessRequest(self.decision_user)])
                } else {
                    self.settled(self.score, (self.words_left - 1) as usize, word)
                }
            },
            State::Finished => {
                (LogicView { awaiting: Awaiting::Nothing, ..self }, finished(n, self.score))
            },
        }
    }

    /// What the game does on a message.
    pub open spec fn receive(self, m: ClientMessageView, word: Seq<char>) -> (
        LogicView,
        Seq<ServerMessageView>,
    ) {
        let n = self.users.len();
        match (m, self.state) {
            (ClientMessageView::StartGame, State::WaitingForPlayers) if n > 1 => {
                self.round_begun(word)
            },
            (ClientMessageView::NewPlayer(user), State::WaitingForPlayers) => {
                let users = self.users.push(user.player);
                (
                    LogicView { users, channels: self.channels.push(user.channel_out), ..self },
                    joined(n, user.player.name) + roster(n as usize, users),
                )
            },
            (
                ClientMessageView::WordSubmissionResponse(i, hint),
                State::WordSubmission,
            ) if i != self.current_user => {
                let next = LogicView {
                    users: with_word(self.users, i as int, Some(hint)),
                    ..self
                };
                if all_submitted(next.users, self.current_user as int) {
                    (next.moved_to(State::ManualDuplicateElimination), Seq::empty())
                } else {
                    (next, submission_noted(n, i, i))
                }
            },
            (
                ClientMessageView::ManualDuplicateEliminationResponse(i, remove),
                State::ManualDuplicateElimination,
            ) if i == self.decision_user => {
                LogicView { users: stricken(self.users, remove), ..self }.hints_settled()
            },
            (
                ClientMessageView::WordGuessResponse(i, guess),
                State::WordGuess,
            ) if i == self.current_user => {
                LogicView {
                    users: with_word(
                        self.users,
                        i as int,
                        if guess.len() == 0 {
                            None
                        } else {
                            Some(guess)
                        },
                    ),
                    ..self
                }.guess_shown()
            },
            (
                ClientMessageView::AcceptGuessResponse(i, accept),
                State::AcceptGuess,
            ) if i == self.decision_user => { self.judged(accept, word) },
            _ => (self, Seq::empty()),
        }
    }

    /// What the game does when no further message can arrive: it goes on without.
    pub open spec fn disconnect(self, word: Seq<char>) -> (LogicView, Seq<ServerMessageView>) {
        match self.state {
            State::WaitingForPlayers => self.round_begun(word),
            State::WordSubmission => {
                (self.moved_to(State::ManualDuplicateElimination), Seq::empty())
            },
            State::ManualDuplicateElimination => self.hints_settled(),
            State::WordGuess => self.guess_shown(),
            State::AcceptGuess => self.judged(false, word),
            State::Finished => (self, Seq::empty()),
        }
    }

    /// The game after `event`, and the messages to send. A new round is about `word`.
    pub open spec fn after(self, event: EventView, word: Seq<char>) -> (
        LogicView,
        Seq<ServerMessageView>,
    ) {
        match event {
            EventView::Proceed => self.proceed(word),
            EventView::Message(m) => self.receive(m, word),
            EventView::Disconnected => self.disconnect(word),
        }
    }

    /// Whether the round that leaves so many words is followed by another.
    pub open spec fn can_settle(self, words_left: int) -> bool {
        words_left > 0 ==> self.users.len() > 0 && self.words.len() > 0
    }

    /// Whether `event` starts a round, for which a word is drawn.
    pub open spec fn draws(self, event: EventView) -> bool {
        match event {
            EventView::Proceed => {
                self.state == State::AcceptGuess && !self.guessed() && self.words_left > 1
            },
            EventView::Message(ClientMessageView::StartGame) => {
                self.state == State::WaitingForPlayers && self.users.len() > 1
            },
            EventView::Message(ClientMessageView::AcceptGuessResponse(i, accept)) => {
                self.state == State::AcceptGuess && i == self.decision_user && words_after(
                    self.words_left,
                    accept,
                ) > 0
            },
            EventView::Message(_) => false,
            EventView::Disconnected => {
                self.state == State::WaitingForPlayers || (self.state == State::AcceptGuess
                    && words_after(self.words_left, false) > 0)
            },
        }
    }

    /// Whether the game is ready for `event`: it awaits such an event, the players that the event
    /// names exist, and there are players and words where the game needs them.
    pub open spec fn accepts(self, event: EventView) -> bool {
        let n = self.users.len();
        match event {
            EventView::Proceed => {
                match (self.awaiting, self.state) {
                    (Awaiting::Turn, State::ManualDuplicateElimination) => self.decision_user < n,
                    (Awaiting::Turn, State::WordGuess) => self.current_user < n,
                    (Awaiting::Turn, State::AcceptGuess) => false,
                    (Awaiting::Turn, _) => true,
                    (Awaiting::Pause(_), State::AcceptGuess) => {
                        self.current_user < n && if self.guessed() {
                            self.decision_user < n
                        } else {
                            self.words_left >= 1 && self.can_settle(self.words_left - 1)
                        }
                    },
                    _ => false,
                }
            },
            EventView::Disconnected => {
                self.awaiting == Awaiting::Message && match self.state {
                    State::WaitingForPlayers => self.words.len() > 0,
                    State::WordGuess => self.current_user < n,
                    State::AcceptGuess => {
                        self.words_left >= 1 && self.can_settle(
                            words_after(self.words_left, false) as int,
                        )
                    },
                    _ => true,
                }
            },
            EventView::Message(m) => {
                self.awaiting == Awaiting::Message && match (m, self.state) {
                    (ClientMessageView::StartGame, State::WaitingForPlayers) => {
                        n > 1 ==> self.words.len() > 0
                    },
                    (
                        ClientMessageView::WordSubmissionResponse(i, _),
                        State::WordSubmission,
                    ) => i != self.current_user ==> i < n,
                    (
                        ClientMessageView::ManualDuplicateEliminationResponse(i, remove),
                        State::ManualDuplicateElimination,
                    ) => {
                        i == self.decision_user ==> forall|k: int|
                            0 <= k < remove.len() ==> (#[trigger] remove[k]) < n
                    },
                    (ClientMessageView::WordGuessResponse(i, _), State::WordGuess) => {
                        i == self.current_user ==> i < n
                    },
                    (ClientMessageView::AcceptGuessResponse(i, accept), State::AcceptGuess) => {
                        i == self.decision_user ==> self.words_left >= 1 && self.can_settle(
                            words_after(self.words_left, accept) as int,
                        )
                    },
                    _ => true,
                }
            },
        }
    }
}

/// A game that waits for its players.
pub open spec fn fresh_logic(words: Seq<Seq<char>>) -> LogicView {
    LogicView {
        state: State::WaitingForPlayers,
        awaiting: Awaiting::Message,
        current_user: 0,
        decision_user: 1,
        word_to_guess: Seq::empty(),
        users: Seq::empty(),
        channels: Seq::empty(),
        words,
        score: 0,
        words_left: DEFAULT_WORD_COUNT,
    }
}

/// A game of players who share one channel, in its first round, which is about `word`.
pub open spec fn terminal_logic(
    num_users: nat,
    channel: u64,
    words: Seq<Seq<char>>,
    word: Seq<char>,
) -> LogicView {
    LogicView {
        state: State::WordSubmission,
        awaiting: Awaiting::Turn,
        word_to_guess: word,
        users: numbered_players(num_users),
        channels: Seq::new(num_users, |i: int| channel),
        ..fresh_logic(words)
    }
}

/// Sends every message on the channel of the player it is meant for.
fn deliver(channels: &Vec<u64>, messages: Vec<ServerMessage>) -> (r: Vec<Delivery>)
    requires
        forall|i: int|
            0 <= i < messages@.len() ==> (#[trigger] messages@[i])@.recipient() < channels@.len(),
    ensures
        deliveries_view(r@) == delivered(channels@, messages_view(messages@)),
{
    let ghost all = messages@;
    let mut r: Vec<Delivery> = Vec::new();
    for message in iter: messages
        invariant
            iter.seq() == all,
            forall|i: int|
                0 <= i < all.len() ==> (#[trigger] all[i])@.recipient() < channels@.len(),
            r@.len() == iter.index(),
            forall|i: int|
                0 <= i < r@.len() ==> (#[trigger] r@[i])@ == delivered(
                    channels@,
                    messages_view(all),
                )[i],
    {
        let i: usize = message.recipient();
        assert(message == all[iter.index() as int]);
        r.push(Delivery { channel: channels[i], message });
    }
    r
}

/// A game in which every player has a channel of their own.
pub struct Logic {
    state: State,
    awaiting: Awaiting,
    current_user: usize,
    decision_user: usize,
    word_to_guess: String,
    users: Vec<Player>,
    channels: Vec<u64>,
    words: Vec<String>,
    score: usize,
    words_left: usize,
}

impl View for Logic {
    type V = LogicView;

    closed spec fn view(&self) -> LogicView {
        LogicView {
            state: self.state,
            awaiting: self.awaiting,
            current_user: self.current_user,
            decision_user: self.decision_user,
            word_to_guess: self.word_to_guess@,
            users: players_view(self.users@),
            channels: self.channels@,
            words: vocabulary(self.words@),
            score: self.score,
            words_left: self.words_left,
        }
    }
}

impl Logic {
    /// Opens a game that waits for its players.
    pub fn new_game(words: Vec<String>) -> (r: Logic)
        ensures
            r@ == fresh_logic(vocabulary(words@)),
            r@.wf(),
    {
        let r = Logic {
            state: State::WaitingForPlayers,
            awaiting: Awaiting::Message,
            current_user: 0,
            decision_user: 1,
            word_to_guess: String::new(),
            users: Vec::new(),
            channels: Vec::new(),
            words,
            score: 0,
            words_left: DEFAULT_WORD_COUNT,
        };
        assert(r@ =~= fresh_logic(vocabulary(words@)));
        r
    }

    /// Starts a game of `num_users` players who share `channel`, with a first word drawn from
    /// `words`.
    pub fn new_game_cli(num_users: usize, channel: u64, words: Vec<String>) -> (r: Logic)
        requires
            words@.len() > 0,
        ensures
            exists|i: int|
                0 <= i < words@.len() && r@ == #[trigger] terminal_logic(
                    num_users as nat,
                    channel,
                    vocabulary(words@),
                    vocabulary(words@)[i],
                ),
            r@.wf(),
    {
        let word = draw_word(&words);
        let ghost all = vocabulary(words@);
        proof {
            let i = choose|i: int| 0 <= i < all.len() && all[i] == word@;
            assert(all[i] == word@);
        }
        Logic::new_game_cli_about(num_users, channel, words, word)
    }

    /// Starts a game of `num_users` players who share `channel`, with `word` as the first word.
    pub fn new_game_cli_about(
        num_users: usize,
        channel: u64,
        words: Vec<String>,
        word: String,
    ) -> (r: Logic)
        ensures
            r@ == terminal_logic(num_users as nat, channel, vocabulary(words@), word@),
            r@.wf(),
    {
        let mut channels: Vec<u64> = Vec::new();
        for i in 0..num_users
            invariant
                channels@ == Seq::new(i as nat, |j: int| channel),
        {
            channels.push(channel);
        }
        let r = Logic {
            state: State::WordSubmission,
            awaiting: Awaiting::Turn,
            current_user: 0,
            decision_user: 1,
            word_to_guess: word,
            users: number_players(num_users),
            channels,
            words,
            score: 0,
            words_left: DEFAULT_WORD_COUNT,
        };
        assert(r@ =~= terminal_logic(num_users as nat, channel, vocabulary(words@), word@));
        r
    }

    /// What the game needs in order to go on.
    pub fn awaiting(&self) -> (r: Awaiting)
        ensures
            r == self@.awaiting,
    {
        self.awaiting
    }

    /// What the game is busy with.
    pub fn state(&self) -> (r: State)
        ensures
            r == self@.state,
    {
        self.state
    }

    /// The points made so far.
    pub fn score(&self) -> (r: usize)
        ensures
            r == self@.score,
    {
        self.score
    }

    /// The words that are left.
    pub fn words_left(&self) -> (r: usize)
        ensures
            r == self@.words_left,
    {
        self.words_left
    }

    fn may_settle(&self, words_left: usize) -> (r: bool)
        ensures
            r == self@.can_settle(words_left as int),
    {
        assert(self@.users.len() == self.users@.len());
        assert(self@.words.len() == self.words@.len());
        words_left == 0 || (self.users.len() > 0 && self.words.len() > 0)
    }

    fn may_judge(&self, accepted: bool) -> (r: bool)
        ensures
            r == (self@.words_left >= 1 && self@.can_settle(
                words_after(self@.words_left, accepted) as int,
            )),
    {
        if self.words_left == 0 {
            false
        } else if accepted {
            self.may_settle(self.words_left - 1)
        } else if self.words_left == 1 {
            true
        } else {
            self.may_settle(self.words_left - 2)
        }
    }

    /// Tells whether the game is ready for `event`.
    pub fn can_process(&self, event: &Event) -> (r: bool)
        ensures
            r == self@.accepts(event@),
    {
        let n: usize = self.users.len();
        assert(self@.users.len() == n);
        assert(self@.words.len() == self.words@.len());
        match event {
            Event::Proceed => {
                match self.awaiting {
                    Awaiting::Turn => {
                        match self.state {
                            State::ManualDuplicateElimination => self.decision_user < n,
                            State::WordGuess => self.current_user < n,
                            State::AcceptGuess => false,
                            _ => true,
                        }
                    },
                    Awaiting::Pause(_) => {
                        self.state == State::AcceptGuess && self.current_user < n && (
                        if self.users[self.current_user].word_guess.is_some() {
                            self.decision_user < n
                        } else {
                            self.words_left >= 1 && self.may_settle(self.words_left - 1)
                        })
                    },
                    _ => false,
                }
            },
            Event::Disconnected => {
                self.awaiting == Awaiting::Message && match self.state {
                    State::WaitingForPlayers => self.words.len() > 0,
                    State::WordGuess => self.current_user < n,
                    State::AcceptGuess => self.may_judge(false),
                    _ => true,
                }
            },
            Event::Message(m) => {
                if self.awaiting != Awaiting::Message {
                    return false;
                }
                match (m, self.state) {
                    (ClientMessage::StartGame, State::WaitingForPlayers) => {
                        n <= 1 || self.words.len() > 0
                    },
                    (ClientMessage::WordSubmissionResponse(i, _), State::WordSubmission) => {
                        *i == self.current_user || *i < n
                    },
                    (
                        ClientMessage::ManualDuplicateEliminationResponse(i, remove),
                        State::ManualDuplicateElimination,
                    ) => *i != self.decision_user || all_below(remove, n),
                    (ClientMessage::WordGuessResponse(i, _), State::WordGuess) => {
                        *i != self.current_user || *i < n
                    },
                    (ClientMessage::AcceptGuessResponse(i, accept), State::AcceptGuess) => {
                        *i != self.decision_user || self.may_judge(*accept)
                    },
                    _ => true,
                }
            },
        }
    }

    fn starts_round(&self, event: &Event) -> (r: bool)
        requires
            self@.accepts(event@),
        ensures
            r == self@.draws(event@),
    {
        assert(self@.users.len() == self.users@.len());
        match event {
            Event::Proceed => {
                self.state == State::AcceptGuess
                    && self.users[self.current_user].word_guess.is_none() && self.words_left > 1
            },
            Event::Message(ClientMessage::StartGame) => {
                self.state == State::WaitingForPlayers && self.users.len() > 1
            },
            Event::Message(ClientMessage::AcceptGuessResponse(i, accept)) => {
                self.state == State::AcceptGuess && *i == self.decision_user && (
                if *accept {
                    self.words_left > 1
                } else {
                    self.words_left > 2
                })
            },
            Event::Message(_) => false,
            Event::Disconnected => {
                self.state == State::WaitingForPlayers || (self.state == State::AcceptGuess
                    && self.words_left > 2)
            },
        }
    }

    /// Moves the game on after `event`, and lists the messages to send, each with the channel of
    /// the player it is meant for. Where a round starts, the word is drawn from the word list.
    pub fn process_state(&mut self, event: Event) -> (r: Vec<Delivery>)
        requires
            old(self)@.wf(),
            old(self)@.accepts(event@),
        ensures
            final(self)@.wf(),
            !old(self)@.draws(event@) ==> ({
                let (next, messages) = old(self)@.after(event@, Seq::empty());
                final(self)@ == next && deliveries_view(r@) == delivered(next.channels, messages)
            }),
            old(self)@.draws(event@) ==> exists|i: int|
                0 <= i < old(self)@.words.len() && ({
                    let (next, messages) = #[trigger] old(self)@.after(
                        event@,
                        old(self)@.words[i],
                    );
                    final(self)@ == next && deliveries_view(r@) == delivered(
                        next.channels,
                        messages,
                    )
                }),
    {
        let ghost before = self@;
        if self.starts_round(&event) {
            assert(self@.words.len() == self.words@.len());
            let word = draw_word(&self.words);
            proof {
                let i = choose|i: int| 0 <= i < before.words.len() && before.words[i] == word@;
                assert(before.words[i] == word@);
            }
            self.process_state_about(event, word)
        } else {
            self.process_state_about(event, String::new())
        }
    }

    /// Moves the game on after `event`, and lists the messages to send, each with the channel of
    /// the player it is meant for. Where a round starts, it is about `word`.
    pub fn process_state_about(&mut self, event: Event, word: String) -> (r: Vec<Delivery>)
        requires
            old(self)@.wf(),
            old(self)@.accepts(event@),
        ensures
            final(self)@.wf(),
            final(self)@ == old(self)@.after(event@, word@).0,
            deliveries_view(r@) == delivered(
                final(self)@.channels,
                old(self)@.after(event@, word@).1,
            ),
    {
        let messages = match event {
            Event::Proceed => self.proceed(word),
            Event::Message(m) => self.receive(m, word),
            Event::Disconnected => self.disconnect(word),
        };
        assert forall|i: int| 0 <= i < messages@.len() implies (
        #[trigger] messages@[i])@.recipient() < self.channels@.len() by {
            assert(messages_view(messages@)[i] == messages@[i]@);
        }
        deliver(&self.channels, messages)
    }

    fn move_to(&mut self, state: State)
        ensures
            final(self)@ == old(self)@.moved_to(state),
    {
        self.state = state;
        self.awaiting = Awaiting::Turn;
    }

    fn begin_round(&mut self, messages: &mut Vec<ServerMessage>, word: String)
        ensures
            final(self)@ == old(self)@.round_begun(word@).0,
            messages_view(final(messages)@) == messages_view(old(messages)@)
                + old(self)@.round_begun(word@).1,
    {
        announce_round_started(
            messages,
            self.users.len(),
            self.current_user,
            self.decision_user,
            self.score,
            self.words_left,
        );
        self.word_to_guess = word;
        self.move_to(State::WordSubmission);
    }

    fn settle(
        &mut self,
        messages: &mut Vec<ServerMessage>,
        score: usize,
        words_left: usize,
        word: String,
    )
        requires
            old(self)@.wf(),
            old(self)@.can_settle(words_left as int),
            score + words_left <= usize::MAX,
        ensures
            final(self)@.wf(),
            final(self)@ == old(self)@.settled(score, words_left, word@).0,
            messages_view(final(messages)@) == messages_view(old(messages)@)
                + old(self)@.settled(score, words_left, word@).1,
    {
        self.score = score;
        self.words_left = words_left;
        if words_left == 0 {
            self.move_to(State::Finished);
            assert(messages_view(messages@) =~= messages_view(messages@) + Seq::empty());
        } else {
            let n: usize = self.users.len();
            assert(self@.users.len() == n);
            self.current_user = next_player(self.current_user, n);
            self.decision_user = next_player(self.current_user, n);
            self.begin_round(messages, word);
        }
    }

    fn judge_guess(&mut self, messages: &mut Vec<ServerMessage>, accepted: bool, word: String)
        requires
            old(self)@.wf(),
            old(self)@.words_left >= 1,
            old(self)@.can_settle(words_after(old(self)@.words_left, accepted) as int),
        ensures
            final(self)@.wf(),
            final(self)@ == old(self)@.judged(accepted, word@).0,
            messages_view(final(messages)@) == messages_view(old(messages)@)
                + old(self)@.judged(accepted, word@).1,
    {
        let (score, words_left) = judge(self.score, self.words_left, accepted);
        self.settle(messages, score, words_left, word);
    }

    fn settle_hints(&mut self, messages: &mut Vec<ServerMessage>)
        ensures
            final(self)@ == old(self)@.hints_settled().0,
            messages_view(final(messages)@) == messages_view(old(messages)@)
                + old(self)@.hints_settled().1,
    {
        announce_filtered_shown(messages, self.users.len(), &self.users);
        self.move_to(State::WordGuess);
    }

    fn show_guess(&mut self, messages: &mut Vec<ServerMessage>)
        requires
            old(self)@.current_user < old(self)@.users.len(),
        ensures
            final(self)@ == old(self)@.guess_shown().0,
            messages_view(final(messages)@) == messages_view(old(messages)@)
                + old(self)@.guess_shown().1,
    {
        announce_overview_shown(messages, self.users.len(), &self.word_to_guess, &self.users);
        self.awaiting = Awaiting::Pause(
            if self.users[self.current_user].word_guess.is_some() {
                VERDICT_PAUSE
            } else {
                PASS_PAUSE
            },
        );
        self.state = State::AcceptGuess;
    }

    fn proceed(&mut self, word: String) -> (r: Vec<ServerMessage>)
        requires
            old(self)@.wf(),
            old(self)@.accepts(EventView::Proceed),
        ensures
            final(self)@.wf(),
            final(self)@ == old(self)@.proceed(word@).0,
            messages_view(r@) == old(self)@.proceed(word@).1,
            forall|i: int|
                0 <= i < messages_view(r@).len() ==> (#[trigger] messages_view(r@)[i]).recipient()
                    < final(self)@.channels.len(),
    {
        let ghost before = self@;
        let n: usize = self.users.len();
        assert(self@.users.len() == n);
        let mut messages: Vec<ServerMessage> = Vec::new();
        assert(messages_view(messages@) =~= Seq::empty());
        match self.state {
            State::WaitingForPlayers => {
                self.awaiting = Awaiting::Message;
            },
            State::WordSubmission => {
                clear_words(&mut self.users);
                announce_hints_asked(&mut messages, n, self.current_user, &self.word_to_guess);
                self.awaiting = Awaiting::Message;
            },
            State::ManualDuplicateElimination => {
                strike_duplicates(&mut self.users);
                announce_words_shown(&mut messages, n, self.current_user, &self.users);
                messages.push(
                    ServerMessage::ManualDuplicateEliminationRequest(self.decision_user),
                );
                self.awaiting = Awaiting::Message;
            },
            State::WordGuess => {
                messages.push(ServerMessage::WordGuessRequest(self.current_user));
                self.awaiting = Awaiting::Message;
            },
            State::AcceptGuess => {
                if self.users[self.current_user].word_guess.is_some() {
                    messages.push(ServerMessage::AcceptGuessRequest(self.decision_user));
                    self.awaiting = Awaiting::Message;
                } else {
                    self.settle(&mut messages, self.score, self.words_left - 1, word);
                }
            },
            State::Finished => {
                announce_finished(&mut messages, n, self.score);
                self.awaiting = Awaiting::Nothing;
            },
        }
        assert(messages_view(messages@) =~= before.proceed(word@).1);
        assert(self@ =~= before.proceed(word@).0);
        messages
    }

    fn receive(&mut self, m: ClientMessage, word: String) -> (r: Vec<ServerMessage>)
        requires
            old(self)@.wf(),
            old(self)@.accepts(EventView::Message(m@)),
        ensures
            final(self)@.wf(),
            final(self)@ == old(self)@.receive(m@, word@).0,
            messages_view(r@) == old(self)@.receive(m@, word@).1,
            forall|i: int|
                0 <= i < messages_view(r@).len() ==> (#[trigger] messages_view(r@)[i]).recipient()
                    < final(self)@.channels.len(),
    {
        let ghost before = self@;
        let ghost message = m@;
        let ghost drawn = word@;
        let n: usize = self.users.len();
        assert(self@.users.len() == n);
        let mut messages: Vec<ServerMessage> = Vec::new();
        assert(messages_view(messages@) =~= Seq::empty());
        match m {
            ClientMessage::StartGame => {
                if self.state == State::WaitingForPlayers && n > 1 {
                    self.begin_round(&mut messages, word);
                }
            },
            ClientMessage::NewPlayer(user) => {
                if self.state == State::WaitingForPlayers {
                    announce_joined(&mut messages, n, &user.name);
                    self.users.push(
                        Player {
                            name: user.name,
                            word_guess: user.word_guess,
                            word_stricken: user.word_stricken,
                        },
                    );
                    self.channels.push(user.channel_out);
                    announce_roster(&mut messages, n, &self.users);
                }
            },
            ClientMessage::WordSubmissionResponse(i, hint) => {
                if self.state == State::WordSubmission && i != self.current_user {
                    put_word(&mut self.users, i, Some(hint));
                    if everyone_submitted(&self.users, self.current_user) {
                        self.move_to(State::ManualDuplicateElimination);
                    } else {
                        announce_submission_noted(&mut messages, n, i, i);
                    }
                }
            },
            ClientMessage::ManualDuplicateEliminationResponse(i, remove) => {
                if self.state == State::ManualDuplicateElimination && i == self.decision_user {
                    strike(&mut self.users, &remove);
                    self.settle_hints(&mut messages);
                }
            },
            ClientMessage::WordGuessResponse(i, guess) => {
                if self.state == State::WordGuess && i == self.current_user {
                    let guess: Option<String> = if guess.as_str().is_empty() {
                        None
                    } else {
                        Some(guess)
                    };
                    put_word(&mut self.users, i, guess);
                    self.show_guess(&mut messages);
                }
            },
            ClientMessage::AcceptGuessResponse(i, accept) => {
                if self.state == State::AcceptGuess && i == self.decision_user {
                    self.judge_guess(&mut messages, accept, word);
                }
            },
            ClientMessage::ResendGameState(_) => {},
        }
        assert(self@.users.len() == self.users.len());
        assert(messages_view(messages@) =~= before.receive(message, drawn).1);
        assert(self@ =~= before.receive(message, drawn).0);
        messages
    }

    fn disconnect(&mut self, word: String) -> (r: Vec<ServerMessage>)
        requires
            old(self)@.wf(),
            old(self)@.accepts(EventView::Disconnected),
        ensures
            final(self)@.wf(),
            final(self)@ == old(self)@.disconnect(word@).0,
            messages_view(r@) == old(self)@.disconnect(word@).1,
            forall|i: int|
                0 <= i < messages_view(r@).len() ==> (#[trigger] messages_view(r@)[i]).recipient()
                    < final(self)@.channels.len(),
    {
        let ghost before = self@;
        let ghost drawn = word@;
        let mut messages: Vec<ServerMessage> = Vec::new();
        assert(messages_view(messages@) =~= Seq::empty());
        match self.state {
            State::WaitingForPlayers => self.begin_round(&mut messages, word),
            State::WordSubmission => self.move_to(State::ManualDuplicateElimination),
            State::ManualDuplicateElimination => self.settle_hints(&mut messages),
            State::WordGuess => self.show_guess(&mut messages),
            State::AcceptGuess => self.judge_guess(&mut messages, false, word),
            State::Finished => {},
        }
        assert(messages_view(messages@) =~= before.disconnect(drawn).1);
        assert(self@ =~= before.disconnect(drawn).0);
        messages
    }
}

} // verus!
