//! The game: its state and how it moves from message to message.
use vstd::prelude::*;

pub use crate::cli::JustOneCLI;
pub use crate::messages::ServerMessage;
pub use crate::players::Player;

use crate::announce::announce_filtered_shown;
use crate::announce::announce_finished;
use crate::announce::announce_hints_asked;
use crate::announce::announce_joined;
use crate::announce::announce_overview_shown;
use crate::announce::announce_roster;
use crate::announce::announce_round_started;
use crate::announce::announce_submission_noted;
use crate::announce::announce_submissions_so_far;
use crate::announce::announce_words_shown;
use crate::announce::filtered_shown;
use crate::announce::finished;
use crate::announce::hints_asked;
use crate::announce::joined;
use crate::announce::overview_shown;
use crate::announce::roster;
use crate::announce::round_started;
use crate::announce::submission_noted;
use crate::announce::submissions_so_far;
use crate::announce::words_shown;
use crate::chance::draw_word;
use crate::chance::vocabulary;
use crate::cli::Command;
use crate::cli::CommandView;
use crate::messages::messages_view;
use crate::messages::ServerMessageView;
use crate::players::all_below;
use crate::players::all_submitted;
use crate::players::clear_words;
use crate::players::clear_words_up_to;
use crate::players::cleared;
use crate::players::cleared_up_to;
use crate::players::copy_players;
use crate::players::duplicates_stricken;
use crate::players::everyone_submitted;
use crate::players::filtered_words;
use crate::players::list_filtered_words;
use crate::players::list_words;
use crate::players::newcomer;
use crate::players::number_players;
use crate::players::numbered_players;
use crate::players::players_view;
use crate::players::put_word;
use crate::players::shown_words;
use crate::players::strike;
use crate::players::strike_duplicates;
use crate::players::stricken;
use crate::players::with_word;
use crate::players::PlayerView;
use crate::rounds::judge;
use crate::rounds::next_player;
use crate::rounds::player_after;
use crate::rounds::score_after;
use crate::rounds::words_after;
use crate::rounds::DEFAULT_WORD_COUNT;
use crate::rounds::PASS_PAUSE;
use crate::rounds::VERDICT_PAUSE;

verus! {

/// The language of the words.
#[derive(Debug, Clone, Copy, PartialEq, Eq, Structural)]
pub enum WordList {
    English,
    Hungarian,
    Italian,
    German,
}

impl WordList {
    /// The file that holds the words, one on each line.
    pub open spec fn file(self) -> Seq<char> {
        match self {
            WordList::English => "include/words_en.txt"@,
            WordList::Hungarian => "include/words_hu.txt"@,
            WordList::Italian => "include/words_it.txt"@,
            WordList::German => "include/words_de.txt"@,
        }
    }

    /// Names the file that holds the words, one on each line.
    pub fn file_name(self) -> (r: &'static str)
        ensures
            r@ == self.file(),
    {
        match self {
            WordList::English => "include/words_en.txt",
            WordList::Hungarian => "include/words_hu.txt",
            WordList::Italian => "include/words_it.txt",
            WordList::German => "include/words_de.txt",
        }
    }
}

/// What the game is busy with.
#[derive(Debug, Clone, Copy, PartialEq, Eq, Structural)]
pub enum State {
    WaitingForPlayers,
    NextRound,
    /// Everyone but the guessing player submits a hint.
    WordSubmission,
    /// The deciding player strikes hints.
    ManualDuplicateElimination,
    WordGuess,
    AcceptGuess,
    Finished,
}

/// What the game needs in order to go on.
#[derive(Debug, Clone, Copy, PartialEq, Eq, Structural)]
pub enum Awaiting {
    /// Nothing: it goes on at once.
    Turn,
    /// A message of a player.
    Message,
    /// That so many seconds pass.
    Pause(u64),
    /// It does not go on: the game has ended.
    Nothing,
}

/// A message of a player to the game.
#[derive(Debug, PartialEq)]
pub enum ClientMessage {
    NewPlayer(String),
    StartGame,
    ResendGameState(usize),
    WordSubmissionResponse(usize, String),
    ManualDuplicateEliminationResponse(usize, Vec<usize>),
    WordGuessResponse(usize, String),
    AcceptGuessResponse(usize, bool),
    StopGame,
}

/// The mathematical content of a [`ClientMessage`].
#[verifier::ext_equal]
pub enum ClientMessageView {
    NewPlayer(Seq<char>),
    StartGame,
    ResendGameState(usize),
    WordSubmissionResponse(usize, Seq<char>),
    ManualDuplicateEliminationResponse(usize, Seq<usize>),
    WordGuessResponse(usize, Seq<char>),
    AcceptGuessResponse(usize, bool),
    StopGame,
}

impl View for ClientMessage {
    type V = ClientMessageView;

    open spec fn view(&self) -> ClientMessageView {
        match self {
            ClientMessage::NewPlayer(name) => ClientMessageView::NewPlayer(name@),
            ClientMessage::StartGame => ClientMessageView::StartGame,
            ClientMessage::ResendGameState(i) => ClientMessageView::ResendGameState(*i),
            ClientMessage::WordSubmissionResponse(i, word) =>
                ClientMessageView::WordSubmissionResponse(*i, word@),
            ClientMessage::ManualDuplicateEliminationResponse(i, remove) =>
                ClientMessageView::ManualDuplicateEliminationResponse(*i, remove@),
            ClientMessage::WordGuessResponse(i, word) => ClientMessageView::WordGuessResponse(
                *i,
                word@,
            ),
            ClientMessage::AcceptGuessResponse(i, accept) =>
                ClientMessageView::AcceptGuessResponse(*i, *accept),
            ClientMessage::StopGame => ClientMessageView::StopGame,
        }
    }
}

impl ClientMessage {
    /// The message that a typed command stands for.
    pub open spec fn of_command(command: CommandView) -> ClientMessageView {
        match command {
            CommandView::WordSubmissionResponse(i, word) =>
                ClientMessageView::WordSubmissionResponse(i, word),
            CommandView::AcceptGuessResponse(i, accept) =>
                ClientMessageView::AcceptGuessResponse(i, accept),
            CommandView::WordGuessResponse(i, word) => ClientMessageView::WordGuessResponse(
                i,
                word,
            ),
            CommandView::ResendGameState(i) => ClientMessageView::ResendGameState(i),
            CommandView::ManualDuplicateEliminationResponse(i, ids) =>
                ClientMessageView::ManualDuplicateEliminationResponse(i, ids),
        }
    }

    /// Makes the message that a typed command stands for.
    pub fn from_command(command: Command) -> (r: ClientMessage)
        ensures
            r@ == Self::of_command(command@),
    {
        match command {
            Command::WordSubmissionResponse(i, word) => ClientMessage::WordSubmissionResponse(
                i,
                word,
            ),
            Command::AcceptGuessResponse(i, accept) => ClientMessage::AcceptGuessResponse(
                i,
                accept,
            ),
            Command::WordGuessResponse(i, word) => ClientMessage::WordGuessResponse(i, word),
            Command::ResendGameState(i) => ClientMessage::ResendGameState(i),
            Command::ManualDuplicateEliminationResponse(i, ids) =>
                ClientMessage::ManualDuplicateEliminationResponse(i, ids),
        }
    }
}

/// What can happen to a game.
#[derive(Debug, PartialEq)]
pub enum Event {
    /// It is the game's turn, or the pause it asked for is over.
    Proceed,
    /// A message has arrived.
    Message(ClientMessage),
    /// No further message can arrive.
    Disconnected,
}

/// The mathematical content of an [`Event`].
pub enum EventView {
    Proceed,
    Message(ClientMessageView),
    Disconnected,
}

impl View for Event {
    type V = EventView;

    open spec fn view(&self) -> EventView {
        match self {
            Event::Proceed => EventView::Proceed,
            Event::Message(m) => EventView::Message(m@),
            Event::Disconnected => EventView::Disconnected,
        }
    }
}

/// The messages to send, in order. If one of them cannot be sent, those after it are not sent
/// either and the game ends, unless they are not `required`: then the others are sent all the same.
#[derive(Debug, PartialEq)]
pub struct Outbox {
    pub messages: Vec<ServerMessage>,
    pub required: bool,
}

/// The mathematical content of an [`Outbox`].
#[verifier::ext_equal]
pub struct OutboxView {
    pub messages: Seq<ServerMessageView>,
    pub required: bool,
}

impl View for Outbox {
    type V = OutboxView;

    open spec fn view(&self) -> OutboxView {
        OutboxView { messages: messages_view(self.messages@), required: self.required }
    }
}

/// The mathematical content of a [`JustOneGame`].
#[verifier::ext_equal]
pub struct GameView {
    pub state: State,
    pub awaiting: Awaiting,
    pub guess_user: usize,
    pub decision_user: usize,
    pub word_to_guess: Seq<char>,
    pub users: Seq<PlayerView>,
    pub words: Seq<Seq<char>>,
    pub score: usize,
    pub words_left: usize,
}

/// Messages that the game depends on.
pub open spec fn sending(messages: Seq<ServerMessageView>) -> OutboxView {
    OutboxView { messages, required: true }
}

/// No messages.
pub open spec fn silence() -> OutboxView {
    sending(Seq::empty())
}

impl GameView {
    /// The counters are in range.
    pub open spec fn wf(self) -> bool {
        &&& self.users.len() <= usize::MAX
        &&& self.guess_user < self.users.len() || self.guess_user == 0
        &&& self.score + self.words_left <= usize::MAX
    }

    /// The game has its turn in state `state`.
    pub open spec fn moved_to(self, state: State) -> GameView {
        GameView { state, awaiting: Awaiting::Turn, ..self }
    }

    /// The words on the table, all of them.
    pub open spec fn words_on_table(self) -> Seq<Option<(Seq<char>, bool)>> {
        shown_words(self.users)
    }

    /// The player who guesses has put down a guess.
    pub open spec fn guessed(self) -> bool {
        self.users[self.guess_user as int].word_guess is Some
    }

    /// Everything a player who has lost track needs to know.
    pub open spec fn full_state(self, user: usize) -> Seq<ServerMessageView> {
        roster(user, self.users) + self.round_shown(user) + self.stage_shown(user)
    }

    /// What a player needs to know of the round.
    pub open spec fn round_shown(self, user: usize) -> Seq<ServerMessageView> {
        if self.state == State::WaitingForPlayers || self.state == State::Finished {
            Seq::empty()
        } else {
            seq![
                ServerMessageView::RoundStart(
                    user,
                    self.guess_user,
                    self.decision_user,
                    self.score,
                    self.words_left,
                ),
            ]
        }
    }

    /// What a player needs to know of the state the round is in.
    pub open spec fn stage_shown(self, user: usize) -> Seq<ServerMessageView> {
        match self.state {
            State::WordSubmission => {
                (if user != self.guess_user {
                    seq![ServerMessageView::WordSubmissionRequest(user, self.word_to_guess)]
                } else {
                    Seq::empty()
                }) + submissions_so_far(user, self.users)
            },
            State::ManualDuplicateElimination => {
                (if user != self.guess_user {
                    seq![ServerMessageView::ShowWords(user, self.words_on_table())]
                } else {
                    Seq::empty()
                }) + (if user == self.decision_user {
                    seq![
                        ServerMessageView::ManualDuplicateEliminationRequest(self.decision_user),
                    ]
                } else {
                    Seq::empty()
                })
            },
            State::WordGuess => {
                seq![ServerMessageView::ShowFilteredWords(user, filtered_words(self.users))] + (
                if user == self.guess_user {
                    seq![ServerMessageView::WordGuessRequest(self.guess_user)]
                } else {
                    Seq::empty()
                })
            },
            State::AcceptGuess => {
                seq![
                    ServerMessageView::ShowRoundOverview(
                        user,
                        self.word_to_guess,
                        self.words_on_table(),
                    ),
                ] + (if self.guessed() && user == self.decision_user {
                    seq![ServerMessageView::AcceptGuessRequest(self.decision_user)]
                } else {
                    Seq::empty()
                })
            },
            _ => Seq::empty(),
        }
    }

    /// The game after a round that brought it to `score` and `words_left`.
    pub open spec fn settled(self, score: usize, words_left: usize) -> GameView {
        GameView { score, words_left, ..self }.moved_to(
            if words_left == 0 {
                State::Finished
            } else {
                State::NextRound
            },
        )
    }

    /// The game after the guess was judged.
    pub open spec fn judged(self, accepted: bool) -> GameView {
        self.settled(score_after(self.score, accepted), words_after(self.words_left, accepted))
    }

    /// The game at the start of the next round, in which `word` is to be guessed.
    pub open spec fn next_round(self, word: Seq<char>) -> GameView {
        let n = self.users.len();
        let guess_user = player_after(self.guess_user, n);
        GameView {
            guess_user,
            decision_user: player_after(guess_user, n),
            word_to_guess: word,
            ..self
        }.moved_to(State::WordSubmission)
    }

    /// What the game does when it is its turn, or the pause is over. A new round is about `word`.
    pub open spec fn proceed(self, word: Seq<char>) -> (GameView, OutboxView) {
        let n = self.users.len();
        match self.state {
            State::WaitingForPlayers => {
                (GameView { awaiting: Awaiting::Message, ..self }, silence())
            },
            State::NextRound => {
                let next = self.next_round(word);
                (
                    next,
                    sending(
                        round_started(
                            n,
                            next.guess_user,
                            next.decision_user,
                            next.score,
                            next.words_left,
                        ),
                    ),
                )
            },
            State::WordSubmission => {
                (
                    GameView {
                        users: cleared(self.users),
                        awaiting: Awaiting::Message,
                        ..self
                    },
                    sending(hints_asked(n, self.guess_user, self.word_to_guess)),
                )
            },
            State::ManualDuplicateElimination => {
                let next = GameView {
                    users: duplicates_stricken(self.users),
                    awaiting: Awaiting::Message,
                    ..self
                };
                (
                    next,
                    sending(
                        words_shown(n, self.guess_user, next.words_on_table()).push(
                            ServerMessageView::ManualDuplicateEliminationRequest(
                                self.decision_user,
                            ),
                        ),
                    ),
                )
            },
            State::WordGuess => {
                (
                    GameView { awaiting: Awaiting::Message, ..self },
                    sending(
                        filtered_shown(n, filtered_words(self.users)).push(
                            ServerMessageView::WordGuessRequest(self.guess_user),
                        ),
                    ),
                )
            },
            State::AcceptGuess => {
                if self.awaiting == Awaiting::Turn {
                    let pause = if self.guessed() {
                        VERDICT_PAUSE
                    } else {
                        PASS_PAUSE
                    };
                    (
                        GameView { awaiting: Awaiting::Pause(pause), ..self },
                        sending(overview_shown(n, self.word_to_guess, self.words_on_table())),
                    )
                } else if self.guessed() {
                    (
                        GameView { awaiting: Awaiting::Message, ..self },
                        sending(seq![ServerMessageView::AcceptGuessRequest(self.decision_user)]),
                    )
                } else {
                    (self.settled(self.score, (self.words_left - 1) as usize), silence())
                }
            },
            State::Finished => {
                (
                    GameView { awaiting: Awaiting::Nothing, ..self },
                    sending(finished(n, self.score)),
                )
            },
        }
    }

    /// What the game does on a message.
    pub open spec fn receive(self, m: ClientMessageView) -> (GameView, OutboxView) {
        let n = self.users.len();
        match (m, self.state) {
            (ClientMessageView::ResendGameState(i), _) => {
                (self, OutboxView { messages: self.full_state(i), required: false })
            },
            (ClientMessageView::StopGame, _) => {
                (GameView { awaiting: Awaiting::Nothing, ..self }, silence())
            },
            (ClientMessageView::StartGame, State::WaitingForPlayers) if n > 1 => {
                (self.moved_to(State::NextRound), silence())
            },
            (ClientMessageView::NewPlayer(name), State::WaitingForPlayers) => {
                let users = self.users.push(newcomer(name));
                (
                    GameView { users, ..self },
                    sending(joined(n, name) + roster(n as usize, users)),
                )
            },
            (
                ClientMessageView::WordSubmissionResponse(i, word),
                State::WordSubmission,
            ) if i != self.guess_user => {
                let next = GameView {
                    users: with_word(self.users, i as int, Some(word)),
                    ..self
                };
                if all_submitted(next.users, self.guess_user as int) {
                    (next.moved_to(State::ManualDuplicateElimination), silence())
                } else {
                    (next, sending(submission_noted(n, i, i)))
                }
            },
            (
                ClientMessageView::ManualDuplicateEliminationResponse(i, remove),
                State::ManualDuplicateElimination,
            ) if i == self.decision_user => {
                (
                    GameView { users: stricken(self.users, remove), ..self }.moved_to(
                        State::WordGuess,
                    ),
                    silence(),
                )
            },
            (
                ClientMessageView::WordGuessResponse(i, word),
                State::WordGuess,
            ) if i == self.guess_user => {
                let guess = if word.len() == 0 {
                    None
                } else {
                    Some(word)
                };
                (
                    GameView { users: with_word(self.users, i as int, guess), ..self }.moved_to(
                        State::AcceptGuess,
                    ),
                    silence(),
                )
            },
            (
                ClientMessageView::AcceptGuessResponse(i, accept),
                State::AcceptGuess,
            ) if i == self.decision_user => { (self.judged(accept), silence()) },
            _ => (self, silence()),
        }
    }

    /// What the game does when no further message can arrive: it goes on without.
    pub open spec fn disconnect(self) -> GameView {
        match self.state {
            State::WaitingForPlayers => self.moved_to(State::NextRound),
            State::WordSubmission => self.moved_to(State::ManualDuplicateElimination),
            State::ManualDuplicateElimination => self.moved_to(State::WordGuess),
            State::WordGuess => self.moved_to(State::AcceptGuess),
            State::AcceptGuess => self.judged(false),
            _ => self,
        }
    }

    /// The game after `event`, and the messages to send. A new round is about `word`.
    pub open spec fn after(self, event: EventView, word: Seq<char>) -> (GameView, OutboxView) {
        match event {
            EventView::Proceed => self.proceed(word),
            EventView::Message(m) => self.receive(m),
            EventView::Disconnected => (self.disconnect(), silence()),
        }
    }

    /// The messages to send after `event`. They do not depend on the word of a new round.
    pub open spec fn outbox(self, event: EventView) -> OutboxView {
        self.after(event, Seq::empty()).1
    }

    /// The game if, after `event`, message `k` of those it depends on could not be sent. It has
    /// ended on the spot: of the step only what comes before that message is done.
    pub open spec fn interrupted(self, event: EventView, k: int) -> GameView {
        let next = self.after(event, Seq::empty()).0;
        let stopped = match (event, self.state) {
            // those at the table hear of a newcomer before the newcomer sits down
            (
                EventView::Message(ClientMessageView::NewPlayer(_)),
                State::WaitingForPlayers,
            ) => if k < self.users.len() {
                self
            } else {
                next
            },
            // the word is drawn when everyone knows of the round
            (EventView::Proceed, State::NextRound) => GameView {
                guess_user: next.guess_user,
                decision_user: next.decision_user,
                ..self
            },
            // each player's word goes off the table just before the player is asked
            (EventView::Proceed, State::WordSubmission) => GameView {
                users: cleared_up_to(
                    self.users,
                    self.outbox(event).messages[k].recipient() + 1,
                ),
                ..self
            },
            _ => next,
        };
        GameView { awaiting: Awaiting::Nothing, ..stopped }
    }

    /// Whether `event` starts a round, for which a word is drawn.
    pub open spec fn draws(self, event: EventView) -> bool {
        event is Proceed && self.state == State::NextRound
    }

    /// Whether the game is ready for `event`: it awaits such an event, the players that the event
    /// names exist, and there are a player and a word where the game needs one.
    pub open spec fn accepts(self, event: EventView) -> bool {
        let n = self.users.len();
        match event {
            EventView::Proceed => {
                match (self.awaiting, self.state) {
                    (Awaiting::Turn, State::NextRound) => n > 0 && self.words.len() > 0,
                    (Awaiting::Turn, State::AcceptGuess) => self.guess_user < n,
                    (Awaiting::Turn, _) => true,
                    (Awaiting::Pause(_), State::AcceptGuess) => {
                        self.guess_user < n && (self.guessed() || self.words_left >= 1)
                    },
                    _ => false,
                }
            },
            EventView::Disconnected => {
                self.awaiting == Awaiting::Message && (self.state == State::AcceptGuess
                    ==> self.words_left >= 1)
            },
            EventView::Message(m) => {
                self.awaiting == Awaiting::Message && match (m, self.state) {
                    (ClientMessageView::ResendGameState(_), State::AcceptGuess) => {
                        self.guess_user < n
                    },
                    (
                        ClientMessageView::WordSubmissionResponse(i, _),
                        State::WordSubmission,
                    ) => i != self.guess_user ==> i < n,
                    (
                        ClientMessageView::ManualDuplicateEliminationResponse(i, remove),
                        State::ManualDuplicateElimination,
                    ) => {
                        i == self.decision_user ==> forall|k: int|
                            0 <= k < remove.len() ==> (#[trigger] remove[k]) < n
                    },
                    (ClientMessageView::WordGuessResponse(i, _), State::WordGuess) => {
                        i == self.guess_user ==> i < n
                    },
                    (ClientMessageView::AcceptGuessResponse(i, _), State::AcceptGuess) => {
                        i == self.decision_user ==> self.words_left >= 1
                    },
                    _ => true,
                }
            },
        }
    }
}

/// A game of Just One.
pub struct JustOneGame {
    state: State,
    awaiting: Awaiting,
    guess_user: usize,
    decision_user: usize,
    word_to_guess: String,
    users: Vec<Player>,
    words: Vec<String>,
    score: usize,
    words_left: usize,
}

impl View for JustOneGame {
    type V = GameView;

    closed spec fn view(&self) -> GameView {
        GameView {
            state: self.state,
            awaiting: self.awaiting,
            guess_user: self.guess_user,
            decision_user: self.decision_user,
            word_to_guess: self.word_to_guess@,
            users: players_view(self.users@),
            words: vocabulary(self.words@),
            score: self.score,
            words_left: self.words_left,
        }
    }
}

/// A game that waits for its players.
pub open spec fn fresh_game(words: Seq<Seq<char>>, word_count: usize) -> GameView {
    GameView {
        state: State::WaitingForPlayers,
        awaiting: Awaiting::Message,
        guess_user: 0,
        decision_user: 1,
        word_to_guess: Seq::empty(),
        users: Seq::empty(),
        words,
        score: 0,
        words_left: word_count,
    }
}

/// A game on one terminal, in its first round, which is about `word`.
pub open spec fn terminal_game(num_users: nat, words: Seq<Seq<char>>, word: Seq<char>) -> GameView {
    GameView {
        state: State::WordSubmission,
        awaiting: Awaiting::Turn,
        guess_user: 0,
        decision_user: 1,
        word_to_guess: word,
        users: numbered_players(num_users),
        words,
        score: 0,
        words_left: DEFAULT_WORD_COUNT,
    }
}

impl JustOneGame {
    /// Opens a game of `word_count` words, which waits for its players.
    pub fn new_game(words: Vec<String>, word_count: usize) -> (r: JustOneGame)
        ensures
            r@ == fresh_game(vocabulary(words@), word_count),
            r@.wf(),
    {
        let r = JustOneGame {
            state: State::WaitingForPlayers,
            awaiting: Awaiting::Message,
            guess_user: 0,
            decision_user: 1,
            word_to_guess: String::new(),
            users: Vec::new(),
            words,
            score: 0,
            words_left: word_count,
        };
        assert(r@ =~= fresh_game(vocabulary(words@), word_count));
        r
    }

    /// Starts a game of `num_users` players on one terminal, with a first word drawn from `words`.
    pub fn new_game_cli(num_users: usize, words: Vec<String>) -> (r: JustOneGame)
        requires
            words@.len() > 0,
        ensures
            exists|i: int|
                0 <= i < words@.len() && r@ == #[trigger] terminal_game(
                    num_users as nat,
                    vocabulary(words@),
                    vocabulary(words@)[i],
                ),
            r@.wf(),
    {
        let word = draw_word(&words);
        let ghost all = vocabulary(words@);
        proof {
            let i = choose|i: int| 0 <= i < all.len() && all[i] == word@;
            assert(all[i] == word@);
        }
        JustOneGame::new_game_cli_about(num_users, words, word)
    }

    /// Starts a game of `num_users` players on one terminal, with `word` as the first word.
    pub fn new_game_cli_about(
        num_users: usize,
        words: Vec<String>,
        word: String,
    ) -> (r: JustOneGame)
        ensures
            r@ == terminal_game(num_users as nat, vocabulary(words@), word@),
            r@.wf(),
    {
        JustOneGame {
            state: State::WordSubmission,
            awaiting: Awaiting::Turn,
            guess_user: 0,
            decision_user: 1,
            word_to_guess: word,
            users: number_players(num_users),
            words,
            score: 0,
            words_left: DEFAULT_WORD_COUNT,
        }
    }

    /// What the game needs in order to go on.
    pub fn awaiting(&self) -> (r: Awaiting)
        ensures
            r == self@.awaiting,
    {
        self.awaiting
    }

    /// What the game is busy with.
    pub fn state(&self) -> (r: State)
        ensures
            r == self@.state,
    {
        self.state
    }

    /// The points made so far.
    pub fn score(&self) -> (r: usize)
        ensures
            r == self@.score,
    {
        self.score
    }

    /// The words that are left.
    pub fn words_left(&self) -> (r: usize)
        ensures
            r == self@.words_left,
    {
        self.words_left
    }

    /// Lists everything that `user`, who has rejoined, needs to know of the game.
    pub fn send_full_game_state(&self, user: usize) -> (r: Vec<ServerMessage>)
        requires
            self@.state == State::AcceptGuess ==> self@.guess_user < self@.users.len(),
        ensures
            messages_view(r@) == self@.full_state(user),
    {
        let mut out: Vec<ServerMessage> = Vec::new();
        announce_roster(&mut out, user, &self.users);
        let ghost known = messages_view(out@);
        assert(known =~= roster(user, self@.users));
        if self.state != State::WaitingForPlayers && self.state != State::Finished {
            out.push(
                ServerMessage::RoundStart(
                    user,
                    self.guess_user,
                    self.decision_user,
                    self.score,
                    self.words_left,
                ),
            );
        }
        assert(messages_view(out@) =~= known + self@.round_shown(user));
        let ghost known = messages_view(out@);
        match self.state {
            State::WordSubmission => {
                if user != self.guess_user {
                    out.push(
                        ServerMessage::WordSubmissionRequest(user, self.word_to_guess.clone()),
                    );
                }
                announce_submissions_so_far(&mut out, user, &self.users);
            },
            State::ManualDuplicateElimination => {
                if user != self.guess_user {
                    out.push(ServerMessage::ShowWords(user, list_words(&self.users)));
                }
                if user == self.decision_user {
                    out.push(ServerMessage::ManualDuplicateEliminationRequest(self.decision_user));
                }
            },
            State::WordGuess => {
                out.push(
                    ServerMessage::ShowFilteredWords(user, list_filtered_words(&self.users)),
                );
                if user == self.guess_user {
                    out.push(ServerMessage::WordGuessRequest(self.guess_user));
                }
            },
            State::AcceptGuess => {
                out.push(
                    ServerMessage::ShowRoundOverview(
                        user,
                        self.word_to_guess.clone(),
                        list_words(&self.users),
                    ),
                );
                if self.users[self.guess_user].word_guess.is_some() && user == self.decision_user {
                    out.push(ServerMessage::AcceptGuessRequest(self.decision_user));
                }
            },
            _ => {},
        }
        assert(messages_view(out@) =~= known + self@.stage_shown(user));
        out
    }

    /// Tells whether the game is ready for `event`.
    pub fn can_process(&self, event: &Event) -> (r: bool)
        ensures
            r == self@.accepts(event@),
    {
        let n: usize = self.users.len();
        assert(self@.users.len() == n);
        assert(self@.words.len() == self.words@.len());
        match event {
            Event::Proceed => {
                match self.awaiting {
                    Awaiting::Turn => {
                        match self.state {
                            State::NextRound => n > 0 && self.words.len() > 0,
                            State::AcceptGuess => self.guess_user < n,
                            _ => true,
                        }
                    },
                    Awaiting::Pause(_) => {
                        self.state == State::AcceptGuess && self.guess_user < n && (
                        self.users[self.guess_user].word_guess.is_some() || self.words_left >= 1)
                    },
                    _ => false,
                }
            },
            Event::Disconnected => {
                self.awaiting == Awaiting::Message && (self.state != State::AcceptGuess
                    || self.words_left >= 1)
            },
            Event::Message(m) => {
                if self.awaiting != Awaiting::Message {
                    return false;
                }
                match (m, self.state) {
                    (ClientMessage::ResendGameState(_), State::AcceptGuess) => self.guess_user < n,
                    (ClientMessage::WordSubmissionResponse(i, _), State::WordSubmission) => {
                        *i == self.guess_user || *i < n
                    },
                    (
                        ClientMessage::ManualDuplicateEliminationResponse(i, remove),
                        State::ManualDuplicateElimination,
                    ) => *i != self.decision_user || all_below(remove, n),
                    (ClientMessage::WordGuessResponse(i, _), State::WordGuess) => {
                        *i != self.guess_user || *i < n
                    },
                    (ClientMessage::AcceptGuessResponse(i, _), State::AcceptGuess) => {
                        *i != self.decision_user || self.words_left >= 1
                    },
                    _ => true,
                }
            },
        }
    }

    /// Lists the messages to send after `event`, without moving the game on.
    pub fn outbox(&self, event: &Event) -> (r: Outbox)
        requires
            self@.wf(),
            self@.accepts(event@),
        ensures
            r@ == self@.outbox(event@),
            forall|word: Seq<char>| #[trigger] self@.after(event@, word).1 == r@,
    {
        match event {
            Event::Proceed => self.announcements(),
            Event::Message(m) => self.answers(m),
            Event::Disconnected => {
                let r = Outbox { messages: Vec::new(), required: true };
                assert(r@ =~= silence());
                r
            },
        }
    }

    fn announcements(&self) -> (r: Outbox)
        requires
            self@.wf(),
            self@.accepts(EventView::Proceed),
        ensures
            forall|word: Seq<char>| #[trigger] self@.proceed(word).1 == r@,
    {
        let n: usize = self.users.len();
        let mut messages: Vec<ServerMessage> = Vec::new();
        assert(messages_view(messages@) =~= Seq::empty());
        match self.state {
            State::WaitingForPlayers => {},
            State::NextRound => {
                let guess_user: usize = next_player(self.guess_user, n);
                let decision_user: usize = next_player(guess_user, n);
                announce_round_started(
                    &mut messages,
                    n,
                    guess_user,
                    decision_user,
                    self.score,
                    self.words_left,
                );
            },
            State::WordSubmission => {
                announce_hints_asked(&mut messages, n, self.guess_user, &self.word_to_guess);
            },
            State::ManualDuplicateElimination => {
                let mut users: Vec<Player> = copy_players(&self.users);
                strike_duplicates(&mut users);
                announce_words_shown(&mut messages, n, self.guess_user, &users);
                messages.push(
                    ServerMessage::ManualDuplicateEliminationRequest(self.decision_user),
                );
            },
            State::WordGuess => {
                announce_filtered_shown(&mut messages, n, &self.users);
                messages.push(ServerMessage::WordGuessRequest(self.guess_user));
            },
            State::AcceptGuess => {
                if self.awaiting == Awaiting::Turn {
                    announce_overview_shown(&mut messages, n, &self.word_to_guess, &self.users);
                } else if self.users[self.guess_user].word_guess.is_some() {
                    messages.push(ServerMessage::AcceptGuessRequest(self.decision_user));
                }
            },
            State::Finished => {
                announce_finished(&mut messages, n, self.score);
            },
        }
        let r = Outbox { messages, required: true };
        assert forall|word: Seq<char>| #[trigger] self@.proceed(word).1 == r@ by {
            assert(r@ =~= self@.proceed(word).1);
        }
        r
    }

    fn answers(&self, m: &ClientMessage) -> (r: Outbox)
        requires
            self@.wf(),
            self@.accepts(EventView::Message(m@)),
        ensures
            r@ == self@.receive(m@).1,
    {
        let n: usize = self.users.len();
        let mut messages: Vec<ServerMessage> = Vec::new();
        let mut required = true;
        assert(messages_view(messages@) =~= Seq::empty());
        match m {
            ClientMessage::ResendGameState(i) => {
                messages = self.send_full_game_state(*i);
                required = false;
            },
            ClientMessage::NewPlayer(name) => {
                if self.state == State::WaitingForPlayers {
                    announce_joined(&mut messages, n, name);
                    announce_roster(&mut messages, n, &self.users);
                    let ghost known = messages_view(messages@);
                    messages.push(ServerMessage::UserAdded(n, name.clone()));
                    assert(messages_view(messages@) =~= known.push(messages@.last()@));
                    assert(roster(n, self@.users.push(newcomer(name@))) =~= roster(
                        n,
                        self@.users,
                    ).push(messages@.last()@));
                }
            },
            ClientMessage::WordSubmissionResponse(i, word) => {
                if self.state == State::WordSubmission && *i != self.guess_user {
                    let mut users: Vec<Player> = copy_players(&self.users);
                    put_word(&mut users, *i, Some(word.clone()));
                    if !everyone_submitted(&users, self.guess_user) {
                        announce_submission_noted(&mut messages, n, *i, *i);
                    }
                }
            },
            _ => {},
        }
        let r = Outbox { messages, required };
        assert(self@.users.len() == n);
        assert(r@ =~= self@.receive(m@).1);
        r
    }

    /// Ends the game because, after `event`, message `k` of its outbox could not be sent.
    pub fn interrupt(&mut self, event: Event, k: usize)
        requires
            old(self)@.wf(),
            old(self)@.accepts(event@),
            old(self)@.outbox(event@).required,
            k < old(self)@.outbox(event@).messages.len(),
        ensures
            final(self)@ == old(self)@.interrupted(event@, k as int),
    {
        let ghost before = self@;
        let ghost what = event@;
        let n: usize = self.users.len();
        assert(self@.users.len() == n);
        match event {
            Event::Proceed if self.state == State::NextRound => {
                self.guess_user = next_player(self.guess_user, n);
                self.decision_user = next_player(self.guess_user, n);
            },
            Event::Proceed if self.state == State::WordSubmission => {
                let asked: usize = if k < self.guess_user {
                    k
                } else {
                    k + 1
                };
                clear_words_up_to(&mut self.users, asked + 1);
            },
            Event::Message(ClientMessage::NewPlayer(name)) => {
                if k >= n {
                    self.users.push(Player { name, word_guess: None, word_stricken: false });
                }
            },
            other => self.advance(other, String::new()),
        }
        self.awaiting = Awaiting::Nothing;
        assert(self@ =~= before.interrupted(what, k as int));
    }

    /// Moves the game on after `event`, and lists the messages to send. Where a round starts, the
    /// word is drawn from the word list.
    pub fn process_state(&mut self, event: Event) -> (r: Outbox)
        requires
            old(self)@.wf(),
            old(self)@.accepts(event@),
        ensures
            final(self)@.wf(),
            !old(self)@.draws(event@) ==> (final(self)@, r@) == old(self)@.after(
                event@,
                Seq::empty(),
            ),
            old(self)@.draws(event@) ==> exists|i: int|
                0 <= i < old(self)@.words.len() && (final(self)@, r@)
                    == #[trigger] old(self)@.after(event@, old(self)@.words[i]),
    {
        let ghost before = self@;
        match (&event, self.state) {
            (Event::Proceed, State::NextRound) => {
                let word = draw_word(&self.words);
                proof {
                    let i = choose|i: int| 0 <= i < before.words.len() && before.words[i] == word@;
                    assert(before.words[i] == word@);
                }
                self.process_state_about(event, word)
            },
            _ => self.process_state_about(event, String::new()),
        }
    }

    /// Moves the game on after `event`, and lists the messages to send. Where a round starts, it
    /// is about `word`.
    pub fn process_state_about(&mut self, event: Event, word: String) -> (r: Outbox)
        requires
            old(self)@.wf(),
            old(self)@.accepts(event@),
        ensures
            final(self)@.wf(),
            (final(self)@, r@) == old(self)@.after(event@, word@),
    {
        let r = self.outbox(&event);
        self.advance(event, word);
        r
    }

    /// Moves the game on after `event`. Where a round starts, it is about `word`.
    fn advance(&mut self, event: Event, word: String)
        requires
            old(self)@.wf(),
            old(self)@.accepts(event@),
        ensures
            final(self)@.wf(),
            final(self)@ == old(self)@.after(event@, word@).0,
    {
        match event {
            Event::Proceed => self.proceed(word),
            Event::Message(m) => self.receive(m),
            Event::Disconnected => self.disconnect(),
        }
    }

    fn move_to(&mut self, state: State)
        ensures
            final(self)@ == old(self)@.moved_to(state),
    {
        self.state = state;
        self.awaiting = Awaiting::Turn;
    }

    fn settle(&mut self, score: usize, words_left: usize)
        ensures
            final(self)@ == old(self)@.settled(score, words_left),
    {
        self.score = score;
        self.words_left = words_left;
        if words_left == 0 {
            self.move_to(State::Finished);
        } else {
            self.move_to(State::NextRound);
        }
    }

    fn judge_guess(&mut self, accepted: bool)
        requires
            old(self)@.wf(),
            old(self)@.words_left >= 1,
        ensures
            final(self)@ == old(self)@.judged(accepted),
            final(self)@.wf(),
    {
        let (score, words_left) = judge(self.score, self.words_left, accepted);
        self.settle(score, words_left);
    }

    fn proceed(&mut self, word: String)
        requires
            old(self)@.wf(),
            old(self)@.accepts(EventView::Proceed),
        ensures
            final(self)@.wf(),
            final(self)@ == old(self)@.proceed(word@).0,
    {
        let ghost before = self@;
        let n: usize = self.users.len();
        match self.state {
            State::WaitingForPlayers => {
                self.awaiting = Awaiting::Message;
            },
            State::NextRound => {
                self.guess_user = next_player(self.guess_user, n);
                self.decision_user = next_player(self.guess_user, n);
                self.word_to_guess = word;
                self.move_to(State::WordSubmission);
            },
            State::WordSubmission => {
                clear_words(&mut self.users);
                self.awaiting = Awaiting::Message;
            },
            State::ManualDuplicateElimination => {
                strike_duplicates(&mut self.users);
                self.awaiting = Awaiting::Message;
            },
            State::WordGuess => {
                self.awaiting = Awaiting::Message;
            },
            State::AcceptGuess => {
                let guessed = self.users[self.guess_user].word_guess.is_some();
                if self.awaiting == Awaiting::Turn {
                    self.awaiting = Awaiting::Pause(
                        if guessed {
                            VERDICT_PAUSE
                        } else {
                            PASS_PAUSE
                        },
                    );
                } else if guessed {
                    self.awaiting = Awaiting::Message;
                } else {
                    self.settle(self.score, self.words_left - 1);
                }
            },
            State::Finished => {
                self.awaiting = Awaiting::Nothing;
            },
        }
        assert(self@ =~= before.proceed(word@).0);
    }

    fn receive(&mut self, m: ClientMessage)
        requires
            old(self)@.wf(),
            old(self)@.accepts(EventView::Message(m@)),
        ensures
            final(self)@.wf(),
            final(self)@ == old(self)@.receive(m@).0,
    {
        let ghost before = self@;
        let ghost message = m@;
        let n: usize = self.users.len();
        match m {
            ClientMessage::ResendGameState(_) => {},
            ClientMessage::StopGame => {
                self.awaiting = Awaiting::Nothing;
            },
            ClientMessage::StartGame => {
                if self.state == State::WaitingForPlayers && n > 1 {
                    self.move_to(State::NextRound);
                }
            },
            ClientMessage::NewPlayer(name) => {
                if self.state == State::WaitingForPlayers {
                    self.users.push(Player { name, word_guess: None, word_stricken: false });
                }
            },
            ClientMessage::WordSubmissionResponse(i, word) => {
                if self.state == State::WordSubmission && i != self.guess_user {
                    put_word(&mut self.users, i, Some(word));
                    if everyone_submitted(&self.users, self.guess_user) {
                        self.move_to(State::ManualDuplicateElimination);
                    }
                }
            },
            ClientMessage::ManualDuplicateEliminationResponse(i, remove) => {
                if self.state == State::ManualDuplicateElimination && i == self.decision_user {
                    strike(&mut self.users, &remove);
                    self.move_to(State::WordGuess);
                }
            },
            ClientMessage::WordGuessResponse(i, word) => {
                if self.state == State::WordGuess && i == self.guess_user {
                    let guess: Option<String> = if word.as_str().is_empty() {
                        None
                    } else {
                        Some(word)
                    };
                    put_word(&mut self.users, i, guess);
                    self.move_to(State::AcceptGuess);
                }
            },
            ClientMessage::AcceptGuessResponse(i, accept) => {
                if self.state == State::AcceptGuess && i == self.decision_user {
                    self.judge_guess(accept);
                }
            },
        }
        assert(self@.users.len() == self.users.len());
        assert(self@ =~= before.receive(message).0);
    }

    fn disconnect(&mut self)
        requires
            old(self)@.wf(),
            old(self)@.accepts(EventView::Disconnected),
        ensures
            final(self)@.wf(),
            final(self)@ == old(self)@.disconnect(),
    {
        match self.state {
            State::WaitingForPlayers => self.move_to(State::NextRound),
            State::WordSubmission => self.move_to(State::ManualDuplicateElimination),
            State::ManualDuplicateElimination => self.move_to(State::WordGuess),
            State::WordGuess => self.move_to(State::AcceptGuess),
            State::AcceptGuess => self.judge_guess(false),
            _ => {},
        }
    }
}

} // verus!
