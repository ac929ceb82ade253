//! What the game tells its players.
use vstd::prelude::*;

use crate::players::marked_words_view;
use crate::players::words_view;

verus! {

/// A message of the game to one player. The first field is the player it is meant for.
#[derive(Debug, PartialEq)]
pub enum ServerMessage {
    /// A player has joined.
    UserAdded(usize, String),
    /// A round starts: guessing player, deciding player, score, words left.
    RoundStart(usize, usize, usize, usize, usize),
    /// Asks for a hint for the word.
    WordSubmissionRequest(usize, String),
    /// Asks which hints are to be stricken.
    ManualDuplicateEliminationRequest(usize),
    /// Asks for the guess.
    WordGuessRequest(usize),
    /// All hints, with the mark that they were stricken.
    ShowWords(usize, Vec<Option<(String, bool)>>),
    /// The hints that were not stricken.
    ShowFilteredWords(usize, Vec<Option<String>>),
    /// The word, and all hints and the guess.
    ShowRoundOverview(usize, String, Vec<Option<(String, bool)>>),
    /// Asks whether the guess is right.
    AcceptGuessRequest(usize),
    /// The game is over: the score.
    Finished(usize, usize),
    /// A player has submitted a hint.
    WordSubmitted(usize, usize),
}

/// The mathematical content of a [`ServerMessage`].
#[verifier::ext_equal]
pub enum ServerMessageView {
    UserAdded(usize, Seq<char>),
    RoundStart(usize, usize, usize, usize, usize),
    WordSubmissionRequest(usize, Seq<char>),
    ManualDuplicateEliminationRequest(usize),
    WordGuessRequest(usize),
    ShowWords(usize, Seq<Option<(Seq<char>, bool)>>),
    ShowFilteredWords(usize, Seq<Option<Seq<char>>>),
    ShowRoundOverview(usize, Seq<char>, Seq<Option<(Seq<char>, bool)>>),
    AcceptGuessRequest(usize),
    Finished(usize, usize),
    WordSubmitted(usize, usize),
}

impl View for ServerMessage {
    type V = ServerMessageView;

    open spec fn view(&self) -> ServerMessageView {
        match self {
            ServerMessage::UserAdded(i, name) => ServerMessageView::UserAdded(*i, name@),
            ServerMessage::RoundStart(i, guess_user, decision_user, score, words_left) =>
                ServerMessageView::RoundStart(
                *i,
                *guess_user,
                *decision_user,
                *score,
                *words_left,
            ),
            ServerMessage::WordSubmissionRequest(i, word) =>
                ServerMessageView::WordSubmissionRequest(*i, word@),
            ServerMessage::ManualDuplicateEliminationRequest(i) =>
                ServerMessageView::ManualDuplicateEliminationRequest(*i),
            ServerMessage::WordGuessRequest(i) => ServerMessageView::WordGuessRequest(*i),
            ServerMessage::ShowWords(i, words) => ServerMessageView::ShowWords(
                *i,
                marked_words_view(words@),
            ),
            ServerMessage::ShowFilteredWords(i, words) => ServerMessageView::ShowFilteredWords(
                *i,
                words_view(words@),
            ),
            ServerMessage::ShowRoundOverview(i, word, words) =>
                ServerMessageView::ShowRoundOverview(*i, word@, marked_words_view(words@)),
            ServerMessage::AcceptGuessRequest(i) => ServerMessageView::AcceptGuessRequest(*i),
            ServerMessage::Finished(i, score) => ServerMessageView::Finished(*i, *score),
            ServerMessage::WordSubmitted(i, user) => ServerMessageView::WordSubmitted(*i, *user),
        }
    }
}

impl ServerMessageView {
    /// The player the message is meant for.
    pub open spec fn recipient(self) -> usize {
        match self {
            ServerMessageView::UserAdded(i, _) => i,
            ServerMessageView::RoundStart(i, _, _, _, _) => i,
            ServerMessageView::WordSubmissionRequest(i, _) => i,
            ServerMessageView::ManualDuplicateEliminationRequest(i) => i,
            ServerMessageView::WordGuessRequest(i) => i,
            ServerMessageView::ShowWords(i, _) => i,
            ServerMessageView::ShowFilteredWords(i, _) => i,
            ServerMessageView::ShowRoundOverview(i, _, _) => i,
            ServerMessageView::AcceptGuessRequest(i) => i,
            ServerMessageView::Finished(i, _) => i,
            ServerMessageView::WordSubmitted(i, _) => i,
        }
    }
}

impl ServerMessage {
    /// The player the message is meant for.
    pub fn recipient(&self) -> (r: usize)
        ensures
            r == self@.recipient(),
    {
        match self {
            ServerMessage::UserAdded(i, _) => *i,
            ServerMessage::RoundStart(i, _, _, _, _) => *i,
            ServerMessage::WordSubmissionRequest(i, _) => *i,
            ServerMessage::ManualDuplicateEliminationRequest(i) => *i,
            ServerMessage::WordGuessRequest(i) => *i,
            ServerMessage::ShowWords(i, _) => *i,
            ServerMessage::ShowFilteredWords(i, _) => *i,
            ServerMessage::ShowRoundOverview(i, _, _) => *i,
            ServerMessage::AcceptGuessRequest(i) => *i,
            ServerMessage::Finished(i, _) => *i,
            ServerMessage::WordSubmitted(i, _) => *i,
        }
    }
}

/// The content of a list of messages.
pub open spec fn messages_view(messages: Seq<ServerMessage>) -> Seq<ServerMessageView> {
    Seq::new(messages.len(), |i: int| messages[i]@)
}

} // verus!
