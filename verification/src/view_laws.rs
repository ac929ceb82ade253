//! The content of a value is all that it holds, piece by piece.
use vstd::prelude::*;

use crate::cli::Command;
use crate::cli::CommandView;
use crate::justone;
use crate::logic;
use crate::messages::ServerMessage;
use crate::messages::ServerMessageView;
use crate::server;
use crate::wire::JsonValue;
use crate::wire::JsonValueView;
use crate::wire::Member;

verus! {

/// The same words with the same marks at the same places.
pub open spec fn same_marked_words(
    words: Seq<Option<(String, bool)>>,
    seen: Seq<Option<(Seq<char>, bool)>>,
) -> bool {
    &&& seen.len() == words.len()
    &&& forall|i: int|
        0 <= i < words.len() ==> match words[i] {
            Some((w, stricken)) => #[trigger] seen[i] == Some((w@, stricken)),
            None => seen[i] is None,
        }
}

/// The same words at the same places.
pub open spec fn same_plain_words(
    words: Seq<Option<String>>,
    seen: Seq<Option<Seq<char>>>,
) -> bool {
    &&& seen.len() == words.len()
    &&& forall|i: int|
        0 <= i < words.len() ==> match words[i] {
            Some(w) => #[trigger] seen[i] == Some(w@),
            None => seen[i] is None,
        }
}

/// Messages of the game are seen whole.
pub proof fn law_server_messages_are_seen_whole(m: ServerMessage)
    ensures
        match m {
            ServerMessage::UserAdded(i, name) => m@ == ServerMessageView::UserAdded(i, name@),
            ServerMessage::RoundStart(i, a, b, c, d) => m@ == ServerMessageView::RoundStart(
                i,
                a,
                b,
                c,
                d,
            ),
            ServerMessage::WordSubmissionRequest(i, w) => m@
                == ServerMessageView::WordSubmissionRequest(i, w@),
            ServerMessage::ManualDuplicateEliminationRequest(i) => m@
                == ServerMessageView::ManualDuplicateEliminationRequest(i),
            ServerMessage::WordGuessRequest(i) => m@ == ServerMessageView::WordGuessRequest(i),
            ServerMessage::ShowWords(i, words) => m@ matches ServerMessageView::ShowWords(j, seen)
                && j == i && same_marked_words(words@, seen),
            ServerMessage::ShowFilteredWords(i, words) => m@ matches
                ServerMessageView::ShowFilteredWords(j, seen) && j == i && same_plain_words(
                words@,
                seen,
            ),
            ServerMessage::ShowRoundOverview(i, w, words) => m@ matches
                ServerMessageView::ShowRoundOverview(j, v, seen) && j == i && v == w@
                && same_marked_words(words@, seen),
            ServerMessage::AcceptGuessRequest(i) => m@ == ServerMessageView::AcceptGuessRequest(i),
            ServerMessage::Finished(i, score) => m@ == ServerMessageView::Finished(i, score),
            ServerMessage::WordSubmitted(i, user) => m@ == ServerMessageView::WordSubmitted(
                i,
                user,
            ),
        },
{
}

/// Messages to a game, and what happens to one, are seen whole.
pub proof fn law_events_are_seen_whole(m: justone::ClientMessage)
    ensures
        match m {
            justone::ClientMessage::NewPlayer(name) => m@ == justone::ClientMessageView::NewPlayer(
                name@,
            ),
            justone::ClientMessage::StartGame => m@ == justone::ClientMessageView::StartGame,
            justone::ClientMessage::ResendGameState(i) => m@
                == justone::ClientMessageView::ResendGameState(i),
            justone::ClientMessage::WordSubmissionResponse(i, w) => m@
                == justone::ClientMessageView::WordSubmissionResponse(i, w@),
            justone::ClientMessage::ManualDuplicateEliminationResponse(i, ids) => m@
                == justone::ClientMessageView::ManualDuplicateEliminationResponse(i, ids@),
            justone::ClientMessage::WordGuessResponse(i, w) => m@
                == justone::ClientMessageView::WordGuessResponse(i, w@),
            justone::ClientMessage::AcceptGuessResponse(i, accept) => m@
                == justone::ClientMessageView::AcceptGuessResponse(i, accept),
            justone::ClientMessage::StopGame => m@ == justone::ClientMessageView::StopGame,
        },
        justone::Event::Proceed@ == justone::EventView::Proceed,
        justone::Event::Message(m)@ == justone::EventView::Message(m@),
        justone::Event::Disconnected@ == justone::EventView::Disconnected,
{
}

/// Messages to a game with channels, and what happens to one, are seen whole.
pub proof fn law_logic_events_are_seen_whole(m: logic::ClientMessage, u: logic::User)
    ensures
        match m {
            logic::ClientMessage::NewPlayer(user) => m@ == logic::ClientMessageView::NewPlayer(
                user@,
            ),
            logic::ClientMessage::StartGame => m@ == logic::ClientMessageView::StartGame,
            logic::ClientMessage::ResendGameState(i) => m@
                == logic::ClientMessageView::ResendGameState(i),
            logic::ClientMessage::WordSubmissionResponse(i, w) => m@
                == logic::ClientMessageView::WordSubmissionResponse(i, w@),
            logic::ClientMessage::ManualDuplicateEliminationResponse(i, ids) => m@
                == logic::ClientMessageView::ManualDuplicateEliminationResponse(i, ids@),
            logic::ClientMessage::WordGuessResponse(i, w) => m@
                == logic::ClientMessageView::WordGuessResponse(i, w@),
            logic::ClientMessage::AcceptGuessResponse(i, accept) => m@
                == logic::ClientMessageView::AcceptGuessResponse(i, accept),
        },
        u@.channel_out == u.channel_out,
        u@.player.name == u.name@,
        u@.player.word_stricken == u.word_stricken,
        u@.player.word_guess is Some <==> u.word_guess is Some,
        u.word_guess is Some ==> u@.player.word_guess->0 == u.word_guess->0@,
        logic::Event::Proceed@ == logic::EventView::Proceed,
        logic::Event::Message(m)@ == logic::EventView::Message(m@),
        logic::Event::Disconnected@ == logic::EventView::Disconnected,
{
}

/// What a game sends is seen whole.
pub proof fn law_outboxes_are_seen_whole(out: justone::Outbox, d: logic::Delivery)
    ensures
        out@.required == out.required,
        out@.messages.len() == out.messages@.len(),
        forall|i: int|
            0 <= i < out.messages@.len() ==> #[trigger] out@.messages[i] == out.messages@[i]@,
        d@.channel == d.channel,
        d@.message == d.message@,
{
}

/// Typed commands are seen whole.
pub proof fn law_commands_are_seen_whole(c: Command)
    ensures
        match c {
            Command::WordSubmissionResponse(i, w) => c@ == CommandView::WordSubmissionResponse(
                i,
                w@,
            ),
            Command::AcceptGuessResponse(i, accept) => c@ == CommandView::AcceptGuessResponse(
                i,
                accept,
            ),
            Command::WordGuessResponse(i, w) => c@ == CommandView::WordGuessResponse(i, w@),
            Command::ResendGameState(i) => c@ == CommandView::ResendGameState(i),
            Command::ManualDuplicateEliminationResponse(i, ids) => c@
                == CommandView::ManualDuplicateEliminationResponse(i, ids@),
        },
{
}

/// Messages of browsers, and what the server has to do, are seen whole.
pub proof fn law_requests_are_seen_whole(m: server::ClientMessage, e: server::Effect)
    ensures
        match m {
            server::ClientMessage::Register { game_id, name, password } => m@
                == server::ClientMessageView::Register {
                game_id: game_id@,
                name: name@,
                password: password@,
            },
            server::ClientMessage::WordSubmission { word } => m@
                == server::ClientMessageView::WordSubmission { word: word@ },
            server::ClientMessage::ManualDuplicateElimination { ids } => m@
                == server::ClientMessageView::ManualDuplicateElimination { ids: ids@ },
            server::ClientMessage::WordGuess { word } => m@
                == server::ClientMessageView::WordGuess { word: word@ },
            server::ClientMessage::AcceptGuess { accept } => m@
                == server::ClientMessageView::AcceptGuess { accept },
            server::ClientMessage::StartGame => m@ == server::ClientMessageView::StartGame,
        },
        match e {
            server::Effect::OpenGame { game_id, client_sender } => e@
                == server::EffectView::OpenGame { game_id: game_id@, client_sender },
            server::Effect::ToGame(to, message) => e@ == server::EffectView::ToGame(to, message@),
            server::Effect::ToClient(tx, text) => e@ == server::EffectView::ToClient(tx, text@),
        },
{
}

/// Tables and those who sit there are seen whole.
pub proof fn law_tables_are_seen_whole(game: server::Game, u: server::User)
    ensures
        game@.started == game.started,
        game@.client_sender == game.client_sender,
        game@.users.len() == game.users@.len(),
        forall|i: int|
            0 <= i < game.users@.len() ==> #[trigger] game@.users[i] == game.users@[i]@,
        u@.name == u.name@,
        u@.password == u.password@,
        u@.tx == u.tx,
{
}

/// The members of objects are seen whole.
pub proof fn law_members_are_seen_whole(m: Member)
    ensures
        m@.key == m.key@,
        match m.value {
            JsonValue::Text(t) => m@.value == JsonValueView::Text(t@),
            JsonValue::Number(n) => m@.value == JsonValueView::Number(n),
            JsonValue::MarkedWords(words) => m@.value matches JsonValueView::MarkedWords(seen)
                && same_marked_words(words@, seen),
            JsonValue::Words(words) => m@.value matches JsonValueView::Words(seen)
                && same_plain_words(words@, seen),
        },
{
}

} // verus!
