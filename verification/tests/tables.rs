use justone::chance::draw_game_id;
use justone::chance::draw_word;
use justone::chance::GAME_ID_LENGTH;
use justone::justone::ClientMessage as GameMessage;
use justone::justone::ServerMessage;
use justone::server::ClientMessage;
use justone::server::Connection;
use justone::server::Effect;
use justone::server::ServerState;
use justone::server::ABANDONED_AFTER;
use justone::wire::describe_message;
use justone::wire::describe_reconnecting;
use justone::wire::describe_rejected;
use justone::wire::message_text;
use justone::wire::reconnecting_text;
use justone::wire::rejected_text;
use justone::wire::JsonValue;
use justone::wire::Member;

fn register(game_id: &str, name: &str, password: &str) -> ClientMessage {
    ClientMessage::Register {
        game_id: game_id.to_string(),
        name: name.to_string(),
        password: password.to_string(),
    }
}

/// Handles a message that needs no id.
fn handle(
    server: &mut ServerState,
    connection: &mut Connection,
    m: &ClientMessage,
    client_sender: u64,
) -> Vec<Effect> {
    server.handle(connection, m, client_sender).unwrap()
}

fn to_game(client_sender: u64, m: GameMessage) -> Effect {
    Effect::ToGame(client_sender, m)
}

fn new_player(client_sender: u64, name: &str) -> Effect {
    to_game(client_sender, GameMessage::NewPlayer(name.to_string()))
}

/// A server with the game "den", of ann on channel 10 and bob on channel 11.
fn den() -> (ServerState, Connection, Connection) {
    let mut server = ServerState::new();
    let mut ann = Connection::new(10);
    let mut bob = Connection::new(11);
    handle(&mut server, &mut ann, &register("den", "ann", "pa"), 500);
    handle(&mut server, &mut bob, &register("den", "bob", "pb"), 501);
    (server, ann, bob)
}

#[test]
fn a_player_opens_a_game() {
    let mut server = ServerState::new();
    let mut ann = Connection::new(10);
    assert!(!server.has_game("den"));
    assert_eq!(
        handle(&mut server, &mut ann, &register("den", "ann", "pa"), 500),
        vec![
            Effect::OpenGame { game_id: "den".to_string(), client_sender: 500 },
            new_player(500, "ann"),
        ]
    );
    assert!(server.has_game("den"));
    assert_eq!(ann, Connection { tx: 10, client_sender: Some(500), client_id: Some(0) });
}

#[test]
fn another_player_joins_it() {
    let (mut server, _, bob) = den();
    assert_eq!(bob, Connection { tx: 11, client_sender: Some(500), client_id: Some(1) });
    let mut cyd = Connection::new(12);
    assert_eq!(
        handle(&mut server, &mut cyd, &register("den", "cyd", "pc"), 502),
        vec![new_player(500, "cyd")]
    );
    assert_eq!(cyd.client_id, Some(2));
}

#[test]
fn a_game_without_a_name_gets_a_random_id() {
    let mut server = ServerState::new();
    let mut ids = vec![];
    for i in 0..20 {
        let mut connection = Connection::new(i);
        let effects = handle(&mut server, &mut connection, &register("", "ann", "pa"), 500 + i);
        match &effects[0] {
            Effect::OpenGame { game_id, client_sender } => {
                assert_eq!(*client_sender, 500 + i);
                assert_eq!(game_id.len(), 5);
                assert!(game_id.chars().all(|c| c.is_ascii_alphanumeric()));
                assert!(server.has_game(game_id));
                assert!(!ids.contains(game_id));
                ids.push(game_id.clone());
            }
            other => panic!("{:?}", other),
        }
        assert_eq!(effects[1], new_player(500 + i, "ann"));
    }
}

#[test]
fn a_game_without_a_name_gets_the_drawn_id() {
    let mut server = ServerState::new();
    let mut ann = Connection::new(10);
    let effects =
        server.handle_about(&mut ann, &register("", "ann", "pa"), 500, &"abc12".to_string());
    assert_eq!(
        effects[0],
        Effect::OpenGame { game_id: "abc12".to_string(), client_sender: 500 }
    );
    assert!(server.has_game("abc12"));
    assert!(!server.has_game(""));
}

#[test]
fn players_get_their_places_back() {
    let (mut server, _, _) = den();
    let mut again = Connection::new(99);
    assert_eq!(
        handle(&mut server, &mut again, &register("den", "bob", "pb"), 502),
        vec![
            Effect::ToClient(99, "{\"id\":1,\"type\":\"Reconnecting\"}".to_string()),
            to_game(500, GameMessage::ResendGameState(1)),
        ]
    );
    assert_eq!(again, Connection { tx: 99, client_sender: Some(500), client_id: Some(1) });
    let m = ServerMessage::WordGuessRequest(1);
    assert_eq!(server.forward_server_message(&"den".to_string(), &m).unwrap().0, 99);
}

#[test]
fn wrong_passwords_are_rejected() {
    let (mut server, _, _) = den();
    let mut thief = Connection::new(99);
    assert_eq!(
        handle(&mut server, &mut thief, &register("den", "bob", "guess"), 502),
        vec![Effect::ToClient(
            99,
            "{\"reason\":\"the password does not match the existing player's\",\
             \"type\":\"Rejected\"}"
                .to_string()
        )]
    );
    assert_eq!(thief, Connection { tx: 99, client_sender: Some(500), client_id: None });
    let m = ServerMessage::WordGuessRequest(1);
    assert_eq!(server.forward_server_message(&"den".to_string(), &m).unwrap().0, 11);
}

#[test]
fn newcomers_can_be_late() {
    let (mut server, _, _) = den();
    let den_id = "den".to_string();
    server.forward_server_message(&den_id, &ServerMessage::RoundStart(0, 1, 0, 0, 13));
    let mut cyd = Connection::new(12);
    assert_eq!(
        handle(&mut server, &mut cyd, &register("den", "cyd", "pc"), 502),
        vec![Effect::ToClient(
            12,
            "{\"reason\":\"the game has already started\",\"type\":\"Rejected\"}".to_string()
        )]
    );
    assert_eq!(cyd.client_id, None);
    // those who were there can still come back
    let mut ann = Connection::new(13);
    handle(&mut server, &mut ann, &register("den", "ann", "pa"), 503);
    assert_eq!(ann.client_id, Some(0));
}

#[test]
fn messages_are_forwarded_to_the_player_they_are_meant_for() {
    let (mut server, _, _) = den();
    let den_id = "den".to_string();
    assert_eq!(
        server.forward_server_message(&den_id, &ServerMessage::Finished(0, 7)),
        Some((10, "{\"points\":7,\"type\":\"Finished\"}".to_string()))
    );
    assert_eq!(server.forward_server_message(&den_id, &ServerMessage::Finished(2, 7)), None);
}

#[test]
fn players_speak_for_themselves() {
    let (mut server, mut ann, mut bob) = den();
    assert_eq!(
        handle(&mut server, &mut bob, &ClientMessage::WordSubmission { word: "oak".to_string() }, 0),
        vec![to_game(500, GameMessage::WordSubmissionResponse(1, "oak".to_string()))]
    );
    assert_eq!(
        handle(&mut server, &mut bob, &ClientMessage::WordGuess { word: "tree".to_string() }, 0),
        vec![to_game(500, GameMessage::WordGuessResponse(1, "tree".to_string()))]
    );
    assert_eq!(
        handle(
            &mut server,
            &mut ann,
            &ClientMessage::ManualDuplicateElimination { ids: vec![1, 2] },
            0
        ),
        vec![to_game(
            500,
            GameMessage::ManualDuplicateEliminationResponse(0, vec![1, 2])
        )]
    );
    assert_eq!(
        handle(&mut server, &mut ann, &ClientMessage::AcceptGuess { accept: true }, 0),
        vec![to_game(500, GameMessage::AcceptGuessResponse(0, true))]
    );
}

#[test]
fn only_the_first_player_starts_the_game() {
    let (mut server, mut ann, mut bob) = den();
    assert_eq!(handle(&mut server, &mut bob, &ClientMessage::StartGame, 0), vec![]);
    assert_eq!(
        handle(&mut server, &mut ann, &ClientMessage::StartGame, 0),
        vec![to_game(500, GameMessage::StartGame)]
    );
}

#[test]
fn strangers_are_not_heard() {
    let (mut server, _, _) = den();
    let mut stranger = Connection::new(99);
    let m = ClientMessage::WordSubmission { word: "oak".to_string() };
    assert_eq!(handle(&mut server, &mut stranger, &m, 0), vec![]);
    assert_eq!(handle(&mut server, &mut stranger, &ClientMessage::StartGame, 0), vec![]);
    assert_eq!(stranger, Connection::new(99));
}

#[test]
fn other_games_are_left_alone() {
    let (mut server, _, _) = den();
    let mut dan = Connection::new(20);
    handle(&mut server, &mut dan, &register("attic", "ann", "other"), 600);
    assert_eq!(dan, Connection { tx: 20, client_sender: Some(600), client_id: Some(0) });
    let m = ServerMessage::WordGuessRequest(0);
    assert_eq!(server.forward_server_message(&"den".to_string(), &m).unwrap().0, 10);
    assert_eq!(server.forward_server_message(&"attic".to_string(), &m).unwrap().0, 20);
}

#[test]
fn games_can_be_removed() {
    let (mut server, _, _) = den();
    assert!(server.remove_game("den"));
    assert!(!server.has_game("den"));
    assert!(!server.remove_game("den"));
}

#[test]
fn games_are_abandoned_after_ninety_minutes() {
    assert_eq!(ABANDONED_AFTER, 90 * 60);
}

#[test]
fn drawn_ids_and_words() {
    assert_eq!(GAME_ID_LENGTH, 5);
    let id = draw_game_id();
    assert_eq!(id.len(), 5);
    assert!(id.chars().all(|c| c.is_ascii_alphanumeric()));
    assert!((0..50).any(|_| draw_game_id() != id));
    let words = vec!["tree".to_string(), "sea".to_string()];
    let drawn: Vec<String> = (0..200).map(|_| draw_word(&words)).collect();
    assert!(drawn.iter().all(|w| words.contains(w)));
    assert!(words.iter().all(|w| drawn.contains(w)));
}

#[test]
fn messages_become_json_objects() {
    assert_eq!(
        message_text("den", &ServerMessage::UserAdded(1, "a\"b".to_string())),
        "{\"game_id\":\"den\",\"id\":1,\"type\":\"UserAdded\",\"username\":\"a\\\"b\"}"
    );
    assert_eq!(
        message_text("den", &ServerMessage::RoundStart(0, 1, 2, 3, 4)),
        "{\"current_user\":1,\"decision_user\":2,\"score\":3,\"type\":\"RoundStart\",\
         \"words_left\":4}"
    );
    assert_eq!(
        message_text("den", &ServerMessage::WordSubmitted(0, 2)),
        "{\"type\":\"WordSubmitted\",\"user\":2}"
    );
    assert_eq!(
        message_text("den", &ServerMessage::WordSubmissionRequest(0, "tree".to_string())),
        "{\"type\":\"WordSubmissionRequest\",\"word\":\"tree\"}"
    );
    assert_eq!(
        message_text("den", &ServerMessage::WordGuessRequest(0)),
        "{\"type\":\"WordGuessRequest\"}"
    );
    assert_eq!(
        message_text("den", &ServerMessage::AcceptGuessRequest(0)),
        "{\"type\":\"AcceptGuessRequest\"}"
    );
    assert_eq!(
        message_text("den", &ServerMessage::ManualDuplicateEliminationRequest(0)),
        "{\"type\":\"ManualDuplicateEliminationRequest\"}"
    );
    assert_eq!(
        message_text(
            "den",
            &ServerMessage::ShowFilteredWords(0, vec![None, Some("oak".to_string())])
        ),
        "{\"type\":\"ShowFilteredWords\",\"words\":[null,\"oak\"]}"
    );
    assert_eq!(
        message_text(
            "den",
            &ServerMessage::ShowWords(0, vec![None, Some(("oak".to_string(), true))])
        ),
        "{\"type\":\"ShowWords\",\"words\":[null,[\"oak\",true]]}"
    );
    assert_eq!(
        message_text(
            "den",
            &ServerMessage::ShowRoundOverview(
                0,
                "tree".to_string(),
                vec![Some(("oak".to_string(), false))]
            )
        ),
        "{\"overview\":[[\"oak\",false]],\"type\":\"ShowRoundOverview\",\"word_to_guess\":\"tree\"}"
    );
}

#[test]
fn objects_are_described_before_they_are_written() {
    assert_eq!(
        describe_message("den", &ServerMessage::Finished(0, 7)),
        vec![
            Member { key: "type", value: JsonValue::Text("Finished".to_string()) },
            Member { key: "points", value: JsonValue::Number(7) },
        ]
    );
    assert_eq!(
        describe_reconnecting(3),
        vec![
            Member { key: "type", value: JsonValue::Text("Reconnecting".to_string()) },
            Member { key: "id", value: JsonValue::Number(3) },
        ]
    );
    assert_eq!(
        describe_rejected("no"),
        vec![
            Member { key: "type", value: JsonValue::Text("Rejected".to_string()) },
            Member { key: "reason", value: JsonValue::Text("no".to_string()) },
        ]
    );
    assert_eq!(reconnecting_text(3), "{\"id\":3,\"type\":\"Reconnecting\"}");
    assert_eq!(rejected_text("no"), "{\"reason\":\"no\",\"type\":\"Rejected\"}");
}

#[test]
fn the_first_free_id_is_found() {
    let (server, _, _) = den();
    let ids = |list: &[&str]| -> Vec<String> { list.iter().map(|id| id.to_string()).collect() };
    assert_eq!(server.first_free(&ids(&["den", "den", "attic", "den"])), Some(2));
    assert_eq!(server.first_free(&ids(&["attic", "loft"])), Some(0));
    assert_eq!(server.first_free(&ids(&["den"])), None);
    assert_eq!(server.first_free(&vec![]), None);
}

#[test]
fn ids_are_drawn_until_one_is_free() {
    let (server, _, _) = den();
    let drawn = server.draw_until_free(10);
    assert_eq!(drawn.len(), 1);
    assert_eq!(server.first_free(&drawn), Some(0));
    assert_eq!(drawn[0].len(), GAME_ID_LENGTH);
    assert!(server.draw_until_free(0).is_empty());
}

#[test]
fn a_rejected_browser_has_turned_to_the_other_game() {
    let (mut server, _, mut bob) = den();
    let mut dan = Connection::new(20);
    handle(&mut server, &mut dan, &register("attic", "dan", "pd"), 600);
    handle(&mut server, &mut bob, &register("attic", "dan", "guess"), 601);
    assert_eq!(bob, Connection { tx: 11, client_sender: Some(600), client_id: Some(1) });
}

#[test]
fn a_game_without_a_name_gets_the_first_free_id() {
    let (mut server, _, _) = den();
    let ids = |list: &[&str]| -> Vec<String> { list.iter().map(|id| id.to_string()).collect() };
    let mut dan = Connection::new(20);
    let unnamed = register("", "dan", "pd");
    assert_eq!(server.handle_drawn(&mut dan, &unnamed, 600, &ids(&["den", "den"])), None);
    assert_eq!(dan, Connection::new(20));
    let effects = server.handle_drawn(&mut dan, &unnamed, 600, &ids(&["den", "abc12", "xyz99"]));
    assert_eq!(
        effects.unwrap()[0],
        Effect::OpenGame { game_id: "abc12".to_string(), client_sender: 600 }
    );
    assert!(server.has_game("abc12"));
    assert!(!server.has_game("xyz99"));
    let start = ClientMessage::StartGame;
    assert_eq!(
        server.handle_drawn(&mut dan, &start, 601, &vec![]),
        Some(vec![to_game(600, GameMessage::StartGame)])
    );
}
