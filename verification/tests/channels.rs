use justone::justone::Awaiting;
use justone::logic::ClientMessage;
use justone::logic::Delivery;
use justone::logic::Event;
use justone::logic::Logic;
use justone::logic::ServerMessage;
use justone::logic::State;
use justone::logic::User;

fn words() -> Vec<String> {
    vec!["tree".to_string()]
}

fn newcomer(name: &str, channel_out: u64) -> User {
    User { name: name.to_string(), word_guess: None, word_stricken: false, channel_out }
}

fn step(game: &mut Logic, event: Event) -> Vec<Delivery> {
    assert!(game.can_process(&event), "{:?} does not fit", event);
    game.process_state(event)
}

fn tell(game: &mut Logic, m: ClientMessage) -> Vec<Delivery> {
    step(game, Event::Message(m))
}

fn on(channel: u64, message: ServerMessage) -> Delivery {
    Delivery { channel, message }
}

/// A game of two players on the channels 70 and 71, who have been asked for their hints.
fn two_players() -> Logic {
    let mut game = Logic::new_game(words());
    tell(&mut game, ClientMessage::NewPlayer(newcomer("ann", 70)));
    tell(&mut game, ClientMessage::NewPlayer(newcomer("bob", 71)));
    tell(&mut game, ClientMessage::StartGame);
    step(&mut game, Event::Proceed);
    game
}

/// Brings such a game to the guess of the first player.
fn to_the_first_guess(game: &mut Logic) {
    tell(game, ClientMessage::WordSubmissionResponse(1, "oak".to_string()));
    step(game, Event::Proceed);
    tell(game, ClientMessage::ManualDuplicateEliminationResponse(1, vec![]));
    step(game, Event::Proceed);
}

#[test]
fn messages_go_out_on_the_channels_of_their_players() {
    let mut game = Logic::new_game(words());
    assert_eq!(
        tell(&mut game, ClientMessage::NewPlayer(newcomer("ann", 70))),
        vec![on(70, ServerMessage::UserAdded(0, "ann".to_string()))]
    );
    assert_eq!(
        tell(&mut game, ClientMessage::NewPlayer(newcomer("bob", 71))),
        vec![
            on(70, ServerMessage::UserAdded(0, "bob".to_string())),
            on(71, ServerMessage::UserAdded(1, "ann".to_string())),
            on(71, ServerMessage::UserAdded(1, "bob".to_string())),
        ]
    );
    assert_eq!(
        tell(&mut game, ClientMessage::StartGame),
        vec![
            on(70, ServerMessage::RoundStart(0, 0, 1, 0, 13)),
            on(71, ServerMessage::RoundStart(1, 0, 1, 0, 13)),
        ]
    );
    assert_eq!(
        step(&mut game, Event::Proceed),
        vec![on(71, ServerMessage::WordSubmissionRequest(1, "tree".to_string()))]
    );
}

#[test]
fn the_hints_left_are_shown_before_the_guess_is_asked_for() {
    let mut game = two_players();
    assert_eq!(
        tell(&mut game, ClientMessage::WordSubmissionResponse(1, "oak".to_string())),
        vec![]
    );
    assert_eq!(
        step(&mut game, Event::Proceed),
        vec![
            on(71, ServerMessage::ShowWords(1, vec![None, Some(("oak".to_string(), false))])),
            on(71, ServerMessage::ManualDuplicateEliminationRequest(1)),
        ]
    );
    assert_eq!(
        tell(&mut game, ClientMessage::ManualDuplicateEliminationResponse(1, vec![])),
        vec![
            on(70, ServerMessage::ShowFilteredWords(0, vec![None, Some("oak".to_string())])),
            on(71, ServerMessage::ShowFilteredWords(1, vec![None, Some("oak".to_string())])),
        ]
    );
    assert_eq!(
        step(&mut game, Event::Proceed),
        vec![on(70, ServerMessage::WordGuessRequest(0))]
    );
}

#[test]
fn an_accepted_guess_hands_the_turn_on() {
    let mut game = two_players();
    to_the_first_guess(&mut game);
    let shown = tell(&mut game, ClientMessage::WordGuessResponse(0, "tree".to_string()));
    let overview = vec![Some(("tree".to_string(), false)), Some(("oak".to_string(), false))];
    assert_eq!(
        shown[1],
        on(71, ServerMessage::ShowRoundOverview(1, "tree".to_string(), overview))
    );
    assert_eq!(game.awaiting(), Awaiting::Pause(2));
    assert_eq!(
        step(&mut game, Event::Proceed),
        vec![on(71, ServerMessage::AcceptGuessRequest(1))]
    );
    assert_eq!(
        tell(&mut game, ClientMessage::AcceptGuessResponse(1, true)),
        vec![
            on(70, ServerMessage::RoundStart(0, 1, 0, 1, 12)),
            on(71, ServerMessage::RoundStart(1, 1, 0, 1, 12)),
        ]
    );
    assert_eq!((game.score(), game.words_left()), (1, 12));
    assert_eq!(game.state(), State::WordSubmission);
}

#[test]
fn a_rejected_guess_costs_two_words_here_too() {
    let mut game = two_players();
    to_the_first_guess(&mut game);
    tell(&mut game, ClientMessage::WordGuessResponse(0, "shrub".to_string()));
    step(&mut game, Event::Proceed);
    tell(&mut game, ClientMessage::AcceptGuessResponse(1, false));
    assert_eq!((game.score(), game.words_left()), (0, 11));
}

#[test]
fn a_pass_costs_one_word_here_too() {
    let mut game = two_players();
    to_the_first_guess(&mut game);
    tell(&mut game, ClientMessage::WordGuessResponse(0, String::new()));
    assert_eq!(game.awaiting(), Awaiting::Pause(10));
    assert_eq!(
        step(&mut game, Event::Proceed)[0],
        on(70, ServerMessage::RoundStart(0, 1, 0, 0, 12))
    );
}

#[test]
fn a_round_about_a_given_word_here_too() {
    let mut game = Logic::new_game(words());
    tell(&mut game, ClientMessage::NewPlayer(newcomer("ann", 70)));
    tell(&mut game, ClientMessage::NewPlayer(newcomer("bob", 71)));
    let event = Event::Message(ClientMessage::StartGame);
    assert!(game.can_process(&event));
    game.process_state_about(event, "sea".to_string());
    assert_eq!(
        step(&mut game, Event::Proceed),
        vec![on(71, ServerMessage::WordSubmissionRequest(1, "sea".to_string()))]
    );
}

#[test]
fn submissions_are_noted_on_the_other_channels() {
    let mut game = Logic::new_game_cli(3, 9, words());
    step(&mut game, Event::Proceed);
    assert_eq!(
        tell(&mut game, ClientMessage::WordSubmissionResponse(2, "oak".to_string())),
        vec![on(9, ServerMessage::WordSubmitted(0, 2)), on(9, ServerMessage::WordSubmitted(1, 2))]
    );
}

#[test]
fn messages_out_of_turn_are_ignored_here_too() {
    let mut game = two_players();
    assert_eq!(tell(&mut game, ClientMessage::ResendGameState(0)), vec![]);
    assert_eq!(tell(&mut game, ClientMessage::StartGame), vec![]);
    assert_eq!(
        tell(&mut game, ClientMessage::WordSubmissionResponse(0, "tree".to_string())),
        vec![]
    );
    assert_eq!(game.state(), State::WordSubmission);
}

#[test]
fn games_with_channels_are_not_ready_for_what_does_not_fit() {
    let mut game = two_players();
    assert!(!game.can_process(&Event::Proceed));
    let stranger = ClientMessage::WordSubmissionResponse(2, "leaf".to_string());
    assert!(!game.can_process(&Event::Message(stranger)));
    tell(&mut game, ClientMessage::WordSubmissionResponse(1, "oak".to_string()));
    step(&mut game, Event::Proceed);
    let nobody = ClientMessage::ManualDuplicateEliminationResponse(1, vec![2]);
    assert!(!game.can_process(&Event::Message(nobody)));
    assert!(!Logic::new_game(vec![]).can_process(&Event::Disconnected));
}

#[test]
fn abandoned_games_with_channels_end() {
    let mut game = Logic::new_game_cli_about(2, 5, words(), "sea".to_string());
    let mut last = vec![];
    let mut steps = 0;
    while game.awaiting() != Awaiting::Nothing {
        let event = if game.awaiting() == Awaiting::Message {
            Event::Disconnected
        } else {
            Event::Proceed
        };
        last = step(&mut game, event);
        steps += 1;
        assert!(steps <= 13 * 20 + 12);
    }
    assert_eq!(
        last,
        vec![on(5, ServerMessage::Finished(0, 0)), on(5, ServerMessage::Finished(1, 0))]
    );
    assert_eq!(game.state(), State::Finished);
}

#[test]
fn names_are_told_in_order_on_every_channel() {
    let mut game = Logic::new_game(words());
    let mut sent = vec![];
    for (name, channel) in [("ann", 70), ("bob", 71), ("cyd", 72)].iter() {
        sent.extend(tell(&mut game, ClientMessage::NewPlayer(newcomer(name, *channel))));
    }
    for i in 0..3 {
        let told: Vec<&ServerMessage> =
            sent.iter().filter(|d| d.channel == 70 + i as u64).map(|d| &d.message).collect();
        assert_eq!(
            told,
            vec![
                &ServerMessage::UserAdded(i, "ann".to_string()),
                &ServerMessage::UserAdded(i, "bob".to_string()),
                &ServerMessage::UserAdded(i, "cyd".to_string()),
            ]
        );
    }
}

#[test]
fn two_players_are_needed_here_too() {
    let mut game = Logic::new_game(words());
    tell(&mut game, ClientMessage::NewPlayer(newcomer("ann", 70)));
    assert_eq!(tell(&mut game, ClientMessage::StartGame), vec![]);
    assert_eq!(game.state(), State::WaitingForPlayers);
}

#[test]
fn turns_go_round_the_table() {
    let mut game = two_players();
    for round in 0..3 {
        let (current, deciding) = (round % 2, (round + 1) % 2);
        tell(&mut game, ClientMessage::WordSubmissionResponse(deciding, "oak".to_string()));
        step(&mut game, Event::Proceed);
        tell(&mut game, ClientMessage::ManualDuplicateEliminationResponse(deciding, vec![]));
        step(&mut game, Event::Proceed);
        tell(&mut game, ClientMessage::WordGuessResponse(current, "tree".to_string()));
        step(&mut game, Event::Proceed);
        tell(&mut game, ClientMessage::AcceptGuessResponse(deciding, true));
        step(&mut game, Event::Proceed);
        assert_eq!(game.score(), round + 1);
    }
}
