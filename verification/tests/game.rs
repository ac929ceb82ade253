use justone::justone::Awaiting;
use justone::justone::ClientMessage;
use justone::justone::Event;
use justone::justone::JustOneGame;
use justone::justone::Outbox;
use justone::justone::ServerMessage;
use justone::justone::State;
use justone::justone::WordList;
use justone::rounds::DEFAULT_WORD_COUNT;
use justone::rounds::PASS_PAUSE;
use justone::rounds::VERDICT_PAUSE;

fn words(list: &[&str]) -> Vec<String> {
    list.iter().map(|w| w.to_string()).collect()
}

fn step(game: &mut JustOneGame, event: Event) -> Vec<ServerMessage> {
    assert!(game.can_process(&event), "{:?} does not fit", event);
    let out = game.process_state(event);
    assert!(out.required);
    out.messages
}

fn proceed(game: &mut JustOneGame) -> Vec<ServerMessage> {
    step(game, Event::Proceed)
}

fn tell(game: &mut JustOneGame, m: ClientMessage) -> Vec<ServerMessage> {
    step(game, Event::Message(m))
}

fn hint(game: &mut JustOneGame, i: usize, word: &str) -> Vec<ServerMessage> {
    tell(game, ClientMessage::WordSubmissionResponse(i, word.to_string()))
}

fn marked(list: &[Option<(&str, bool)>]) -> Vec<Option<(String, bool)>> {
    list.iter().map(|w| w.map(|(w, stricken)| (w.to_string(), stricken))).collect()
}

fn plain(list: &[Option<&str>]) -> Vec<Option<String>> {
    list.iter().map(|w| w.map(|w| w.to_string())).collect()
}

/// A game of three players, in its first round, which is about "tree".
fn three_players(word_count: usize) -> JustOneGame {
    let mut game = JustOneGame::new_game(words(&["tree"]), word_count);
    for name in ["ann", "bob", "cyd"].iter() {
        tell(&mut game, ClientMessage::NewPlayer(name.to_string()));
    }
    assert_eq!(tell(&mut game, ClientMessage::StartGame), vec![]);
    assert_eq!(game.state(), State::NextRound);
    proceed(&mut game);
    game
}

/// Brings a game of three players from the start of a round to the guess of player `i`.
fn to_the_guess(game: &mut JustOneGame, i: usize) {
    proceed(game);
    for j in 0..3 {
        if j != i {
            hint(game, j, &format!("hint{}", j));
        }
    }
    proceed(game);
    tell(game, ClientMessage::ManualDuplicateEliminationResponse((i + 1) % 3, vec![]));
    proceed(game);
    assert_eq!(game.state(), State::WordGuess);
}

#[test]
fn a_new_game_waits_for_players() {
    let game = JustOneGame::new_game(words(&["tree"]), 5);
    assert_eq!(game.state(), State::WaitingForPlayers);
    assert_eq!(game.awaiting(), Awaiting::Message);
    assert_eq!(game.score(), 0);
    assert_eq!(game.words_left(), 5);
}

#[test]
fn players_are_introduced_to_each_other() {
    let mut game = JustOneGame::new_game(words(&["tree"]), 5);
    assert_eq!(
        tell(&mut game, ClientMessage::NewPlayer("ann".to_string())),
        vec![ServerMessage::UserAdded(0, "ann".to_string())]
    );
    assert_eq!(
        tell(&mut game, ClientMessage::NewPlayer("bob".to_string())),
        vec![
            ServerMessage::UserAdded(0, "bob".to_string()),
            ServerMessage::UserAdded(1, "ann".to_string()),
            ServerMessage::UserAdded(1, "bob".to_string()),
        ]
    );
}

#[test]
fn newcomers_are_told_the_state() {
    let mut game = JustOneGame::new_game(words(&["tree"]), 5);
    tell(&mut game, ClientMessage::NewPlayer("ann".to_string()));
    let told = tell(&mut game, ClientMessage::NewPlayer("bob".to_string()));
    let mine: Vec<ServerMessage> = told.into_iter().filter(|m| m.recipient() == 1).collect();
    assert_eq!(mine, game.send_full_game_state(1));
}

#[test]
fn one_player_cannot_start_a_game() {
    let mut game = JustOneGame::new_game(words(&["tree"]), 5);
    tell(&mut game, ClientMessage::NewPlayer("ann".to_string()));
    assert_eq!(tell(&mut game, ClientMessage::StartGame), vec![]);
    assert_eq!(game.state(), State::WaitingForPlayers);
    tell(&mut game, ClientMessage::NewPlayer("bob".to_string()));
    tell(&mut game, ClientMessage::StartGame);
    assert_eq!(game.state(), State::NextRound);
}

#[test]
fn the_first_round_lets_the_second_player_guess() {
    let mut game = JustOneGame::new_game(words(&["tree"]), 5);
    for name in ["ann", "bob", "cyd"].iter() {
        tell(&mut game, ClientMessage::NewPlayer(name.to_string()));
    }
    tell(&mut game, ClientMessage::StartGame);
    assert_eq!(
        proceed(&mut game),
        vec![
            ServerMessage::RoundStart(0, 1, 2, 0, 5),
            ServerMessage::RoundStart(1, 1, 2, 0, 5),
            ServerMessage::RoundStart(2, 1, 2, 0, 5),
        ]
    );
    assert_eq!(
        proceed(&mut game),
        vec![
            ServerMessage::WordSubmissionRequest(0, "tree".to_string()),
            ServerMessage::WordSubmissionRequest(2, "tree".to_string()),
        ]
    );
}

#[test]
fn a_round_is_about_a_word_of_the_list() {
    let list = ["tree", "house", "sea"];
    for _ in 0..20 {
        let mut game = JustOneGame::new_game(words(&list), 5);
        tell(&mut game, ClientMessage::NewPlayer("ann".to_string()));
        tell(&mut game, ClientMessage::NewPlayer("bob".to_string()));
        tell(&mut game, ClientMessage::StartGame);
        proceed(&mut game);
        match &proceed(&mut game)[0] {
            ServerMessage::WordSubmissionRequest(0, word) => assert!(list.contains(&word.as_str())),
            other => panic!("{:?}", other),
        }
    }
}

#[test]
fn a_round_about_a_given_word() {
    let mut game = JustOneGame::new_game(words(&["tree", "house"]), 5);
    tell(&mut game, ClientMessage::NewPlayer("ann".to_string()));
    tell(&mut game, ClientMessage::NewPlayer("bob".to_string()));
    tell(&mut game, ClientMessage::StartGame);
    assert!(game.can_process(&Event::Proceed));
    game.process_state_about(Event::Proceed, "house".to_string());
    assert_eq!(
        proceed(&mut game),
        vec![ServerMessage::WordSubmissionRequest(0, "house".to_string())]
    );
}

#[test]
fn submissions_are_noted_until_the_last() {
    let mut game = three_players(5);
    proceed(&mut game);
    assert_eq!(
        hint(&mut game, 2, "oak"),
        vec![ServerMessage::WordSubmitted(0, 2), ServerMessage::WordSubmitted(1, 2)]
    );
    assert_eq!(game.state(), State::WordSubmission);
    assert_eq!(hint(&mut game, 0, "leaf"), vec![]);
    assert_eq!(game.state(), State::ManualDuplicateElimination);
}

#[test]
fn duplicates_are_stricken_whatever_their_case() {
    let mut game = three_players(5);
    proceed(&mut game);
    hint(&mut game, 0, "Leaf");
    hint(&mut game, 2, "lEAF");
    let shown = marked(&[Some(("Leaf", true)), None, Some(("lEAF", true))]);
    assert_eq!(
        proceed(&mut game),
        vec![
            ServerMessage::ShowWords(0, marked(&[Some(("Leaf", true)), None, Some(("lEAF", true))])),
            ServerMessage::ShowWords(2, shown),
            ServerMessage::ManualDuplicateEliminationRequest(2),
        ]
    );
    tell(&mut game, ClientMessage::ManualDuplicateEliminationResponse(2, vec![]));
    assert_eq!(
        proceed(&mut game),
        vec![
            ServerMessage::ShowFilteredWords(0, plain(&[None, None, None])),
            ServerMessage::ShowFilteredWords(1, plain(&[None, None, None])),
            ServerMessage::ShowFilteredWords(2, plain(&[None, None, None])),
            ServerMessage::WordGuessRequest(1),
        ]
    );
}

#[test]
fn only_ascii_letters_lose_their_case() {
    let mut game = three_players(5);
    proceed(&mut game);
    hint(&mut game, 0, "\u{e9}t\u{e9}");
    hint(&mut game, 2, "\u{c9}T\u{c9}");
    assert_eq!(
        proceed(&mut game)[0],
        ServerMessage::ShowWords(
            0,
            marked(&[Some(("\u{e9}t\u{e9}", false)), None, Some(("\u{c9}T\u{c9}", false))])
        )
    );
}

#[test]
fn the_deciding_player_strikes_hints() {
    let mut game = three_players(5);
    proceed(&mut game);
    hint(&mut game, 0, "leaf");
    hint(&mut game, 2, "oak");
    proceed(&mut game);
    assert_eq!(
        tell(&mut game, ClientMessage::ManualDuplicateEliminationResponse(2, vec![0])),
        vec![]
    );
    assert_eq!(
        proceed(&mut game)[1],
        ServerMessage::ShowFilteredWords(1, plain(&[None, None, Some("oak")]))
    );
}

#[test]
fn a_right_guess_scores() {
    let mut game = three_players(5);
    to_the_guess(&mut game, 1);
    tell(&mut game, ClientMessage::WordGuessResponse(1, "tree".to_string()));
    assert_eq!(game.state(), State::AcceptGuess);
    let overview = [Some(("hint0", false)), Some(("tree", false)), Some(("hint2", false))];
    assert_eq!(
        proceed(&mut game),
        vec![
            ServerMessage::ShowRoundOverview(0, "tree".to_string(), marked(&overview)),
            ServerMessage::ShowRoundOverview(1, "tree".to_string(), marked(&overview)),
            ServerMessage::ShowRoundOverview(2, "tree".to_string(), marked(&overview)),
        ]
    );
    assert_eq!(game.awaiting(), Awaiting::Pause(2));
    assert_eq!(game.awaiting(), Awaiting::Pause(VERDICT_PAUSE));
    assert_eq!(proceed(&mut game), vec![ServerMessage::AcceptGuessRequest(2)]);
    assert_eq!(tell(&mut game, ClientMessage::AcceptGuessResponse(2, true)), vec![]);
    assert_eq!((game.score(), game.words_left()), (1, 4));
    assert_eq!(game.state(), State::NextRound);
    assert_eq!(proceed(&mut game)[0], ServerMessage::RoundStart(0, 2, 0, 1, 4));
}

#[test]
fn a_wrong_guess_costs_two_words() {
    let mut game = three_players(5);
    to_the_guess(&mut game, 1);
    tell(&mut game, ClientMessage::WordGuessResponse(1, "shrub".to_string()));
    proceed(&mut game);
    proceed(&mut game);
    tell(&mut game, ClientMessage::AcceptGuessResponse(2, false));
    assert_eq!((game.score(), game.words_left()), (0, 3));
}

#[test]
fn a_wrong_guess_at_the_last_word_ends_the_game() {
    let mut game = three_players(1);
    to_the_guess(&mut game, 1);
    tell(&mut game, ClientMessage::WordGuessResponse(1, "shrub".to_string()));
    proceed(&mut game);
    proceed(&mut game);
    tell(&mut game, ClientMessage::AcceptGuessResponse(2, false));
    assert_eq!((game.score(), game.words_left()), (0, 0));
    assert_eq!(game.state(), State::Finished);
    assert_eq!(
        proceed(&mut game),
        vec![
            ServerMessage::Finished(0, 0),
            ServerMessage::Finished(1, 0),
            ServerMessage::Finished(2, 0),
        ]
    );
    assert_eq!(game.awaiting(), Awaiting::Nothing);
}

#[test]
fn passing_costs_one_word() {
    let mut game = three_players(5);
    to_the_guess(&mut game, 1);
    tell(&mut game, ClientMessage::WordGuessResponse(1, String::new()));
    proceed(&mut game);
    assert_eq!(game.awaiting(), Awaiting::Pause(10));
    assert_eq!(game.awaiting(), Awaiting::Pause(PASS_PAUSE));
    assert_eq!(proceed(&mut game), vec![]);
    assert_eq!((game.score(), game.words_left()), (0, 4));
    assert_eq!(game.state(), State::NextRound);
}

#[test]
fn everyone_gets_a_turn() {
    let mut game = three_players(13);
    let mut guessers = vec![];
    for round in 0..3 {
        let i = (round + 1) % 3;
        guessers.push(i);
        to_the_guess(&mut game, i);
        tell(&mut game, ClientMessage::WordGuessResponse(i, "tree".to_string()));
        proceed(&mut game);
        proceed(&mut game);
        tell(&mut game, ClientMessage::AcceptGuessResponse((i + 1) % 3, true));
        assert_eq!(game.score() + game.words_left(), 13);
        proceed(&mut game);
    }
    assert_eq!(guessers, vec![1, 2, 0]);
    assert_eq!(game.score(), 3);
}

#[test]
fn rejoining_players_are_told_the_same() {
    let mut game = three_players(5);
    let asked = proceed(&mut game);
    let expected = vec![
        ServerMessage::UserAdded(2, "ann".to_string()),
        ServerMessage::UserAdded(2, "bob".to_string()),
        ServerMessage::UserAdded(2, "cyd".to_string()),
        ServerMessage::RoundStart(2, 1, 2, 0, 5),
        ServerMessage::WordSubmissionRequest(2, "tree".to_string()),
    ];
    assert_eq!(asked[1], expected[4]);
    assert_eq!(game.send_full_game_state(2), expected);
    let event = Event::Message(ClientMessage::ResendGameState(2));
    assert!(game.can_process(&event));
    assert_eq!(game.process_state(event), Outbox { messages: expected, required: false });
    assert_eq!(game.state(), State::WordSubmission);
}

#[test]
fn submissions_are_replayed() {
    let mut game = three_players(5);
    proceed(&mut game);
    hint(&mut game, 0, "leaf");
    assert_eq!(
        game.send_full_game_state(1)[3..],
        [ServerMessage::RoundStart(1, 1, 2, 0, 5), ServerMessage::WordSubmitted(1, 0)]
    );
}

#[test]
fn the_later_stages_are_replayed() {
    let mut game = three_players(5);
    proceed(&mut game);
    hint(&mut game, 0, "leaf");
    hint(&mut game, 2, "oak");
    proceed(&mut game);
    let shown = [Some(("leaf", false)), None, Some(("oak", false))];
    assert_eq!(
        game.send_full_game_state(2)[4..],
        [
            ServerMessage::ShowWords(2, marked(&shown)),
            ServerMessage::ManualDuplicateEliminationRequest(2),
        ]
    );
    assert_eq!(game.send_full_game_state(1).len(), 4);
    tell(&mut game, ClientMessage::ManualDuplicateEliminationResponse(2, vec![]));
    proceed(&mut game);
    assert_eq!(
        game.send_full_game_state(1)[4..],
        [
            ServerMessage::ShowFilteredWords(1, plain(&[Some("leaf"), None, Some("oak")])),
            ServerMessage::WordGuessRequest(1),
        ]
    );
    tell(&mut game, ClientMessage::WordGuessResponse(1, "tree".to_string()));
    proceed(&mut game);
    proceed(&mut game);
    let overview = [Some(("leaf", false)), Some(("tree", false)), Some(("oak", false))];
    assert_eq!(
        game.send_full_game_state(2)[4..],
        [
            ServerMessage::ShowRoundOverview(2, "tree".to_string(), marked(&overview)),
            ServerMessage::AcceptGuessRequest(2),
        ]
    );
    assert_eq!(game.send_full_game_state(0).len(), 5);
}

#[test]
fn the_guesser_is_kept_in_the_dark() {
    let mut game = three_players(5);
    let mut seen = proceed(&mut game);
    seen.extend(game.send_full_game_state(1));
    seen.extend(hint(&mut game, 0, "leaf"));
    seen.extend(hint(&mut game, 2, "oak"));
    seen.extend(proceed(&mut game));
    seen.extend(game.send_full_game_state(1));
    for m in seen.iter().filter(|m| m.recipient() == 1) {
        assert!(!matches!(
            m,
            ServerMessage::WordSubmissionRequest(..)
                | ServerMessage::ShowWords(..)
                | ServerMessage::ShowRoundOverview(..)
        ));
    }
}

#[test]
fn uncalled_messages_are_ignored() {
    let mut game = three_players(5);
    proceed(&mut game);
    assert_eq!(hint(&mut game, 1, "tree"), vec![]);
    assert_eq!(tell(&mut game, ClientMessage::StartGame), vec![]);
    assert_eq!(tell(&mut game, ClientMessage::NewPlayer("dan".to_string())), vec![]);
    assert_eq!(tell(&mut game, ClientMessage::AcceptGuessResponse(2, true)), vec![]);
    assert_eq!(tell(&mut game, ClientMessage::WordGuessResponse(1, "x".to_string())), vec![]);
    assert_eq!(game.state(), State::WordSubmission);
    assert_eq!(game.send_full_game_state(0).len(), 5);
}

#[test]
fn only_the_player_asked_can_answer() {
    let mut game = three_players(5);
    proceed(&mut game);
    hint(&mut game, 0, "leaf");
    hint(&mut game, 2, "oak");
    proceed(&mut game);
    tell(&mut game, ClientMessage::ManualDuplicateEliminationResponse(0, vec![2]));
    assert_eq!(game.state(), State::ManualDuplicateElimination);
    tell(&mut game, ClientMessage::ManualDuplicateEliminationResponse(2, vec![]));
    proceed(&mut game);
    tell(&mut game, ClientMessage::WordGuessResponse(0, "tree".to_string()));
    assert_eq!(game.state(), State::WordGuess);
    tell(&mut game, ClientMessage::WordGuessResponse(1, "tree".to_string()));
    proceed(&mut game);
    proceed(&mut game);
    tell(&mut game, ClientMessage::AcceptGuessResponse(1, true));
    assert_eq!(game.state(), State::AcceptGuess);
    assert_eq!(game.score(), 0);
}

#[test]
fn stopping_ends_the_game() {
    let mut game = three_players(5);
    proceed(&mut game);
    assert_eq!(tell(&mut game, ClientMessage::StopGame), vec![]);
    assert_eq!(game.awaiting(), Awaiting::Nothing);
    assert!(!game.can_process(&Event::Proceed));
    assert!(!game.can_process(&Event::Disconnected));
    assert!(!game.can_process(&Event::Message(ClientMessage::StartGame)));
}

#[test]
fn abandoned_games_end() {
    let mut game = three_players(13);
    let mut steps = 0;
    while game.awaiting() != Awaiting::Nothing {
        let event = if game.awaiting() == Awaiting::Message {
            Event::Disconnected
        } else {
            Event::Proceed
        };
        step(&mut game, event);
        steps += 1;
        assert!(steps <= 13 * 20 + 12);
    }
    assert_eq!((game.state(), game.score(), game.words_left()), (State::Finished, 0, 0));
}

#[test]
fn games_are_not_ready_for_what_does_not_fit() {
    let mut game = three_players(5);
    assert!(!game.can_process(&Event::Disconnected));
    assert!(!game.can_process(&Event::Message(ClientMessage::StartGame)));
    proceed(&mut game);
    assert!(!game.can_process(&Event::Proceed));
    let stranger = ClientMessage::WordSubmissionResponse(3, "leaf".to_string());
    assert!(!game.can_process(&Event::Message(stranger)));
    hint(&mut game, 0, "leaf");
    hint(&mut game, 2, "oak");
    proceed(&mut game);
    let nobody = ClientMessage::ManualDuplicateEliminationResponse(2, vec![0, 3]);
    assert!(!game.can_process(&Event::Message(nobody)));
}

#[test]
fn a_game_without_players_or_words_cannot_start_a_round() {
    let mut game = JustOneGame::new_game(words(&["tree"]), 5);
    step(&mut game, Event::Disconnected);
    assert_eq!(game.state(), State::NextRound);
    assert!(!game.can_process(&Event::Proceed));

    let mut wordless = JustOneGame::new_game(vec![], 5);
    tell(&mut wordless, ClientMessage::NewPlayer("ann".to_string()));
    tell(&mut wordless, ClientMessage::NewPlayer("bob".to_string()));
    tell(&mut wordless, ClientMessage::StartGame);
    assert!(!wordless.can_process(&Event::Proceed));
}

#[test]
fn a_game_on_a_terminal_starts_at_once() {
    let mut game = JustOneGame::new_game_cli(2, words(&["tree"]));
    assert_eq!(game.state(), State::WordSubmission);
    assert_eq!(game.awaiting(), Awaiting::Turn);
    assert_eq!(game.words_left(), 13);
    assert_eq!(game.words_left(), DEFAULT_WORD_COUNT);
    assert_eq!(
        proceed(&mut game),
        vec![ServerMessage::WordSubmissionRequest(1, "tree".to_string())]
    );
    assert_eq!(
        game.send_full_game_state(0)[..2],
        [
            ServerMessage::UserAdded(0, "User0".to_string()),
            ServerMessage::UserAdded(0, "User1".to_string()),
        ]
    );
}

#[test]
fn a_game_on_a_terminal_about_a_given_word() {
    let mut game = JustOneGame::new_game_cli_about(11, words(&["tree"]), "sea".to_string());
    assert_eq!(
        proceed(&mut game)[0],
        ServerMessage::WordSubmissionRequest(1, "sea".to_string())
    );
    assert_eq!(game.send_full_game_state(0)[10], ServerMessage::UserAdded(0, "User10".to_string()));
}

#[test]
fn every_language_has_its_file() {
    assert_eq!(WordList::English.file_name(), "include/words_en.txt");
    assert_eq!(WordList::Hungarian.file_name(), "include/words_hu.txt");
    assert_eq!(WordList::Italian.file_name(), "include/words_it.txt");
    assert_eq!(WordList::German.file_name(), "include/words_de.txt");
}

#[test]
fn an_outbox_can_be_looked_at_first() {
    let mut game = three_players(5);
    assert!(game.can_process(&Event::Proceed));
    let outbox = game.outbox(&Event::Proceed);
    assert_eq!(game.awaiting(), Awaiting::Turn);
    assert_eq!(game.process_state(Event::Proceed), outbox);
    let event = Event::Message(ClientMessage::ResendGameState(0));
    assert!(game.can_process(&event));
    assert!(!game.outbox(&event).required);
}

#[test]
fn a_required_message_that_cannot_be_sent_ends_the_game() {
    let mut game = three_players(5);
    proceed(&mut game);
    let submission = || {
        Event::Message(ClientMessage::WordSubmissionResponse(0, "leaf".to_string()))
    };
    assert!(game.can_process(&submission()));
    assert_eq!(game.outbox(&submission()).messages.len(), 2);
    game.interrupt(submission(), 1);
    assert_eq!(game.awaiting(), Awaiting::Nothing);
    assert_eq!(game.state(), State::WordSubmission);
    assert_eq!(
        game.send_full_game_state(2).last(),
        Some(&ServerMessage::WordSubmitted(2, 0))
    );
    assert!(!game.can_process(&Event::Disconnected));
}

#[test]
fn a_newcomer_sits_down_once_the_others_know() {
    for k in 0..3 {
        let mut game = JustOneGame::new_game(words(&["tree"]), 5);
        tell(&mut game, ClientMessage::NewPlayer("ann".to_string()));
        let event = Event::Message(ClientMessage::NewPlayer("bob".to_string()));
        assert!(game.can_process(&event));
        assert_eq!(game.outbox(&event).messages.len(), 3);
        game.interrupt(event, k);
        assert_eq!(game.send_full_game_state(0).len(), if k < 1 { 1 } else { 2 });
    }
}

#[test]
fn a_round_that_cannot_be_announced_does_not_start() {
    let mut game = JustOneGame::new_game(words(&["tree"]), 5);
    tell(&mut game, ClientMessage::NewPlayer("ann".to_string()));
    tell(&mut game, ClientMessage::NewPlayer("bob".to_string()));
    tell(&mut game, ClientMessage::StartGame);
    assert!(game.can_process(&Event::Proceed));
    game.interrupt(Event::Proceed, 0);
    assert_eq!(game.state(), State::NextRound);
    assert_eq!(game.send_full_game_state(0)[2], ServerMessage::RoundStart(0, 1, 0, 0, 5));
}

#[test]
fn words_go_off_the_table_player_by_player() {
    let mut game = three_players(5);
    to_the_guess(&mut game, 1);
    tell(&mut game, ClientMessage::WordGuessResponse(1, "tree".to_string()));
    proceed(&mut game);
    proceed(&mut game);
    tell(&mut game, ClientMessage::AcceptGuessResponse(2, true));
    proceed(&mut game);
    // player 2 guesses now, so the first to be asked is player 0
    assert!(game.can_process(&Event::Proceed));
    game.interrupt(Event::Proceed, 0);
    assert_eq!(game.state(), State::WordSubmission);
    assert_eq!(
        game.send_full_game_state(2)[4..],
        [ServerMessage::WordSubmitted(2, 1), ServerMessage::WordSubmitted(2, 2)]
    );
}

#[test]
fn everyone_is_told_all_names_in_order() {
    let mut game = JustOneGame::new_game(words(&["tree"]), 5);
    let names = ["ann", "bob", "cyd"];
    let mut said = vec![];
    for name in names.iter() {
        said.extend(tell(&mut game, ClientMessage::NewPlayer(name.to_string())));
    }
    for i in 0..3 {
        let mut told = vec![];
        for m in said.iter() {
            if let ServerMessage::UserAdded(to, name) = m {
                if *to == i {
                    told.push(name.as_str());
                }
            }
        }
        assert_eq!(told, names);
    }
}

#[test]
fn rounds_are_bounded_by_words() {
    // five words, all guesses wrong: three rounds
    let mut game = three_players(5);
    let mut rounds = 0;
    while game.words_left() > 0 {
        let i = (rounds + 1) % 3;
        to_the_guess(&mut game, i);
        tell(&mut game, ClientMessage::WordGuessResponse(i, "shrub".to_string()));
        proceed(&mut game);
        proceed(&mut game);
        tell(&mut game, ClientMessage::AcceptGuessResponse((i + 1) % 3, false));
        rounds += 1;
        if game.words_left() > 0 {
            proceed(&mut game);
        }
    }
    assert_eq!((rounds, game.score()), (3, 0));
}
