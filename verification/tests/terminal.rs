use justone::cli::Command;
use justone::cli::JustOneCLI;
use justone::justone::ClientMessage as GameMessage;
use justone::logic::ClientMessage as LogicMessage;
use justone::messages::ServerMessage;

fn lines(m: ServerMessage) -> Vec<String> {
    JustOneCLI::display_request(&m)
}

#[test]
fn commands_can_be_typed() {
    assert_eq!(
        JustOneCLI::process_input("1 s oak"),
        Some(Command::WordSubmissionResponse(1, "oak".to_string()))
    );
    assert_eq!(
        JustOneCLI::process_input("0 g tree"),
        Some(Command::WordGuessResponse(0, "tree".to_string()))
    );
    assert_eq!(
        JustOneCLI::process_input("2 a true"),
        Some(Command::AcceptGuessResponse(2, true))
    );
    assert_eq!(
        JustOneCLI::process_input("2 a false"),
        Some(Command::AcceptGuessResponse(2, false))
    );
    assert_eq!(JustOneCLI::process_input("3 r"), Some(Command::ResendGameState(3)));
    assert_eq!(
        JustOneCLI::process_input("1 f 0 12"),
        Some(Command::ManualDuplicateEliminationResponse(1, vec![0, 12]))
    );
    assert_eq!(
        JustOneCLI::process_input("1 f"),
        Some(Command::ManualDuplicateEliminationResponse(1, vec![]))
    );
}

#[test]
fn a_missing_word_is_an_empty_guess() {
    assert_eq!(
        JustOneCLI::process_input("0 g "),
        Some(Command::WordGuessResponse(0, String::new()))
    );
}

#[test]
fn numbers_are_read_like_rust_reads_them() {
    assert_eq!(JustOneCLI::process_input("+7 r"), Some(Command::ResendGameState(7)));
    assert_eq!(JustOneCLI::process_input("007 r"), Some(Command::ResendGameState(7)));
    let largest = format!("{} r", usize::MAX);
    assert_eq!(JustOneCLI::process_input(&largest), Some(Command::ResendGameState(usize::MAX)));
    let larger = format!("{}0 r", usize::MAX);
    assert_eq!(JustOneCLI::process_input(&larger), None);
    assert_eq!(JustOneCLI::process_input("+ r"), None);
    assert_eq!(JustOneCLI::process_input("-1 r"), None);
    assert_eq!(JustOneCLI::process_input("\u{661} r"), None);
}

#[test]
fn other_lines_are_not_understood() {
    for line in [
        "", "1", "x s oak", "1 s", "1 s two words", "1 a", "1 a yes", "1 a True", "1 r 2", "1 f x",
        "1 f 0  2", "1 q", " 1 r", "1  r", "1 g", "1 S oak",
    ]
    .iter()
    {
        assert_eq!(JustOneCLI::process_input(line), None, "{:?}", line);
    }
}

#[test]
fn commands_become_messages() {
    assert_eq!(
        GameMessage::from_command(Command::WordSubmissionResponse(1, "oak".to_string())),
        GameMessage::WordSubmissionResponse(1, "oak".to_string())
    );
    assert_eq!(
        GameMessage::from_command(Command::ManualDuplicateEliminationResponse(1, vec![2])),
        GameMessage::ManualDuplicateEliminationResponse(1, vec![2])
    );
    assert_eq!(
        GameMessage::from_command(Command::ResendGameState(4)),
        GameMessage::ResendGameState(4)
    );
    assert_eq!(
        LogicMessage::from_command(Command::AcceptGuessResponse(1, true)),
        LogicMessage::AcceptGuessResponse(1, true)
    );
    assert_eq!(
        LogicMessage::from_command(Command::WordGuessResponse(1, "tree".to_string())),
        LogicMessage::WordGuessResponse(1, "tree".to_string())
    );
}

#[test]
fn requests_are_displayed() {
    assert_eq!(lines(ServerMessage::WordSubmitted(0, 1)), Vec::<String>::new());
    assert_eq!(
        lines(ServerMessage::Finished(1, 12)),
        vec!["User1: Game finished! Scored 12 score"]
    );
    assert_eq!(
        lines(ServerMessage::RoundStart(0, 1, 2, 3, 10)),
        vec![
            "User0: Game is starting, player 1 is guessing and 2 is deciding. score: 3, \
             words to guess: 10"
        ]
    );
    assert_eq!(
        lines(ServerMessage::UserAdded(0, "ann".to_string())),
        vec!["User0: User added \"ann\""]
    );
    assert_eq!(
        lines(ServerMessage::WordSubmissionRequest(10, "tree".to_string())),
        vec!["User10: Give a hint for the word \"tree\""]
    );
    assert_eq!(
        lines(ServerMessage::ManualDuplicateEliminationRequest(1)),
        vec!["User1: select which words to remove"]
    );
    assert_eq!(lines(ServerMessage::WordGuessRequest(1)), vec!["User1: guess the word:"]);
    assert_eq!(lines(ServerMessage::AcceptGuessRequest(1)), vec!["User1: accept guess?"]);
}

#[test]
fn lists_of_words_are_displayed() {
    assert_eq!(
        lines(ServerMessage::ShowWords(0, vec![None, Some(("a\"b".to_string(), true))])),
        vec!["User0: received words", "\t User0 -> None", "\t User1 -> Some((\"a\\\"b\", true))"]
    );
    assert_eq!(
        lines(ServerMessage::ShowFilteredWords(2, vec![Some("oak".to_string()), None])),
        vec!["User2: received filter words:", "\t User0 -> Some(\"oak\")", "\t User1 -> None"]
    );
    assert_eq!(
        lines(ServerMessage::ShowRoundOverview(
            1,
            "tree".to_string(),
            vec![Some(("oak".to_string(), false))]
        )),
        vec!["User1: word to guess: tree", "\t User0 -> Some((\"oak\", false))"]
    );
}
