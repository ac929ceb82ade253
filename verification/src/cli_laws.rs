//! What is typed on a terminal, and what is read there.
use vstd::prelude::*;

use crate::cli::displayed;
use crate::cli::marked_word_text;
use crate::cli::parsed_command;
use crate::cli::quoted;
use crate::cli::word_text;
use crate::cli::CommandView;
use crate::justone;
use crate::logic;
use crate::messages::ServerMessageView;
use crate::text::decimal;
use crate::text_laws::are_fields;
use crate::text_laws::is_number;
use crate::text_laws::law_fields_are_what_spaces_separate;
use crate::text_laws::law_numbers_are_read_as_written;
use crate::text_laws::spaced;

verus! {

/// The fields say this command: the number of the player, its letter, and what belongs to it.
pub open spec fn says(parts: Seq<Seq<char>>, command: CommandView) -> bool {
    match command {
        CommandView::WordSubmissionResponse(i, word) => {
            &&& parts.len() == 3 && is_number(parts[0], i as int)
            &&& parts[1] == "s"@
            &&& parts[2] == word
        },
        CommandView::AcceptGuessResponse(i, accept) => {
            &&& parts.len() == 3 && is_number(parts[0], i as int)
            &&& parts[1] == "a"@
            &&& parts[2] == (if accept {
                "true"@
            } else {
                "false"@
            })
        },
        CommandView::WordGuessResponse(i, word) => {
            &&& parts.len() == 3 && is_number(parts[0], i as int)
            &&& parts[1] == "g"@
            &&& parts[2] == word
        },
        CommandView::ResendGameState(i) => {
            &&& parts.len() == 2 && is_number(parts[0], i as int)
            &&& parts[1] == "r"@
        },
        CommandView::ManualDuplicateEliminationResponse(i, ids) => {
            &&& parts.len() == ids.len() + 2 && is_number(parts[0], i as int)
            &&& parts[1] == "f"@
            &&& forall|k: int|
                0 <= k < ids.len() ==> is_number(parts[k + 2], #[trigger] ids[k] as int)
        },
    }
}

proof fn lemma_letters_differ()
    ensures
        "s"@ != "a"@,
        "s"@ != "g"@,
        "s"@ != "r"@,
        "s"@ != "f"@,
        "a"@ != "g"@,
        "a"@ != "r"@,
        "a"@ != "f"@,
        "g"@ != "r"@,
        "g"@ != "f"@,
        "r"@ != "f"@,
        "true"@ != "false"@,
{
    reveal_strlit("s");
    reveal_strlit("a");
    reveal_strlit("g");
    reveal_strlit("r");
    reveal_strlit("f");
    reveal_strlit("true");
    reveal_strlit("false");
    assert("s"@[0] == 's');
    assert("a"@[0] == 'a');
    assert("g"@[0] == 'g');
    assert("r"@[0] == 'r');
    assert("f"@[0] == 'f');
    assert("true"@.len() != "false"@.len());
}

/// A line stands for a command exactly if its fields say it.
pub proof fn law_lines_mean_what_they_say(parts: Seq<Seq<char>>, command: CommandView)
    requires
        are_fields(parts),
    ensures
        parsed_command(spaced(parts)) == Some(command) <==> says(parts, command),
{
    lemma_letters_differ();
    law_fields_are_what_spaces_separate(parts);
    assert forall|s: Seq<char>, n: usize| #[trigger] is_number(s, n as int) <==>
        crate::text::parsed_usize(s) == Some(n) by {
        law_numbers_are_read_as_written(s, n);
    }
    match command {
        CommandView::ManualDuplicateEliminationResponse(i, ids) => {
            assert(parts.len() > 0 ==> (is_number(parts[0], i as int)
                <==> crate::text::parsed_usize(parts[0]) == Some(i)));
            if says(parts, command) {
                assert forall|k: int| 2 <= k < parts.len() implies crate::text::parsed_usize(
                    #[trigger] parts[k],
                ) == Some(ids[k - 2]) by {
                    assert(is_number(parts[(k - 2) + 2], ids[k - 2] as int));
                }
                assert(crate::cli::parsed_ids(parts)->0 =~= ids);
            }
            if parsed_command(spaced(parts)) == Some(command) {
                assert forall|k: int| 0 <= k < ids.len() implies is_number(
                    parts[k + 2],
                    #[trigger] ids[k] as int,
                ) by {
                    assert(crate::text::parsed_usize(parts[k + 2]) is Some);
                    assert(crate::text::parsed_usize(parts[k + 2]) == Some(ids[k]));
                }
            }
        },
        CommandView::WordSubmissionResponse(i, _) => {
            assert(is_number(parts[0], i as int) <==> crate::text::parsed_usize(parts[0]) == Some(
                i,
            ));
        },
        CommandView::AcceptGuessResponse(i, _) => {
            assert(is_number(parts[0], i as int) <==> crate::text::parsed_usize(parts[0]) == Some(
                i,
            ));
        },
        CommandView::WordGuessResponse(i, _) => {
            assert(is_number(parts[0], i as int) <==> crate::text::parsed_usize(parts[0]) == Some(
                i,
            ));
        },
        CommandView::ResendGameState(i) => {
            assert(is_number(parts[0], i as int) <==> crate::text::parsed_usize(parts[0]) == Some(
                i,
            ));
        },
    }
}

/// A command reaches the game with what was typed: the player, the word, the verdict, the picks.
pub proof fn law_commands_reach_the_game(i: usize, word: Seq<char>, accept: bool, ids: Seq<usize>)
    ensures
        justone::ClientMessage::of_command(CommandView::WordSubmissionResponse(i, word))
            == justone::ClientMessageView::WordSubmissionResponse(i, word),
        justone::ClientMessage::of_command(CommandView::AcceptGuessResponse(i, accept))
            == justone::ClientMessageView::AcceptGuessResponse(i, accept),
        justone::ClientMessage::of_command(CommandView::WordGuessResponse(i, word))
            == justone::ClientMessageView::WordGuessResponse(i, word),
        justone::ClientMessage::of_command(CommandView::ResendGameState(i))
            == justone::ClientMessageView::ResendGameState(i),
        justone::ClientMessage::of_command(CommandView::ManualDuplicateEliminationResponse(i, ids))
            == justone::ClientMessageView::ManualDuplicateEliminationResponse(i, ids),
        logic::ClientMessage::of_command(CommandView::WordSubmissionResponse(i, word))
            == logic::ClientMessageView::WordSubmissionResponse(i, word),
        logic::ClientMessage::of_command(CommandView::AcceptGuessResponse(i, accept))
            == logic::ClientMessageView::AcceptGuessResponse(i, accept),
        logic::ClientMessage::of_command(CommandView::WordGuessResponse(i, word))
            == logic::ClientMessageView::WordGuessResponse(i, word),
        logic::ClientMessage::of_command(CommandView::ResendGameState(i))
            == logic::ClientMessageView::ResendGameState(i),
        logic::ClientMessage::of_command(CommandView::ManualDuplicateEliminationResponse(i, ids))
            == logic::ClientMessageView::ManualDuplicateEliminationResponse(i, ids),
{
}

/// A single line, which begins with the player it is meant for and goes on with `text`.
pub open spec fn is_line(lines: Seq<Seq<char>>, i: usize, text: Seq<char>) -> bool {
    lines.len() == 1 && lines[0] == "User"@ + decimal(i as nat) + ": "@ + text
}

/// A line with a heading for the player it is meant for, and then a line for each seat that says
/// what is shown there.
pub open spec fn is_list(
    lines: Seq<Seq<char>>,
    i: usize,
    heading: Seq<char>,
    shown: Seq<Seq<char>>,
) -> bool {
    &&& lines.len() == shown.len() + 1
    &&& lines[0] == "User"@ + decimal(i as nat) + ": "@ + heading
    &&& forall|k: int|
        1 <= k <= shown.len() ==> #[trigger] lines[k] == "\t User"@ + decimal((k - 1) as nat)
            + " -> "@ + shown[k - 1]
}

/// A player reads on a terminal what the game says: names, words and numbers as they are.
pub proof fn law_messages_are_displayed(
    i: usize,
    name: Seq<char>,
    a: usize,
    b: usize,
    score: usize,
    words_left: usize,
)
    ensures
        displayed(ServerMessageView::WordSubmitted(i, a)).len() == 0,
        is_line(
            displayed(ServerMessageView::Finished(i, score)),
            i,
            "Game finished! Scored "@ + decimal(score as nat) + " score"@,
        ),
        is_line(
            displayed(ServerMessageView::RoundStart(i, a, b, score, words_left)),
            i,
            "Game is starting, player "@ + decimal(a as nat) + " is guessing and "@ + decimal(
                b as nat,
            ) + " is deciding. score: "@ + decimal(score as nat) + ", words to guess: "@ + decimal(
                words_left as nat,
            ),
        ),
        is_line(
            displayed(ServerMessageView::UserAdded(i, name)),
            i,
            "User added \""@ + name + "\""@,
        ),
        is_line(
            displayed(ServerMessageView::WordSubmissionRequest(i, name)),
            i,
            "Give a hint for the word \""@ + name + "\""@,
        ),
        is_line(
            displayed(ServerMessageView::ManualDuplicateEliminationRequest(i)),
            i,
            "select which words to remove"@,
        ),
        is_line(displayed(ServerMessageView::WordGuessRequest(i)), i, "guess the word:"@),
        is_line(displayed(ServerMessageView::AcceptGuessRequest(i)), i, "accept guess?"@),
{
}

/// A word with its mark is shown in quotes with the mark, and a missing one as such.
pub open spec fn marked_texts(words: Seq<Option<(Seq<char>, bool)>>) -> Seq<Seq<char>> {
    words.map(
        |k: int, word: Option<(Seq<char>, bool)>|
            match word {
                Some((w, stricken)) => "Some(("@ + quoted(w) + (if stricken {
                    ", true))"@
                } else {
                    ", false))"@
                }),
                None => "None"@,
            },
    )
}

/// A word is shown in quotes, and a missing one as such.
pub open spec fn plain_texts(words: Seq<Option<Seq<char>>>) -> Seq<Seq<char>> {
    words.map(
        |k: int, word: Option<Seq<char>>|
            match word {
                Some(w) => "Some("@ + quoted(w) + ")"@,
                None => "None"@,
            },
    )
}

/// A player reads on a terminal the words that the game shows, each at the number of its player.
pub proof fn law_lists_are_displayed(
    i: usize,
    word: Seq<char>,
    left: Seq<Option<Seq<char>>>,
    marked: Seq<Option<(Seq<char>, bool)>>,
)
    requires
        left.len() <= usize::MAX,
        marked.len() <= usize::MAX,
    ensures
        is_list(
            displayed(ServerMessageView::ShowWords(i, marked)),
            i,
            "received words"@,
            marked_texts(marked),
        ),
        is_list(
            displayed(ServerMessageView::ShowFilteredWords(i, left)),
            i,
            "received filter words:"@,
            plain_texts(left),
        ),
        is_list(
            displayed(ServerMessageView::ShowRoundOverview(i, word, marked)),
            i,
            "word to guess: "@ + word,
            marked_texts(marked),
        ),
{
}

/// What stands for a single word.
pub proof fn law_words_are_displayed(w: Seq<char>)
    ensures
        marked_word_text(None) == "None"@,
        marked_word_text(Some((w, true))) == "Some(("@ + quoted(w) + ", true))"@,
        marked_word_text(Some((w, false))) == "Some(("@ + quoted(w) + ", false))"@,
        word_text(None) == "None"@,
        word_text(Some(w)) == "Some("@ + quoted(w) + ")"@,
{
}

} // verus!
