//! Playing on a terminal: reading what was typed, and writing out what the game says.
use vstd::prelude::*;

use crate::messages::ServerMessage;
use crate::messages::ServerMessageView;
use crate::players::marked_word_view;
use crate::players::marked_words_view;
use crate::players::text_view;
use crate::players::words_view;
use crate::text::append_decimal;
use crate::text::characters;
use crate::text::decimal;
use crate::text::field_bounds;
use crate::text::fields;
use crate::text::law_decimal_reads_back;
use crate::text::lemma_decimal;
use crate::text::lemma_fields_append;
use crate::text::lemma_fields_single;
use crate::text::parse_usize;
use crate::text::parsed_usize;
use crate::text::spells;

verus! {

/// What a player can type, each with the number of the player.
#[derive(Debug, PartialEq)]
pub enum Command {
    WordSubmissionResponse(usize, String),
    AcceptGuessResponse(usize, bool),
    WordGuessResponse(usize, String),
    ResendGameState(usize),
    ManualDuplicateEliminationResponse(usize, Vec<usize>),
}

/// The mathematical content of a [`Command`].
#[verifier::ext_equal]
pub enum CommandView {
    WordSubmissionResponse(usize, Seq<char>),
    AcceptGuessResponse(usize, bool),
    WordGuessResponse(usize, Seq<char>),
    ResendGameState(usize),
    ManualDuplicateEliminationResponse(usize, Seq<usize>),
}

impl View for Command {
    type V = CommandView;

    open spec fn view(&self) -> CommandView {
        match self {
            Command::WordSubmissionResponse(i, word) => CommandView::WordSubmissionResponse(
                *i,
                word@,
            ),
            Command::AcceptGuessResponse(i, accept) => CommandView::AcceptGuessResponse(
                *i,
                *accept,
            ),
            Command::WordGuessResponse(i, word) => CommandView::WordGuessResponse(*i, word@),
            Command::ResendGameState(i) => CommandView::ResendGameState(*i),
            Command::ManualDuplicateEliminationResponse(i, ids) =>
                CommandView::ManualDuplicateEliminationResponse(*i, ids@),
        }
    }
}

/// The truth value that `s` spells.
pub open spec fn parsed_bool(s: Seq<char>) -> Option<bool> {
    if s == "true"@ {
        Some(true)
    } else if s == "false"@ {
        Some(false)
    } else {
        None
    }
}

/// The numbers that the fields of `parts` from the third on denote, if all of them do.
pub open spec fn parsed_ids(parts: Seq<Seq<char>>) -> Option<Seq<usize>> {
    if forall|i: int| 2 <= i < parts.len() ==> parsed_usize(#[trigger] parts[i]) is Some {
        Some(Seq::new((parts.len() - 2) as nat, |i: int| parsed_usize(parts[i + 2])->0))
    } else {
        None
    }
}

/// The command that a typed line stands for: the number of a player, a letter, and what belongs
/// to it, separated by single spaces.
pub open spec fn parsed_command(line: Seq<char>) -> Option<CommandView> {
    let parts = fields(line);
    let n = parts.len();
    if n < 2 || parsed_usize(parts[0]) is None {
        None
    } else {
        let id = parsed_usize(parts[0])->0;
        if parts[1] == "s"@ && n == 3 {
            Some(CommandView::WordSubmissionResponse(id, parts[2]))
        } else if parts[1] == "a"@ && n == 3 {
            match parsed_bool(parts[2]) {
                Some(accept) => Some(CommandView::AcceptGuessResponse(id, accept)),
                None => None,
            }
        } else if parts[1] == "g"@ && n == 3 {
            Some(CommandView::WordGuessResponse(id, parts[2]))
        } else if parts[1] == "r"@ && n == 2 {
            Some(CommandView::ResendGameState(id))
        } else if parts[1] == "f"@ {
            match parsed_ids(parts) {
                Some(ids) => Some(CommandView::ManualDuplicateEliminationResponse(id, ids)),
                None => None,
            }
        } else {
            None
        }
    }
}

/// The content of an optional command.
pub open spec fn command_view(command: Option<Command>) -> Option<CommandView> {
    match command {
        Some(c) => Some(c@),
        None => None,
    }
}

/// A word in quotation marks, with the characters escaped that need it.
pub uninterp spec fn quoted(word: Seq<char>) -> Seq<char>;

/// Quotes a word, by the `{:?}` of `std::format`. Claimed of it: the text depends on the word
/// alone. How characters are escaped is left unsaid.
#[verifier::external_body]
fn quote(word: &str) -> (r: String)
    ensures
        r@ == quoted(word@),
{
    format!("{:?}", word)
}

/// How a word with its mark is shown.
pub open spec fn marked_word_text(word: Option<(Seq<char>, bool)>) -> Seq<char> {
    match word {
        Some((w, true)) => "Some(("@ + quoted(w) + ", true))"@,
        Some((w, false)) => "Some(("@ + quoted(w) + ", false))"@,
        None => "None"@,
    }
}

/// How a word is shown.
pub open spec fn word_text(word: Option<Seq<char>>) -> Seq<char> {
    match word {
        Some(w) => "Some("@ + quoted(w) + ")"@,
        None => "None"@,
    }
}

/// Writes out a word with its mark.
fn format_marked_word(word: &Option<(String, bool)>) -> (r: String)
    ensures
        r@ == marked_word_text(marked_word_view(*word)),
{
    match word {
        Some((w, stricken)) => {
            let mut r: String = "Some((".to_owned();
            let q = quote(w.as_str());
            r.append(q.as_str());
            r.append(
                if *stricken {
                    ", true))"
                } else {
                    ", false))"
                },
            );
            r
        },
        None => "None".to_owned(),
    }
}

/// Writes out a word.
fn format_word(word: &Option<String>) -> (r: String)
    ensures
        r@ == word_text(text_view(*word)),
{
    match word {
        Some(w) => {
            let mut r: String = "Some(".to_owned();
            let q = quote(w.as_str());
            r.append(q.as_str());
            r.append(")");
            r
        },
        None => "None".to_owned(),
    }
}

/// A line for player `i`.
pub open spec fn line_for(i: usize, text: Seq<char>) -> Seq<char> {
    "User"@ + decimal(i as nat) + ": "@ + text
}

/// The line about the word of player `i`.
pub open spec fn line_about(i: usize, shown: Seq<char>) -> Seq<char> {
    "\t User"@ + decimal(i as nat) + " -> "@ + shown
}

/// The lines that tell what a message says.
pub open spec fn displayed(m: ServerMessageView) -> Seq<Seq<char>> {
    match m {
        ServerMessageView::WordSubmitted(_, _) => Seq::empty(),
        ServerMessageView::Finished(i, score) => seq![
            line_for(i, "Game finished! Scored "@ + decimal(score as nat) + " score"@),
        ],
        ServerMessageView::RoundStart(i, current_user, decision_user, score, words_left) => seq![
            line_for(
                i,
                "Game is starting, player "@ + decimal(current_user as nat) + " is guessing and "@
                    + decimal(decision_user as nat) + " is deciding. score: "@ + decimal(
                    score as nat,
                ) + ", words to guess: "@ + decimal(words_left as nat),
            ),
        ],
        ServerMessageView::UserAdded(i, name) => seq![
            line_for(i, "User added \""@ + name + "\""@),
        ],
        ServerMessageView::WordSubmissionRequest(i, word) => seq![
            line_for(i, "Give a hint for the word \""@ + word + "\""@),
        ],
        ServerMessageView::ManualDuplicateEliminationRequest(i) => seq![
            line_for(i, "select which words to remove"@),
        ],
        ServerMessageView::ShowWords(i, words) => seq![line_for(i, "received words"@)]
            + marked_word_lines(words),
        ServerMessageView::ShowFilteredWords(i, words) => seq![
            line_for(i, "received filter words:"@),
        ] + word_lines(words),
        ServerMessageView::WordGuessRequest(i) => seq![line_for(i, "guess the word:"@)],
        ServerMessageView::ShowRoundOverview(i, word, words) => seq![
            line_for(i, "word to guess: "@ + word),
        ] + marked_word_lines(words),
        ServerMessageView::AcceptGuessRequest(i) => seq![line_for(i, "accept guess?"@)],
    }
}

/// A line about each of the words with their marks.
pub open spec fn marked_word_lines(words: Seq<Option<(Seq<char>, bool)>>) -> Seq<Seq<char>> {
    Seq::new(words.len(), |i: int| line_about(i as usize, marked_word_text(words[i])))
}

/// A line about each of the words.
pub open spec fn word_lines(words: Seq<Option<Seq<char>>>) -> Seq<Seq<char>> {
    Seq::new(words.len(), |i: int| line_about(i as usize, word_text(words[i])))
}

/// The content of a list of lines.
pub open spec fn lines_view(lines: Seq<String>) -> Seq<Seq<char>> {
    Seq::new(lines.len(), |i: int| lines[i]@)
}

/// Writes a line for player `i`.
pub fn user_line(i: usize, text: &str) -> (r: String)
    ensures
        r@ == line_for(i, text@),
{
    let mut r: String = "User".to_owned();
    append_decimal(&mut r, i);
    r.append(": ");
    r.append(text);
    r
}

/// Writes the line about the word of player `i`, which is shown as `shown`.
pub fn word_line(i: usize, shown: &str) -> (r: String)
    ensures
        r@ == line_about(i, shown@),
{
    let mut r: String = "\t User".to_owned();
    append_decimal(&mut r, i);
    r.append(" -> ");
    r.append(shown);
    r
}

fn append_marked_word_lines(lines: &mut Vec<String>, words: &Vec<Option<(String, bool)>>)
    ensures
        lines_view(final(lines)@) == lines_view(old(lines)@) + marked_word_lines(
            marked_words_view(words@),
        ),
{
    let ghost before = lines_view(lines@);
    let ghost all = marked_word_lines(marked_words_view(words@));
    assert(before =~= before + all.take(0));
    for i in 0..words.len()
        invariant
            all == marked_word_lines(marked_words_view(words@)),
            lines_view(lines@) == before + all.take(i as int),
    {
        let ghost now = lines_view(lines@);
        let shown = format_marked_word(&words[i]);
        lines.push(word_line(i, shown.as_str()));
        assert(lines_view(lines@) =~= now.push(lines@.last()@));
        assert(all.take(i + 1) =~= all.take(i as int).push(lines@.last()@));
        assert(lines_view(lines@) =~= before + all.take(i + 1));
    }
    assert(all.take(all.len() as int) =~= all);
}

fn append_word_lines(lines: &mut Vec<String>, words: &Vec<Option<String>>)
    ensures
        lines_view(final(lines)@) == lines_view(old(lines)@) + word_lines(words_view(words@)),
{
    let ghost before = lines_view(lines@);
    let ghost all = word_lines(words_view(words@));
    assert(before =~= before + all.take(0));
    for i in 0..words.len()
        invariant
            all == word_lines(words_view(words@)),
            lines_view(lines@) == before + all.take(i as int),
    {
        let ghost now = lines_view(lines@);
        let shown = format_word(&words[i]);
        lines.push(word_line(i, shown.as_str()));
        assert(lines_view(lines@) =~= now.push(lines@.last()@));
        assert(all.take(i + 1) =~= all.take(i as int).push(lines@.last()@));
        assert(lines_view(lines@) =~= before + all.take(i + 1));
    }
    assert(all.take(all.len() as int) =~= all);
}

/// The terminal.
pub struct JustOneCLI {}

impl JustOneCLI {
    /// Reads a typed line.
    pub fn process_input(line: &str) -> (r: Option<Command>)
        ensures
            command_view(r) == parsed_command(line@),
    {
        let chars = characters(line);
        let parts = field_bounds(&chars);
        let ghost texts = fields(line@);
        let n: usize = parts.len();
        if n < 2 {
            return None;
        }
        assert(chars@.subrange(parts@[0].0 as int, parts@[0].1 as int) == texts[0]);
        assert(chars@.subrange(parts@[1].0 as int, parts@[1].1 as int) == texts[1]);
        let id: usize = match parse_usize(&chars, parts[0].0, parts[0].1) {
            Some(id) => id,
            None => {
                return None;
            },
        };
        let (from, to): (usize, usize) = parts[1];
        if n == 3 {
            assert(chars@.subrange(parts@[2].0 as int, parts@[2].1 as int) == texts[2]);
        }
        if spells(&chars, from, to, "s") && n == 3 {
            Some(
                Command::WordSubmissionResponse(
                    id,
                    line.substring_char(parts[2].0, parts[2].1).to_owned(),
                ),
            )
        } else if spells(&chars, from, to, "a") && n == 3 {
            if spells(&chars, parts[2].0, parts[2].1, "true") {
                Some(Command::AcceptGuessResponse(id, true))
            } else if spells(&chars, parts[2].0, parts[2].1, "false") {
                Some(Command::AcceptGuessResponse(id, false))
            } else {
                None
            }
        } else if spells(&chars, from, to, "g") && n == 3 {
            Some(
                Command::WordGuessResponse(
                    id,
                    line.substring_char(parts[2].0, parts[2].1).to_owned(),
                ),
            )
        } else if spells(&chars, from, to, "r") && n == 2 {
            Some(Command::ResendGameState(id))
        } else if spells(&chars, from, to, "f") {
            let mut ids: Vec<usize> = Vec::new();
            for i in 2..n
                invariant
                    n == parts@.len() == texts.len(),
                    chars@ == line@,
                    texts == fields(line@),
                    forall|j: int|
                        0 <= j < n ==> 0 <= (#[trigger] parts@[j]).0 <= parts@[j].1 <= chars@.len()
                            && chars@.subrange(parts@[j].0 as int, parts@[j].1 as int) == texts[j],
                    ids@.len() == i - 2,
                    forall|j: int|
                        2 <= j < i ==> parsed_usize(#[trigger] texts[j]) == Some(ids@[j - 2]),
                    texts[1] == "f"@,
                    n >= 2,
                    parsed_usize(texts[0]) == Some(id),
            {
                let (from, to): (usize, usize) = parts[i];
                match parse_usize(&chars, from, to) {
                    Some(other) => {
                        ids.push(other);
                    },
                    None => {
                        proof {
                            reveal_strlit("s");
                            reveal_strlit("a");
                            reveal_strlit("g");
                            reveal_strlit("r");
                            reveal_strlit("f");
                            assert(texts[1][0] == 'f');
                            assert(parsed_usize(texts[i as int]) is None);
                        }
                        return None;
                    },
                }
            }
            assert forall|j: int| 0 <= j < ids@.len() implies ids@[j] == parsed_usize(
                #[trigger] texts[j + 2],
            )->0 by {}
            assert(parsed_ids(texts) == Some(ids@)) by {
                assert(parsed_ids(texts)->0 =~= ids@);
            }
            Some(Command::ManualDuplicateEliminationResponse(id, ids))
        } else {
            None
        }
    }

    /// Writes the lines that tell what a message says.
    pub fn display_request(request: &ServerMessage) -> (r: Vec<String>)
        ensures
            lines_view(r@) == displayed(request@),
    {
        let mut lines: Vec<String> = Vec::new();
        assert(lines_view(lines@) =~= Seq::empty());
        match request {
            ServerMessage::WordSubmitted(_, _) => {},
            ServerMessage::Finished(i, score) => {
                let mut text: String = "Game finished! Scored ".to_owned();
                append_decimal(&mut text, *score);
                text.append(" score");
                lines.push(user_line(*i, text.as_str()));
            },
            ServerMessage::RoundStart(i, current_user, decision_user, score, words_left) => {
                let mut text: String = "Game is starting, player ".to_owned();
                append_decimal(&mut text, *current_user);
                text.append(" is guessing and ");
                append_decimal(&mut text, *decision_user);
                text.append(" is deciding. score: ");
                append_decimal(&mut text, *score);
                text.append(", words to guess: ");
                append_decimal(&mut text, *words_left);
                lines.push(user_line(*i, text.as_str()));
            },
            ServerMessage::UserAdded(i, name) => {
                let mut text: String = "User added \"".to_owned();
                text.append(name.as_str());
                text.append("\"");
                lines.push(user_line(*i, text.as_str()));
            },
            ServerMessage::WordSubmissionRequest(i, word) => {
                let mut text: String = "Give a hint for the word \"".to_owned();
                text.append(word.as_str());
                text.append("\"");
                lines.push(user_line(*i, text.as_str()));
            },
            ServerMessage::ManualDuplicateEliminationRequest(i) => {
                lines.push(user_line(*i, "select which words to remove"));
            },
            ServerMessage::ShowWords(i, words) => {
                lines.push(user_line(*i, "received words"));
                append_marked_word_lines(&mut lines, words);
            },
            ServerMessage::ShowFilteredWords(i, words) => {
                lines.push(user_line(*i, "received filter words:"));
                append_word_lines(&mut lines, words);
            },
            ServerMessage::WordGuessRequest(i) => {
                lines.push(user_line(*i, "guess the word:"));
            },
            ServerMessage::ShowRoundOverview(i, word, words) => {
                let mut text: String = "word to guess: ".to_owned();
                text.append(word.as_str());
                lines.push(user_line(*i, text.as_str()));
                append_marked_word_lines(&mut lines, words);
            },
            ServerMessage::AcceptGuessRequest(i) => {
                lines.push(user_line(*i, "accept guess?"));
            },
        }
        assert(lines_view(lines@) =~= displayed(request@));
        lines
    }
}

/// A line with one more field.
pub open spec fn with_field(line: Seq<char>, field: Seq<char>) -> Seq<char> {
    line.push(' ') + field
}

/// A line with one more field for each of the numbers.
pub open spec fn with_numbers(line: Seq<char>, numbers: Seq<usize>) -> Seq<char>
    decreases numbers.len(),
{
    if numbers.len() == 0 {
        line
    } else {
        with_field(with_numbers(line, numbers.drop_last()), decimal(numbers.last() as nat))
    }
}

/// The line that a player types to give a command.
pub open spec fn typed(command: CommandView) -> Seq<char> {
    match command {
        CommandView::WordSubmissionResponse(i, word) => with_field(
            with_field(decimal(i as nat), "s"@),
            word,
        ),
        CommandView::AcceptGuessResponse(i, accept) => with_field(
            with_field(decimal(i as nat), "a"@),
            if accept {
                "true"@
            } else {
                "false"@
            },
        ),
        CommandView::WordGuessResponse(i, word) => with_field(
            with_field(decimal(i as nat), "g"@),
            word,
        ),
        CommandView::ResendGameState(i) => with_field(decimal(i as nat), "r"@),
        CommandView::ManualDuplicateEliminationResponse(i, ids) => with_numbers(
            with_field(decimal(i as nat), "f"@),
            ids,
        ),
    }
}

/// The command can be typed: no word in it has a space.
pub open spec fn can_be_typed(command: CommandView) -> bool {
    match command {
        CommandView::WordSubmissionResponse(_, word) => !word.contains(' '),
        CommandView::WordGuessResponse(_, word) => !word.contains(' '),
        _ => true,
    }
}

/// What is typed for a command is read as that command. A word may be empty: a guess then guesses
/// nothing.
pub proof fn law_commands_can_be_typed(command: CommandView)
    requires
        can_be_typed(command),
    ensures
        parsed_command(typed(command)) == Some(command),
{
    reveal_strlit("s");
    reveal_strlit("a");
    reveal_strlit("g");
    reveal_strlit("r");
    reveal_strlit("f");
    reveal_strlit("true");
    reveal_strlit("false");
    assert("s"@[0] == 's');
    assert("a"@[0] == 'a');
    assert("g"@[0] == 'g');
    assert("r"@[0] == 'r');
    assert("f"@[0] == 'f');
    assert("true"@.len() != "false"@.len());
    match command {
        CommandView::WordSubmissionResponse(i, word) => {
            lemma_typed(i, "s"@);
            lemma_fields_append(with_field(decimal(i as nat), "s"@), word);
        },
        CommandView::AcceptGuessResponse(i, accept) => {
            lemma_typed(i, "a"@);
            let verdict = if accept {
                "true"@
            } else {
                "false"@
            };
            lemma_fields_append(with_field(decimal(i as nat), "a"@), verdict);
        },
        CommandView::WordGuessResponse(i, word) => {
            lemma_typed(i, "g"@);
            lemma_fields_append(with_field(decimal(i as nat), "g"@), word);
        },
        CommandView::ResendGameState(i) => {
            lemma_typed(i, "r"@);
        },
        CommandView::ManualDuplicateEliminationResponse(i, ids) => {
            lemma_typed(i, "f"@);
            lemma_with_numbers(with_field(decimal(i as nat), "f"@), ids);
            let parts = fields(typed(command));
            assert forall|k: int| 2 <= k < parts.len() implies parsed_usize(#[trigger] parts[k])
                == Some(ids[k - 2]) by {
                law_decimal_reads_back(ids[k - 2]);
            }
            assert(parsed_ids(parts)->0 =~= ids);
        },
    }
}

/// A number has no spaces, and is read as that number.
proof fn lemma_number(n: usize)
    ensures
        !decimal(n as nat).contains(' '),
        parsed_usize(decimal(n as nat)) == Some(n),
{
    let number = decimal(n as nat);
    law_decimal_reads_back(n);
    lemma_decimal(n as nat);
    assert forall|i: int| 0 <= i < number.len() implies number[i] != ' ' by {}
}

/// The fields of the number of a player followed by a letter.
proof fn lemma_typed(i: usize, letter: Seq<char>)
    requires
        !letter.contains(' '),
    ensures
        fields(with_field(decimal(i as nat), letter)) == seq![decimal(i as nat), letter],
        parsed_usize(decimal(i as nat)) == Some(i),
{
    lemma_number(i);
    lemma_fields_single(decimal(i as nat));
    lemma_fields_append(decimal(i as nat), letter);
    assert(fields(with_field(decimal(i as nat), letter)) =~= seq![decimal(i as nat), letter]);
}

/// The fields of a line followed by numbers.
proof fn lemma_with_numbers(line: Seq<char>, numbers: Seq<usize>)
    ensures
        fields(with_numbers(line, numbers)) == fields(line) + Seq::new(
            numbers.len(),
            |k: int| decimal(numbers[k] as nat),
        ),
    decreases numbers.len(),
{
    let added = Seq::new(numbers.len(), |k: int| decimal(numbers[k] as nat));
    if numbers.len() == 0 {
        assert(fields(line) + added =~= fields(line));
    } else {
        let rest = numbers.drop_last();
        lemma_with_numbers(line, rest);
        lemma_number(numbers.last());
        lemma_fields_append(with_numbers(line, rest), decimal(numbers.last() as nat));
        assert(fields(with_numbers(line, numbers)) =~= fields(line) + added);
    }
}

} // verus!
