//! Messages as the browser gets them: JSON objects.
use vstd::prelude::*;

use crate::messages::ServerMessage;
use crate::messages::ServerMessageView;
use crate::players::copy_marked_words;
use crate::players::copy_words;
use crate::players::marked_words_view;
use crate::players::words_view;

verus! {

/// A value in a JSON object.
#[derive(Debug, PartialEq)]
pub enum JsonValue {
    Text(String),
    Number(usize),
    /// An array of `null` and of pairs of a word and its mark.
    MarkedWords(Vec<Option<(String, bool)>>),
    /// An array of `null` and of words.
    Words(Vec<Option<String>>),
}

/// The mathematical content of a [`JsonValue`].
#[verifier::ext_equal]
pub enum JsonValueView {
    Text(Seq<char>),
    Number(usize),
    MarkedWords(Seq<Option<(Seq<char>, bool)>>),
    Words(Seq<Option<Seq<char>>>),
}

impl View for JsonValue {
    type V = JsonValueView;

    open spec fn view(&self) -> JsonValueView {
        match self {
            JsonValue::Text(text) => JsonValueView::Text(text@),
            JsonValue::Number(n) => JsonValueView::Number(*n),
            JsonValue::MarkedWords(words) => JsonValueView::MarkedWords(marked_words_view(words@)),
            JsonValue::Words(words) => JsonValueView::Words(words_view(words@)),
        }
    }
}

/// A member of a JSON object.
#[derive(Debug, PartialEq)]
pub struct Member {
    pub key: &'static str,
    pub value: JsonValue,
}

/// The mathematical content of a [`Member`].
#[verifier::ext_equal]
pub struct MemberView {
    pub key: Seq<char>,
    pub value: JsonValueView,
}

impl View for Member {
    type V = MemberView;

    open spec fn view(&self) -> MemberView {
        MemberView { key: self.key@, value: self.value@ }
    }
}

/// The content of the members of a JSON object.
pub open spec fn members_view(members: Seq<Member>) -> Seq<MemberView> {
    Seq::new(members.len(), |i: int| members[i]@)
}

/// The text of the JSON object with these members.
pub uninterp spec fn json_text(members: Seq<MemberView>) -> Seq<char>;

/// Writes a JSON object with the `to_string` of `serde_json::Value`. Claimed of it: the text
/// depends on the keys and values of the members alone.
#[verifier::external_body]
pub(crate) fn json_object(members: Vec<Member>) -> (r: String)
    ensures
        r@ == json_text(members_view(members@)),
{
    let mut object = serde_json::Map::new();
    for Member { key, value } in members {
        let value = match value {
            JsonValue::Text(text) => serde_json::Value::from(text),
            JsonValue::Number(n) => serde_json::Value::from(n),
            JsonValue::MarkedWords(words) => serde_json::to_value(words).unwrap(),
            JsonValue::Words(words) => serde_json::to_value(words).unwrap(),
        };
        object.insert(key.to_string(), value);
    }
    serde_json::Value::Object(object).to_string()
}

/// A member that is a text.
pub open spec fn text_member(key: Seq<char>, text: Seq<char>) -> MemberView {
    MemberView { key, value: JsonValueView::Text(text) }
}

/// A member that is a number.
pub open spec fn number_member(key: Seq<char>, n: usize) -> MemberView {
    MemberView { key, value: JsonValueView::Number(n) }
}

/// The member that names the type of an object.
pub open spec fn type_member(name: Seq<char>) -> MemberView {
    text_member("type"@, name)
}

/// The members of the object that stands for a message of the game `game_id`.
pub open spec fn message_members(game_id: Seq<char>, m: ServerMessageView) -> Seq<MemberView> {
    match m {
        ServerMessageView::UserAdded(i, username) => seq![
            type_member("UserAdded"@),
            text_member("username"@, username),
            number_member("id"@, i),
            text_member("game_id"@, game_id),
        ],
        ServerMessageView::Finished(_, points) => seq![
            type_member("Finished"@),
            number_member("points"@, points),
        ],
        ServerMessageView::RoundStart(_, current_user, decision_user, score, words_left) => seq![
            type_member("RoundStart"@),
            number_member("current_user"@, current_user),
            number_member("decision_user"@, decision_user),
            number_member("score"@, score),
            number_member("words_left"@, words_left),
        ],
        ServerMessageView::WordSubmitted(_, user) => seq![
            type_member("WordSubmitted"@),
            number_member("user"@, user),
        ],
        ServerMessageView::WordSubmissionRequest(_, word) => seq![
            type_member("WordSubmissionRequest"@),
            text_member("word"@, word),
        ],
        ServerMessageView::WordGuessRequest(_) => seq![type_member("WordGuessRequest"@)],
        ServerMessageView::AcceptGuessRequest(_) => seq![type_member("AcceptGuessRequest"@)],
        ServerMessageView::ShowFilteredWords(_, words) => seq![
            type_member("ShowFilteredWords"@),
            MemberView { key: "words"@, value: JsonValueView::Words(words) },
        ],
        ServerMessageView::ShowWords(_, words) => seq![
            type_member("ShowWords"@),
            MemberView { key: "words"@, value: JsonValueView::MarkedWords(words) },
        ],
        ServerMessageView::ShowRoundOverview(_, word_to_guess, overview) => seq![
            type_member("ShowRoundOverview"@),
            text_member("word_to_guess"@, word_to_guess),
            MemberView { key: "overview"@, value: JsonValueView::MarkedWords(overview) },
        ],
        ServerMessageView::ManualDuplicateEliminationRequest(_) => seq![
            type_member("ManualDuplicateEliminationRequest"@),
        ],
    }
}

/// The members of the object that tells a player that the connection to seat `i` is restored.
pub open spec fn reconnecting_members(i: usize) -> Seq<MemberView> {
    seq![type_member("Reconnecting"@), number_member("id"@, i)]
}

/// The members of the object that tells why a player was turned away.
pub open spec fn rejected_members(reason: Seq<char>) -> Seq<MemberView> {
    seq![type_member("Rejected"@), text_member("reason"@, reason)]
}

fn text(key: &'static str, t: &str) -> (r: Member)
    ensures
        r@ == text_member(key@, t@),
{
    Member { key, value: JsonValue::Text(t.to_owned()) }
}

fn number(key: &'static str, n: usize) -> (r: Member)
    ensures
        r@ == number_member(key@, n),
{
    Member { key, value: JsonValue::Number(n) }
}

/// Lists the members of the object that stands for a message of the game `game_id`.
pub fn describe_message(game_id: &str, m: &ServerMessage) -> (r: Vec<Member>)
    ensures
        members_view(r@) == message_members(game_id@, m@),
{
    let r: Vec<Member> = match m {
        ServerMessage::UserAdded(i, username) => vec![
            text("type", "UserAdded"),
            text("username", username.as_str()),
            number("id", *i),
            text("game_id", game_id),
        ],
        ServerMessage::Finished(_, points) => vec![
            text("type", "Finished"),
            number("points", *points),
        ],
        ServerMessage::RoundStart(_, current_user, decision_user, score, words_left) => vec![
            text("type", "RoundStart"),
            number("current_user", *current_user),
            number("decision_user", *decision_user),
            number("score", *score),
            number("words_left", *words_left),
        ],
        ServerMessage::WordSubmitted(_, user) => vec![
            text("type", "WordSubmitted"),
            number("user", *user),
        ],
        ServerMessage::WordSubmissionRequest(_, word) => vec![
            text("type", "WordSubmissionRequest"),
            text("word", word.as_str()),
        ],
        ServerMessage::WordGuessRequest(_) => vec![text("type", "WordGuessRequest")],
        ServerMessage::AcceptGuessRequest(_) => vec![text("type", "AcceptGuessRequest")],
        ServerMessage::ShowFilteredWords(_, words) => vec![
            text("type", "ShowFilteredWords"),
            Member { key: "words", value: JsonValue::Words(copy_words(words)) },
        ],
        ServerMessage::ShowWords(_, words) => vec![
            text("type", "ShowWords"),
            Member { key: "words", value: JsonValue::MarkedWords(copy_marked_words(words)) },
        ],
        ServerMessage::ShowRoundOverview(_, word_to_guess, overview) => vec![
            text("type", "ShowRoundOverview"),
            text("word_to_guess", word_to_guess.as_str()),
            Member { key: "overview", value: JsonValue::MarkedWords(copy_marked_words(overview)) },
        ],
        ServerMessage::ManualDuplicateEliminationRequest(_) => vec![
            text("type", "ManualDuplicateEliminationRequest"),
        ],
    };
    assert(members_view(r@) =~= message_members(game_id@, m@));
    r
}

/// Writes a message of the game `game_id` as a JSON object.
pub fn message_text(game_id: &str, m: &ServerMessage) -> (r: String)
    ensures
        r@ == json_text(message_members(game_id@, m@)),
{
    json_object(describe_message(game_id, m))
}

/// Lists the members of the object that tells a player that the connection to seat `i` is restored.
pub fn describe_reconnecting(i: usize) -> (r: Vec<Member>)
    ensures
        members_view(r@) == reconnecting_members(i),
{
    let r: Vec<Member> = vec![text("type", "Reconnecting"), number("id", i)];
    assert(members_view(r@) =~= reconnecting_members(i));
    r
}

/// Writes the object that tells a player that the connection to seat `i` is restored.
pub fn reconnecting_text(i: usize) -> (r: String)
    ensures
        r@ == json_text(reconnecting_members(i)),
{
    json_object(describe_reconnecting(i))
}

/// Lists the members of the object that tells why a player was turned away.
pub fn describe_rejected(reason: &str) -> (r: Vec<Member>)
    ensures
        members_view(r@) == rejected_members(reason@),
{
    let r: Vec<Member> = vec![text("type", "Rejected"), text("reason", reason)];
    assert(members_view(r@) =~= rejected_members(reason@));
    r
}

/// Writes the object that tells why a player was turned away.
pub fn rejected_text(reason: &str) -> (r: String)
    ensures
        r@ == json_text(rejected_members(reason@)),
{
    json_object(describe_rejected(reason))
}

} // verus!
