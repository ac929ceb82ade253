//! What a browser reads in the objects that it gets.
use vstd::prelude::*;

use crate::messages::ServerMessageView;
use crate::wire::message_members;
use crate::wire::reconnecting_members;
use crate::wire::rejected_members;
use crate::wire::JsonValueView;
use crate::wire::MemberView;

verus! {

/// The object has a member with this key, and its value is this one.
pub open spec fn reads(members: Seq<MemberView>, key: Seq<char>, value: JsonValueView) -> bool {
    &&& exists|j: int| 0 <= j < members.len() && (#[trigger] members[j]).key == key
    &&& forall|j: int|
        0 <= j < members.len() && (#[trigger] members[j]).key == key ==> members[j].value == value
}

/// The object has so many members, and says of itself that it is of this type.
pub open spec fn is_object(members: Seq<MemberView>, name: Seq<char>, size: nat) -> bool {
    &&& members.len() == size
    &&& reads(members, "type"@, JsonValueView::Text(name))
}

/// The keys of an object are different texts.
proof fn lemma_keys_differ()
    ensures
        "type"@ != "username"@,
        "type"@ != "id"@,
        "type"@ != "game_id"@,
        "username"@ != "id"@,
        "username"@ != "game_id"@,
        "id"@ != "game_id"@,
        "type"@ != "points"@,
        "type"@ != "current_user"@,
        "type"@ != "decision_user"@,
        "type"@ != "score"@,
        "type"@ != "words_left"@,
        "current_user"@ != "decision_user"@,
        "current_user"@ != "score"@,
        "current_user"@ != "words_left"@,
        "decision_user"@ != "score"@,
        "decision_user"@ != "words_left"@,
        "score"@ != "words_left"@,
        "type"@ != "user"@,
        "type"@ != "word"@,
        "type"@ != "words"@,
        "type"@ != "word_to_guess"@,
        "type"@ != "overview"@,
        "word_to_guess"@ != "overview"@,
        "type"@ != "reason"@,
{
    reveal_strlit("type");
    reveal_strlit("username");
    reveal_strlit("id");
    reveal_strlit("game_id");
    reveal_strlit("points");
    reveal_strlit("current_user");
    reveal_strlit("decision_user");
    reveal_strlit("score");
    reveal_strlit("words_left");
    reveal_strlit("user");
    reveal_strlit("word");
    reveal_strlit("words");
    reveal_strlit("word_to_guess");
    reveal_strlit("overview");
    reveal_strlit("reason");
    assert("type"@[0] == 't');
    assert("user"@[0] == 'u');
    assert("word"@[0] == 'w');
    assert("username"@[0] == 'u');
    assert("id"@[0] == 'i');
    assert("game_id"@[0] == 'g');
    assert("points"@[0] == 'p');
    assert("current_user"@[0] == 'c');
    assert("decision_user"@[0] == 'd');
    assert("score"@[0] == 's');
    assert("words_left"@[0] == 'w');
    assert("words"@[0] == 'w');
    assert("word_to_guess"@[0] == 'w');
    assert("overview"@[0] == 'o');
    assert("reason"@[0] == 'r');
}

/// A browser reads who has joined, and in which game.
pub proof fn law_joining_is_described(game_id: Seq<char>, i: usize, name: Seq<char>)
    ensures
        ({
            let object = message_members(game_id, ServerMessageView::UserAdded(i, name));
            &&& is_object(object, "UserAdded"@, 4)
            &&& reads(object, "username"@, JsonValueView::Text(name))
            &&& reads(object, "id"@, JsonValueView::Number(i))
            &&& reads(object, "game_id"@, JsonValueView::Text(game_id))
        }),
{
    lemma_keys_differ();
    let object = message_members(game_id, ServerMessageView::UserAdded(i, name));
    assert(object[0].key == "type"@);
    assert(object[1].key == "username"@);
    assert(object[2].key == "id"@);
    assert(object[3].key == "game_id"@);
}

/// A browser reads the roles, the points and the words left of a round.
pub proof fn law_rounds_are_described(
    game_id: Seq<char>,
    i: usize,
    current_user: usize,
    decision_user: usize,
    score: usize,
    words_left: usize,
)
    ensures
        ({
            let object = message_members(
                game_id,
                ServerMessageView::RoundStart(i, current_user, decision_user, score, words_left),
            );
            &&& is_object(object, "RoundStart"@, 5)
            &&& reads(object, "current_user"@, JsonValueView::Number(current_user))
            &&& reads(object, "decision_user"@, JsonValueView::Number(decision_user))
            &&& reads(object, "score"@, JsonValueView::Number(score))
            &&& reads(object, "words_left"@, JsonValueView::Number(words_left))
        }),
{
    lemma_keys_differ();
    let object = message_members(
        game_id,
        ServerMessageView::RoundStart(i, current_user, decision_user, score, words_left),
    );
    assert(object[0].key == "type"@);
    assert(object[1].key == "current_user"@);
    assert(object[2].key == "decision_user"@);
    assert(object[3].key == "score"@);
    assert(object[4].key == "words_left"@);
}

/// A browser reads the final score, who has submitted a hint, and the word to give a hint for.
pub proof fn law_news_is_described(
    game_id: Seq<char>,
    i: usize,
    points: usize,
    user: usize,
    word: Seq<char>,
)
    ensures
        ({
            let object = message_members(game_id, ServerMessageView::Finished(i, points));
            &&& is_object(object, "Finished"@, 2)
            &&& reads(object, "points"@, JsonValueView::Number(points))
        }),
        ({
            let object = message_members(game_id, ServerMessageView::WordSubmitted(i, user));
            &&& is_object(object, "WordSubmitted"@, 2)
            &&& reads(object, "user"@, JsonValueView::Number(user))
        }),
        ({
            let object = message_members(
                game_id,
                ServerMessageView::WordSubmissionRequest(i, word),
            );
            &&& is_object(object, "WordSubmissionRequest"@, 2)
            &&& reads(object, "word"@, JsonValueView::Text(word))
        }),
{
    lemma_keys_differ();
    let score = message_members(game_id, ServerMessageView::Finished(i, points));
    assert(score[0].key == "type"@);
    assert(score[1].key == "points"@);
    let submitted = message_members(game_id, ServerMessageView::WordSubmitted(i, user));
    assert(submitted[0].key == "type"@);
    assert(submitted[1].key == "user"@);
    let asked = message_members(game_id, ServerMessageView::WordSubmissionRequest(i, word));
    assert(asked[0].key == "type"@);
    assert(asked[1].key == "word"@);
}

/// A browser reads the other questions by their type alone.
pub proof fn law_questions_are_described(game_id: Seq<char>, i: usize)
    ensures
        is_object(
            message_members(game_id, ServerMessageView::WordGuessRequest(i)),
            "WordGuessRequest"@,
            1,
        ),
        is_object(
            message_members(game_id, ServerMessageView::AcceptGuessRequest(i)),
            "AcceptGuessRequest"@,
            1,
        ),
        is_object(
            message_members(game_id, ServerMessageView::ManualDuplicateEliminationRequest(i)),
            "ManualDuplicateEliminationRequest"@,
            1,
        ),
{
    let guess = message_members(game_id, ServerMessageView::WordGuessRequest(i));
    assert(guess[0].key == "type"@);
    let accept = message_members(game_id, ServerMessageView::AcceptGuessRequest(i));
    assert(accept[0].key == "type"@);
    let strike = message_members(game_id, ServerMessageView::ManualDuplicateEliminationRequest(i));
    assert(strike[0].key == "type"@);
}

/// A browser reads the words on the table as they are, and the word of the round with them in the
/// overview.
pub proof fn law_words_are_described(
    game_id: Seq<char>,
    i: usize,
    word: Seq<char>,
    left: Seq<Option<Seq<char>>>,
    marked: Seq<Option<(Seq<char>, bool)>>,
)
    ensures
        ({
            let object = message_members(game_id, ServerMessageView::ShowFilteredWords(i, left));
            &&& is_object(object, "ShowFilteredWords"@, 2)
            &&& reads(object, "words"@, JsonValueView::Words(left))
        }),
        ({
            let object = message_members(game_id, ServerMessageView::ShowWords(i, marked));
            &&& is_object(object, "ShowWords"@, 2)
            &&& reads(object, "words"@, JsonValueView::MarkedWords(marked))
        }),
        ({
            let object = message_members(
                game_id,
                ServerMessageView::ShowRoundOverview(i, word, marked),
            );
            &&& is_object(object, "ShowRoundOverview"@, 3)
            &&& reads(object, "word_to_guess"@, JsonValueView::Text(word))
            &&& reads(object, "overview"@, JsonValueView::MarkedWords(marked))
        }),
{
    lemma_keys_differ();
    let filtered = message_members(game_id, ServerMessageView::ShowFilteredWords(i, left));
    assert(filtered[0].key == "type"@);
    assert(filtered[1].key == "words"@);
    let all = message_members(game_id, ServerMessageView::ShowWords(i, marked));
    assert(all[0].key == "type"@);
    assert(all[1].key == "words"@);
    let overview = message_members(game_id, ServerMessageView::ShowRoundOverview(i, word, marked));
    assert(overview[0].key == "type"@);
    assert(overview[1].key == "word_to_guess"@);
    assert(overview[2].key == "overview"@);
}

/// A browser that comes back reads its number, and one that is turned away reads why.
pub proof fn law_replies_are_described(i: usize, reason: Seq<char>)
    ensures
        is_object(reconnecting_members(i), "Reconnecting"@, 2),
        reads(reconnecting_members(i), "id"@, JsonValueView::Number(i)),
        is_object(rejected_members(reason), "Rejected"@, 2),
        reads(rejected_members(reason), "reason"@, JsonValueView::Text(reason)),
{
    lemma_keys_differ();
    assert(reconnecting_members(i)[0].key == "type"@);
    assert(reconnecting_members(i)[1].key == "id"@);
    assert(rejected_members(reason)[0].key == "type"@);
    assert(rejected_members(reason)[1].key == "reason"@);
}

} // verus!
