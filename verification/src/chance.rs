//! What is left to chance: the word of a round and the id of a game.
use vstd::prelude::*;

use rand::distributions::Alphanumeric;
use rand::seq::SliceRandom;
use rand::Rng;

verus! {

/// The content of a word list.
pub open spec fn vocabulary(words: Seq<String>) -> Seq<Seq<char>> {
    Seq::new(words.len(), |i: int| words[i]@)
}

/// Picks a word with `rand::seq::SliceRandom::choose` on the generator of `rand::thread_rng`.
/// Claimed of it: a list without words gives nothing, and any other list gives one of its words.
/// Which one is left to chance.
#[verifier::external_body]
fn any_word(words: &Vec<String>) -> (r: Option<&String>)
    ensures
        words@.len() == 0 ==> r is None,
        words@.len() > 0 ==> r is Some && words@.contains(*r->0),
{
    words.choose(&mut rand::thread_rng())
}

/// Draws a word from a list that holds at least one.
pub fn draw_word(words: &Vec<String>) -> (r: String)
    requires
        words@.len() > 0,
    ensures
        vocabulary(words@).contains(r@),
{
    let ghost all = vocabulary(words@);
    match any_word(words) {
        Some(word) => {
            proof {
                let i = choose|i: int| 0 <= i < words@.len() && words@[i] == *word;
                assert(all[i] == word@);
            }
            word.clone()
        },
        None => {
            assert(false);
            String::new()
        },
    }
}

/// A letter or a digit of ASCII.
pub open spec fn is_alphanumeric(c: char) -> bool {
    'a' <= c <= 'z' || 'A' <= c <= 'Z' || '0' <= c <= '9'
}

/// A text of `n` letters and digits of ASCII.
pub open spec fn alphanumeric(text: Seq<char>, n: nat) -> bool {
    &&& text.len() == n
    &&& forall|i: int| 0 <= i < n ==> is_alphanumeric(#[trigger] text[i])
}

/// Takes `n` characters of `rand::Rng::sample_iter` over `rand::distributions::Alphanumeric` on the
/// generator of `rand::thread_rng`. Claimed of it: there are `n` of them, each a letter or a digit
/// of ASCII. Which ones is left to chance.
#[verifier::external_body]
fn any_alphanumeric(n: usize) -> (r: String)
    requires
        n <= isize::MAX,
    ensures
        alphanumeric(r@, n as nat),
{
    rand::thread_rng().sample_iter(&Alphanumeric).take(n).collect()
}

/// The length of an id that is left to chance.
pub const GAME_ID_LENGTH: usize = 5;

/// An id that chance can give to a game.
pub open spec fn is_drawn_id(id: Seq<char>) -> bool {
    alphanumeric(id, GAME_ID_LENGTH as nat)
}

/// Draws an id for a game.
pub fn draw_game_id() -> (r: String)
    ensures
        is_drawn_id(r@),
{
    any_alphanumeric(GAME_ID_LENGTH)
}

} // verus!
