//! Turns and points: who guesses next, and what a guess costs.
use vstd::arithmetic::div_mod::lemma_add_mod_noop_right;
use vstd::arithmetic::div_mod::lemma_mod_bound;
use vstd::prelude::*;

verus! {

/// How many words a game has unless asked otherwise.
pub const DEFAULT_WORD_COUNT: usize = 13;

/// How long, in seconds, the overview stays up when the player did not guess.
pub const PASS_PAUSE: u64 = 10;

/// How long, in seconds, the overview stays up before the guess is judged.
pub const VERDICT_PAUSE: u64 = 2;

/// The player after player `i` of `n`.
pub open spec fn player_after(i: usize, n: nat) -> usize {
    ((i + 1) % n as int) as usize
}

/// The score after a guess was judged.
pub open spec fn score_after(score: usize, accepted: bool) -> usize {
    if accepted {
        (score + 1) as usize
    } else {
        score
    }
}

/// The words left after a guess was judged: a right guess uses up one word, a wrong one two, as
/// far as there are two.
pub open spec fn words_after(words_left: usize, accepted: bool) -> usize {
    if accepted {
        (words_left - 1) as usize
    } else if words_left == 1 {
        0
    } else {
        (words_left - 2) as usize
    }
}

/// Finds the player after player `i` of `n`.
pub fn next_player(i: usize, n: usize) -> (r: usize)
    requires
        n > 0,
        i < n || i == 0,
    ensures
        r == player_after(i, n as nat),
        r < n,
{
    (i + 1) % n
}

/// Counts a judged guess: the new score and the words left.
pub fn judge(score: usize, words_left: usize, accepted: bool) -> (r: (usize, usize))
    requires
        words_left >= 1,
        score + words_left <= usize::MAX,
    ensures
        r.0 == score_after(score, accepted),
        r.1 == words_after(words_left, accepted),
        r.0 + r.1 <= score + words_left,
        r.1 < words_left,
{
    if accepted {
        (score + 1, words_left - 1)
    } else if words_left == 1 {
        (score, 0)
    } else {
        (score, words_left - 2)
    }
}

/// The player after another is the next one, and after the last comes the first.
pub proof fn lemma_player_after(i: usize, n: nat)
    requires
        0 < n <= usize::MAX,
        i < n || i == 0,
    ensures
        player_after(i, n) < n,
        i + 1 < n ==> player_after(i, n) == i + 1,
        i + 1 == n ==> player_after(i, n) == 0,
        n >= 2 ==> player_after(i, n) != i,
{
    if i + 1 < n {
        assert((i + 1) % n as int == i + 1) by (nonlinear_arith)
            requires
                i + 1 < n,
        ;
    } else if i + 1 == n {
        assert((i + 1) % n as int == 0) by (nonlinear_arith)
            requires
                i + 1 == n,
                n > 0,
        ;
    }
}

/// The player after player `k % n` is player `(k + 1) % n`.
pub proof fn lemma_player_after_mod(k: nat, n: nat)
    requires
        0 < n <= usize::MAX,
    ensures
        player_after((k % n) as usize, n) == (k + 1) % n,
        (k % n) < n,
{
    lemma_add_mod_noop_right(1, k as int, n as int);
    lemma_mod_bound(k as int, n as int);
    lemma_mod_bound((k + 1) as int, n as int);
}

} // verus!
