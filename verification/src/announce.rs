//! Messages that go to several players at once.
use vstd::prelude::*;

use crate::messages::messages_view;
use crate::messages::ServerMessage;
use crate::messages::ServerMessageView;
use crate::players::filtered_words;
use crate::players::list_filtered_words;
use crate::players::list_words;
use crate::players::players_view;
use crate::players::shown_words;
use crate::players::Player;
use crate::players::PlayerView;

verus! {

/// How many of `n` players there are besides player `k`.
pub open spec fn count_without(n: nat, k: usize) -> nat {
    if k < n {
        (n - 1) as nat
    } else {
        n
    }
}

/// The `i`-th player when player `k` is left out.
pub open spec fn nth_without(i: int, k: usize) -> usize {
    if i < k {
        i as usize
    } else {
        (i + 1) as usize
    }
}

/// Tells everyone the name of a player who joined.
pub open spec fn joined(n: nat, name: Seq<char>) -> Seq<ServerMessageView> {
    Seq::new(n, |i: int| ServerMessageView::UserAdded(i as usize, name))
}

/// Tells everyone the name of a player who joined.
pub fn announce_joined(out: &mut Vec<ServerMessage>, n: usize, name: &String)
    ensures
        messages_view(final(out)@) == messages_view(old(out)@) + joined(n as nat, name@),
{
    let ghost before = messages_view(out@);
    assert(before =~= before + joined(0, name@));
    for i in 0..n
        invariant
            messages_view(out@) == before + joined(i as nat, name@),
    {
        let ghost now = messages_view(out@);
        out.push(ServerMessage::UserAdded(i, name.clone()));
        assert(messages_view(out@) =~= now.push(out@.last()@));
        assert(joined((i + 1) as nat, name@) =~= joined(i as nat, name@).push(out@.last()@));
        assert(messages_view(out@) =~= before + joined((i + 1) as nat, name@));
    }
}

/// Tells everyone that a round starts.
pub open spec fn round_started(
    n: nat,
    guess_user: usize,
    decision_user: usize,
    score: usize,
    words_left: usize,
) -> Seq<ServerMessageView> {
    Seq::new(
        n,
        |i: int| ServerMessageView::RoundStart(
            i as usize,
            guess_user,
            decision_user,
            score,
            words_left,
        ),
    )
}

/// Tells everyone that a round starts.
pub fn announce_round_started(
    out: &mut Vec<ServerMessage>,
    n: usize,
    guess_user: usize,
    decision_user: usize,
    score: usize,
    words_left: usize,
)
    ensures
        messages_view(final(out)@)
            == messages_view(old(out)@)
                + round_started(n as nat, guess_user, decision_user, score, words_left),
{
    let ghost before = messages_view(out@);
    assert(before =~= before + round_started(0, guess_user, decision_user, score, words_left));
    for i in 0..n
        invariant
            messages_view(out@)
                == before + round_started(i as nat, guess_user, decision_user, score, words_left),
    {
        let ghost now = messages_view(out@);
        out.push(ServerMessage::RoundStart(i, guess_user, decision_user, score, words_left));
        assert(messages_view(out@) =~= now.push(out@.last()@));
        assert(round_started((i + 1) as nat, guess_user, decision_user, score, words_left)
            =~= round_started(
                i as nat,
                guess_user,
                decision_user,
                score,
                words_left,
            ).push(out@.last()@));
        assert(messages_view(out@)
            =~= before
                + round_started((i + 1) as nat, guess_user, decision_user, score, words_left));
    }
}

/// Shows everyone the hints that were not stricken.
pub open spec fn filtered_shown(n: nat, words: Seq<Option<Seq<char>>>) -> Seq<ServerMessageView> {
    Seq::new(n, |i: int| ServerMessageView::ShowFilteredWords(i as usize, words))
}

/// Shows everyone the hints that were not stricken.
pub fn announce_filtered_shown(out: &mut Vec<ServerMessage>, n: usize, users: &Vec<Player>)
    ensures
        messages_view(final(out)@)
            == messages_view(old(out)@)
                + filtered_shown(n as nat, filtered_words(players_view(users@))),
{
    let ghost before = messages_view(out@);
    assert(before =~= before + filtered_shown(0, filtered_words(players_view(users@))));
    for i in 0..n
        invariant
            messages_view(out@)
                == before + filtered_shown(i as nat, filtered_words(players_view(users@))),
    {
        let ghost now = messages_view(out@);
        out.push(ServerMessage::ShowFilteredWords(i, list_filtered_words(users)));
        assert(messages_view(out@) =~= now.push(out@.last()@));
        assert(filtered_shown((i + 1) as nat, filtered_words(players_view(users@)))
            =~= filtered_shown(i as nat, filtered_words(players_view(users@))).push(out@.last()@));
        assert(messages_view(out@)
            =~= before + filtered_shown((i + 1) as nat, filtered_words(players_view(users@))));
    }
}

/// Shows everyone the word, the hints and the guess.
pub open spec fn overview_shown(
    n: nat,
    word: Seq<char>,
    words: Seq<Option<(Seq<char>, bool)>>,
) -> Seq<ServerMessageView> {
    Seq::new(n, |i: int| ServerMessageView::ShowRoundOverview(i as usize, word, words))
}

/// Shows everyone the word, the hints and the guess.
pub fn announce_overview_shown(
    out: &mut Vec<ServerMessage>,
    n: usize,
    word: &String,
    users: &Vec<Player>,
)
    ensures
        messages_view(final(out)@)
            == messages_view(old(out)@)
                + overview_shown(n as nat, word@, shown_words(players_view(users@))),
{
    let ghost before = messages_view(out@);
    assert(before =~= before + overview_shown(0, word@, shown_words(players_view(users@))));
    for i in 0..n
        invariant
            messages_view(out@)
                == before + overview_shown(i as nat, word@, shown_words(players_view(users@))),
    {
        let ghost now = messages_view(out@);
        out.push(ServerMessage::ShowRoundOverview(i, word.clone(), list_words(users)));
        assert(messages_view(out@) =~= now.push(out@.last()@));
        assert(overview_shown((i + 1) as nat, word@, shown_words(players_view(users@)))
            =~= overview_shown(
                i as nat,
                word@,
                shown_words(players_view(users@)),
            ).push(out@.last()@));
        assert(messages_view(out@)
            =~= before + overview_shown((i + 1) as nat, word@, shown_words(players_view(users@))));
    }
}

/// Tells everyone the final score.
pub open spec fn finished(n: nat, score: usize) -> Seq<ServerMessageView> {
    Seq::new(n, |i: int| ServerMessageView::Finished(i as usize, score))
}

/// Tells everyone the final score.
pub fn announce_finished(out: &mut Vec<ServerMessage>, n: usize, score: usize)
    ensures
        messages_view(final(out)@) == messages_view(old(out)@) + finished(n as nat, score),
{
    let ghost before = messages_view(out@);
    assert(before =~= before + finished(0, score));
    for i in 0..n
        invariant
            messages_view(out@) == before + finished(i as nat, score),
    {
        let ghost now = messages_view(out@);
        out.push(ServerMessage::Finished(i, score));
        assert(messages_view(out@) =~= now.push(out@.last()@));
        assert(finished((i + 1) as nat, score) =~= finished(i as nat, score).push(out@.last()@));
        assert(messages_view(out@) =~= before + finished((i + 1) as nat, score));
    }
}

/// Asks everyone but `except` for a hint.
pub open spec fn hints_asked(n: nat, except: usize, word: Seq<char>) -> Seq<ServerMessageView> {
    Seq::new(
        count_without(n, except),
        |i: int| ServerMessageView::WordSubmissionRequest(nth_without(i, except), word),
    )
}

/// Asks everyone but `except` for a hint.
pub fn announce_hints_asked(out: &mut Vec<ServerMessage>, n: usize, except: usize, word: &String)
    ensures
        messages_view(final(out)@)
            == messages_view(old(out)@) + hints_asked(n as nat, except, word@),
{
    let ghost before = messages_view(out@);
    assert(before =~= before + hints_asked(0, except, word@));
    for i in 0..n
        invariant
            messages_view(out@) == before + hints_asked(i as nat, except, word@),
    {
        let ghost now = messages_view(out@);
        if i != except {
            out.push(ServerMessage::WordSubmissionRequest(i, word.clone()));
            assert(messages_view(out@) =~= now.push(out@.last()@));
            assert(hints_asked((i + 1) as nat, except, word@)
                =~= hints_asked(i as nat, except, word@).push(out@.last()@));
            assert(messages_view(out@) =~= before + hints_asked((i + 1) as nat, except, word@));
        } else {
            assert(hints_asked((i + 1) as nat, except, word@)
                =~= hints_asked(i as nat, except, word@));
        }
    }
}

/// Shows all hints to everyone but `except`.
pub open spec fn words_shown(
    n: nat,
    except: usize,
    words: Seq<Option<(Seq<char>, bool)>>,
) -> Seq<ServerMessageView> {
    Seq::new(
        count_without(n, except),
        |i: int| ServerMessageView::ShowWords(nth_without(i, except), words),
    )
}

/// Shows all hints to everyone but `except`.
pub fn announce_words_shown(
    out: &mut Vec<ServerMessage>,
    n: usize,
    except: usize,
    users: &Vec<Player>,
)
    ensures
        messages_view(final(out)@)
            == messages_view(old(out)@)
                + words_shown(n as nat, except, shown_words(players_view(users@))),
{
    let ghost before = messages_view(out@);
    assert(before =~= before + words_shown(0, except, shown_words(players_view(users@))));
    for i in 0..n
        invariant
            messages_view(out@)
                == before + words_shown(i as nat, except, shown_words(players_view(users@))),
    {
        let ghost now = messages_view(out@);
        if i != except {
            out.push(ServerMessage::ShowWords(i, list_words(users)));
            assert(messages_view(out@) =~= now.push(out@.last()@));
            assert(words_shown((i + 1) as nat, except, shown_words(players_view(users@)))
                =~= words_shown(
                    i as nat,
                    except,
                    shown_words(players_view(users@)),
                ).push(out@.last()@));
            assert(messages_view(out@)
                =~= before
                    + words_shown((i + 1) as nat, except, shown_words(players_view(users@))));
        } else {
            assert(words_shown((i + 1) as nat, except, shown_words(players_view(users@)))
                =~= words_shown(i as nat, except, shown_words(players_view(users@))));
        }
    }
}

/// Tells everyone but `except` that `user` has submitted a hint.
pub open spec fn submission_noted(n: nat, except: usize, user: usize) -> Seq<ServerMessageView> {
    Seq::new(
        count_without(n, except),
        |i: int| ServerMessageView::WordSubmitted(nth_without(i, except), user),
    )
}

/// Tells everyone but `except` that `user` has submitted a hint.
pub fn announce_submission_noted(out: &mut Vec<ServerMessage>, n: usize, except: usize, user: usize)
    ensures
        messages_view(final(out)@)
            == messages_view(old(out)@) + submission_noted(n as nat, except, user),
{
    let ghost before = messages_view(out@);
    assert(before =~= before + submission_noted(0, except, user));
    for i in 0..n
        invariant
            messages_view(out@) == before + submission_noted(i as nat, except, user),
    {
        let ghost now = messages_view(out@);
        if i != except {
            out.push(ServerMessage::WordSubmitted(i, user));
            assert(messages_view(out@) =~= now.push(out@.last()@));
            assert(submission_noted((i + 1) as nat, except, user)
                =~= submission_noted(i as nat, except, user).push(out@.last()@));
            assert(messages_view(out@) =~= before + submission_noted((i + 1) as nat, except, user));
        } else {
            assert(submission_noted((i + 1) as nat, except, user)
                =~= submission_noted(i as nat, except, user));
        }
    }
}

/// Tells `user` the name of every player.
pub open spec fn roster(user: usize, users: Seq<PlayerView>) -> Seq<ServerMessageView> {
    Seq::new(users.len(), |i: int| ServerMessageView::UserAdded(user, users[i].name))
}

/// Tells `user` the name of every player.
pub fn announce_roster(out: &mut Vec<ServerMessage>, user: usize, users: &Vec<Player>)
    ensures
        messages_view(final(out)@) == messages_view(old(out)@) + roster(user, players_view(users@)),
{
    let ghost before = messages_view(out@);
    let ghost all = roster(user, players_view(users@));
    assert(before =~= before + all.take(0));
    for i in 0..users.len()
        invariant
            all == roster(user, players_view(users@)),
            messages_view(out@) == before + all.take(i as int),
    {
        let ghost now = messages_view(out@);
        out.push(ServerMessage::UserAdded(user, users[i].name.clone()));
        assert(messages_view(out@) =~= now.push(out@.last()@));
        assert(all.take(i + 1) =~= all.take(i as int).push(out@.last()@));
        assert(messages_view(out@) =~= before + all.take(i + 1));
    }
    assert(all.take(all.len() as int) =~= all);
}

/// Tells `user` which players have put down a word.
pub open spec fn submissions_so_far(user: usize, users: Seq<PlayerView>) -> Seq<ServerMessageView>
    decreases users.len(),
{
    if users.len() == 0 {
        Seq::empty()
    } else {
        let before = submissions_so_far(user, users.drop_last());
        if users.last().word_guess is Some {
            before.push(ServerMessageView::WordSubmitted(user, (users.len() - 1) as usize))
        } else {
            before
        }
    }
}

/// Tells `user` which players have put down a word.
pub fn announce_submissions_so_far(out: &mut Vec<ServerMessage>, user: usize, users: &Vec<Player>)
    ensures
        messages_view(final(out)@) == messages_view(old(out)@) + submissions_so_far(
            user,
            players_view(users@),
        ),
{
    let ghost before = messages_view(out@);
    let ghost all = players_view(users@);
    assert(before =~= before + submissions_so_far(user, all.take(0)));
    for i in 0..users.len()
        invariant
            all == players_view(users@),
            messages_view(out@) == before + submissions_so_far(user, all.take(i as int)),
    {
        let ghost now = messages_view(out@);
        assert(all.take(i + 1).drop_last() =~= all.take(i as int));
        if users[i].word_guess.is_some() {
            out.push(ServerMessage::WordSubmitted(user, i));
            assert(messages_view(out@) =~= now.push(out@.last()@));
            assert(messages_view(out@) =~= before + submissions_so_far(user, all.take(i + 1)));
        }
    }
    assert(all.take(all.len() as int) =~= all);
}

} // verus!
