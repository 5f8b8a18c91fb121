//! What holds of every match and every command, proved from `rules::step`.
use vstd::prelude::*;

use crate::events::Event;
use crate::journal::session;
use crate::rules::{allowed_in, clear_indicators, indicate_only, run, state_wf, step};
use crate::state::{all_solved, clue_at, has_clue, solve_clue, Board, ClueHandle, Contestant, GamePhase, StateView};
use crate::Error;

verus! {

/// The sum of the contestants' scores.
pub open spec fn total_points(cs: Seq<Contestant>) -> int
    decreases cs.len(),
{
    if cs.len() == 0 {
        0
    } else {
        total_points(cs.drop_last()) + cs.last().points
    }
}

/// A command that the phase does not admit is rejected with `WrongPhase`, and
/// (by the contract of `Game::apply`) leaves the match unchanged.
pub proof fn lemma_wrong_phase_rejected(s: StateView, e: Event)
    requires
        !allowed_in(s.phase, e),
    ensures
        step(s, e) == Err::<StateView, Error>(Error::WrongPhase { is: s.phase }),
{
}

/// Loading a board twice in Preparing gives the match that loading only the
/// second board gives.
pub proof fn lemma_load_board_twice(s: StateView, first: Board, second: Board)
    requires
        s.phase is Preparing,
    ensures
        step(s, Event::LoadBoard(first)) is Ok,
        step(step(s, Event::LoadBoard(first))->Ok_0, Event::LoadBoard(second)) == step(s, Event::LoadBoard(second)),
{
}

/// Replaying the journal that a writer kept reproduces the match that the
/// writer holds: every record is accepted again, and the result is the same
/// match. (`journal::replay` runs exactly this replay, and then disconnects
/// every contestant.)
pub proof fn lemma_journal_replays(s: StateView, es: Seq<Event>)
    ensures
        run(s, session(s, es).1) == Ok::<StateView, Error>(session(s, es).0),
    decreases es.len(),
{
    if es.len() > 0 {
        lemma_journal_replays(s, es.drop_last());
        let journal = session(s, es.drop_last()).1;
        assert(journal.push(es.last()).drop_last() =~= journal);
    }
}

/// Contestant `i` replaced by `c` changes the total by the difference of
/// their scores.
pub proof fn lemma_total_update(cs: Seq<Contestant>, i: int, c: Contestant)
    requires
        0 <= i < cs.len(),
    ensures
        total_points(cs.update(i, c)) == total_points(cs) - cs[i].points + c.points,
    decreases cs.len(),
{
    let u = cs.update(i, c);
    if i == cs.len() - 1 {
        assert(u.drop_last() =~= cs.drop_last());
    } else {
        lemma_total_update(cs.drop_last(), i, c);
        assert(u.drop_last() =~= cs.drop_last().update(i, c));
    }
}

/// Two lists of contestants with the same scores have the same total.
pub proof fn lemma_total_same_scores(a: Seq<Contestant>, b: Seq<Contestant>)
    requires
        a.len() == b.len(),
        forall|i: int| 0 <= i < a.len() ==> (#[trigger] a[i]).points == b[i].points,
    ensures
        total_points(a) == total_points(b),
    decreases a.len(),
{
    if a.len() > 0 {
        lemma_total_same_scores(a.drop_last(), b.drop_last());
    }
}

/// Accepting an answer adds the clue's value to the buzzed contestant's score
/// and to the total, exactly once: afterwards neither another acceptance nor a
/// rejection is admitted. (Scores are limited to the range of `Points`; the law
/// is stated where the new score stays inside it.)
pub proof fn lemma_accept_counts_once(s: StateView, clue: ClueHandle, contestant: usize)
    requires
        state_wf(s),
        s.phase == (GamePhase::Buzzed { clue, contestant }),
        i32::MIN <= s.contestants[contestant as int].points + clue_at(s.board, clue).points <= i32::MAX,
    ensures
        step(s, Event::AcceptAnswer) is Ok,
        total_points(step(s, Event::AcceptAnswer)->Ok_0.contestants) == total_points(s.contestants) + clue_at(s.board, clue).points,
        step(s, Event::AcceptAnswer)->Ok_0.contestants[contestant as int].points
            == s.contestants[contestant as int].points + clue_at(s.board, clue).points,
        step(step(s, Event::AcceptAnswer)->Ok_0, Event::AcceptAnswer) is Err,
        step(step(s, Event::AcceptAnswer)->Ok_0, Event::RejectAnswer) is Err,
{
    let c = s.contestants[contestant as int];
    let v = clue_at(s.board, clue).points;
    lemma_total_update(s.contestants, contestant as int, Contestant { points: (c.points + v) as i32, indicate: false, ..c });
}

/// Rejecting an answer takes the clue's value from the buzzed contestant's
/// score and from the total, exactly once: afterwards neither an acceptance
/// nor another rejection is admitted before someone buzzes again.
pub proof fn lemma_reject_counts_once(s: StateView, clue: ClueHandle, contestant: usize)
    requires
        state_wf(s),
        s.phase == (GamePhase::Buzzed { clue, contestant }),
        i32::MIN <= s.contestants[contestant as int].points - clue_at(s.board, clue).points <= i32::MAX,
    ensures
        step(s, Event::RejectAnswer) is Ok,
        total_points(step(s, Event::RejectAnswer)->Ok_0.contestants) == total_points(s.contestants) - clue_at(s.board, clue).points,
        step(s, Event::RejectAnswer)->Ok_0.contestants[contestant as int].points
            == s.contestants[contestant as int].points - clue_at(s.board, clue).points,
        step(step(s, Event::RejectAnswer)->Ok_0, Event::AcceptAnswer) is Err,
        step(step(s, Event::RejectAnswer)->Ok_0, Event::RejectAnswer) is Err,
{
    let c = s.contestants[contestant as int];
    let v = clue_at(s.board, clue).points;
    lemma_total_update(s.contestants, contestant as int, Contestant { points: (c.points - v) as i32, indicate: false, ..c });
}

/// Only answers and explicit awards or revocations touch scores: every other
/// accepted command keeps each contestant's score, and so the total.
pub proof fn lemma_scores_kept(s: StateView, e: Event)
    requires
        step(s, e) is Ok,
        !(e is AcceptAnswer || e is RejectAnswer || e is AwardPoints || e is RevokePoints),
    ensures
        step(s, e)->Ok_0.contestants.len() >= s.contestants.len(),
        forall|i: int| 0 <= i < s.contestants.len() ==> #[trigger] step(s, e)->Ok_0.contestants[i].points == s.contestants[i].points,
        e !is ConnectContestant ==> total_points(step(s, e)->Ok_0.contestants) == total_points(s.contestants),
{
    let t = step(s, e)->Ok_0;
    if e !is ConnectContestant {
        assert(t.contestants.len() == s.contestants.len());
        lemma_total_same_scores(t.contestants, s.contestants);
    }
}

/// Once every clue is played, the next `FinishClue` out of Resolution ends the
/// game in Score, where no clue can be picked any more.
pub proof fn lemma_all_solved_ends(s: StateView, clue: ClueHandle)
    requires
        state_wf(s),
        all_solved(s.board),
        s.phase is Resolution,
    ensures
        step(s, Event::FinishClue) is Ok,
        step(s, Event::FinishClue)->Ok_0.phase is Score,
        step(step(s, Event::FinishClue)->Ok_0, Event::Pick { clue }) is Err,
{
    let h = s.phase->Resolution_clue;
    let b = solve_clue(s.board, h);
    assert forall|i: int, j: int| 0 <= i < b.len() && 0 <= j < b[i].clues.len() implies (#[trigger] b[i].clues[j]).solved by {
        assert(s.board[i].clues[j].solved);
    }
}

/// Score is final: no accepted command leaves it, and no clue can be picked.
pub proof fn lemma_score_is_final(s: StateView, e: Event)
    requires
        s.phase is Score,
    ensures
        step(s, e) is Ok ==> step(s, e)->Ok_0.phase is Score,
        e is Pick ==> step(s, e) is Err,
{
}

/// Disconnecting or reconnecting a contestant never moves the game on: the
/// phase and the board stay as they are.
pub proof fn lemma_connection_keeps_phase(s: StateView, e: Event)
    requires
        e is DisconnectContestant || e is ReconnectContestant,
        step(s, e) is Ok,
    ensures
        step(s, e)->Ok_0.phase == s.phase,
        step(s, e)->Ok_0.board == s.board,
{
}

/// Every accepted command keeps the invariant of a match.
pub proof fn lemma_step_keeps_wf(s: StateView, e: Event)
    requires
        state_wf(s),
        step(s, e) is Ok,
    ensures
        state_wf(step(s, e)->Ok_0),
{
    let t = step(s, e)->Ok_0;
    match s.phase {
        GamePhase::Clue { clue, .. } | GamePhase::Buzzing { clue } | GamePhase::Buzzed { clue, .. } | GamePhase::Resolution { clue, .. } => {
            if e is FinishClue {
                let b = solve_clue(s.board, clue);
                assert forall|h: ClueHandle| has_clue(s.board, h) implies #[trigger] has_clue(b, h) by {}
            }
        },
        _ => {},
    }
    if e is StartGame || e is FinishClue {
        assert(t.contestants.len() == s.contestants.len());
    }
}

} // verus!
