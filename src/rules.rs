//! The rules of a match as mathematics: which commands each phase allows, and
//! what every command does to the match.
use vstd::prelude::*;

use crate::events::Event;
use crate::state::{
    all_solved, clue_at, has_clue, solve_clue, CategoryView, Clue, ClueHandle, Contestant, ContestantHandle, GamePhase,
    Options, Points, StateView,
};
use crate::Error;

verus! {

/// Whether the phase admits the command at all (whether the command could
/// succeed there, given valid handles and a valid wage).
pub open spec fn allowed_in(phase: GamePhase, e: Event) -> bool {
    match e {
        Event::Settings | Event::LoadBoard(_) | Event::OpenLobby => phase is Preparing,
        Event::ConnectContestant { .. } | Event::StartGame => phase is Connecting,
        Event::DisconnectContestant { .. }
        | Event::ReconnectContestant { .. }
        | Event::NameContestant { .. }
        | Event::AwardPoints { .. }
        | Event::RevokePoints { .. } => true,
        Event::Pick { .. } => phase is Picking,
        Event::SetWage { .. } => phase is Waging,
        Event::ClueFullyShown => phase is Clue,
        Event::Buzz { .. } => phase is Buzzing || phase is Connecting || phase is Score,
        Event::AcceptAnswer | Event::RejectAnswer => phase is Buzzed,
        Event::RevealHint => phase is Resolution,
        Event::FinishClue => phase is Clue || phase is Buzzing || phase is Buzzed || phase is Resolution,
    }
}

/// The match before anything happened.
pub open spec fn initial_state() -> StateView {
    StateView { contestants: seq![], board: seq![], phase: GamePhase::Preparing, options: Options {} }
}

/// `x` limited to the range of `Points`.
pub open spec fn clamp_points(x: int) -> Points {
    if x > i32::MAX {
        i32::MAX
    } else if x < i32::MIN {
        i32::MIN
    } else {
        x as i32
    }
}

/// A contestant as registered: no name yet, no points, connected.
pub open spec fn new_contestant(name_hint: String) -> Contestant {
    Contestant { name: None, name_hint, points: 0, indicate: false, connected: true }
}

/// Every contestant with the indicator switched off.
pub open spec fn clear_indicators(cs: Seq<Contestant>) -> Seq<Contestant> {
    cs.map_values(|c: Contestant| Contestant { indicate: false, ..c })
}

/// Only contestant `i` with the indicator switched on.
pub open spec fn indicate_only(cs: Seq<Contestant>, i: int) -> Seq<Contestant> {
    cs.map(|j: int, c: Contestant| Contestant { indicate: j == i, ..c })
}

/// Every contestant marked as disconnected.
pub open spec fn disconnect_all(s: StateView) -> StateView {
    StateView { contestants: s.contestants.map_values(|c: Contestant| Contestant { connected: false, ..c }), ..s }
}

/// The number of played clues in a list of clues.
pub open spec fn solved_in(clues: Seq<Clue>) -> nat
    decreases clues.len(),
{
    if clues.len() == 0 {
        0
    } else {
        solved_in(clues.drop_last()) + if clues.last().solved {
            1nat
        } else {
            0nat
        }
    }
}

/// The number of played clues on a board.
pub open spec fn solved_count(board: Seq<CategoryView>) -> nat
    decreases board.len(),
{
    if board.len() == 0 {
        0
    } else {
        solved_count(board.drop_last()) + solved_in(board.last().clues)
    }
}

/// The contestant chosen where the rules need one and nobody is designated:
/// the number of played clues, modulo the number of contestants. The choice
/// moves on by one with every played clue, and the same match always makes
/// the same choice.
pub open spec fn chosen_contestant(board: Seq<CategoryView>, n: nat) -> ContestantHandle {
    if n == 0 {
        0
    } else {
        (solved_count(board) % n) as usize
    }
}

/// Counting modulo `n`: the remainder of `x + 1` is that of `x` plus one,
/// wrapping to zero at `n`.
pub proof fn lemma_mod_succ(x: int, n: int)
    requires
        x >= 0,
        n > 0,
    ensures
        (x + 1) % n == if x % n + 1 == n {
            0
        } else {
            x % n + 1
        },
{
    let q = x / n;
    let r = x % n;
    vstd::arithmetic::div_mod::lemma_fundamental_div_mod(x, n);
    assert(x == n * q + r);
    if r + 1 == n {
        assert(x + 1 == (q + 1) * n + 0) by (nonlinear_arith)
            requires
                x == n * q + r,
                r + 1 == n,
        ;
        vstd::arithmetic::div_mod::lemma_fundamental_div_mod_converse(x + 1, n, q + 1, 0);
    } else {
        assert(x + 1 == q * n + (r + 1)) by (nonlinear_arith)
            requires
                x == n * q + r,
        ;
        vstd::arithmetic::div_mod::lemma_fundamental_div_mod_converse(x + 1, n, q, r + 1);
    }
}

/// The wage policy: a contestant may bet from nothing up to their score, or up
/// to the clue's value where that is more.
pub open spec fn wage_ok(wage: Points, score: Points, value: Points) -> bool {
    0 <= wage && (wage <= score || wage <= value)
}

/// The result of a rejection because of the phase.
pub open spec fn wrong_phase(s: StateView) -> Result<StateView, Error> {
    Err(Error::WrongPhase { is: s.phase })
}

/// Contestant `i` replaced by `c`, or `ContestantNotFound`.
pub open spec fn set_contestant(s: StateView, i: ContestantHandle, c: Contestant) -> Result<StateView, Error> {
    if i < s.contestants.len() {
        Ok(StateView { contestants: s.contestants.update(i as int, c), ..s })
    } else {
        Err(Error::ContestantNotFound)
    }
}

/// What `FinishClue` does.
pub open spec fn finish(s: StateView) -> Result<StateView, Error> {
    let n = s.contestants.len();
    let cleared = clear_indicators(s.contestants);
    match s.phase {
        GamePhase::Clue { clue, exclusive } => {
            if !has_clue(s.board, clue) {
                Err(Error::ClueNotFound)
            } else {
                let b = solve_clue(s.board, clue);
                let c = match exclusive {
                    Some(c) => c,
                    None => chosen_contestant(b, n),
                };
                Ok(StateView {
                    contestants: cleared,
                    board: b,
                    phase: GamePhase::Resolution { clue, contestant: c, show_hint: false },
                    ..s
                })
            }
        },
        GamePhase::Buzzing { clue } => {
            if !has_clue(s.board, clue) {
                Err(Error::ClueNotFound)
            } else {
                let b = solve_clue(s.board, clue);
                Ok(StateView {
                    contestants: cleared,
                    board: b,
                    phase: GamePhase::Resolution { clue, contestant: chosen_contestant(b, n), show_hint: false },
                    ..s
                })
            }
        },
        GamePhase::Buzzed { clue, contestant } => {
            if !has_clue(s.board, clue) {
                Err(Error::ClueNotFound)
            } else {
                Ok(StateView {
                    contestants: cleared,
                    board: solve_clue(s.board, clue),
                    phase: GamePhase::Resolution { clue, contestant, show_hint: false },
                    ..s
                })
            }
        },
        GamePhase::Resolution { clue, contestant, .. } => {
            if !has_clue(s.board, clue) {
                Err(Error::ClueNotFound)
            } else {
                let b = solve_clue(s.board, clue);
                Ok(StateView {
                    contestants: cleared,
                    board: b,
                    phase: if all_solved(b) {
                        GamePhase::Score
                    } else {
                        GamePhase::Picking { contestant }
                    },
                    ..s
                })
            }
        },
        _ => wrong_phase(s),
    }
}

/// What an answer does to the buzzed contestant: `delta` points (clamped), and
/// the indicator off. `next` is the phase afterwards.
pub open spec fn judge(s: StateView, clue: ClueHandle, contestant: ContestantHandle, sign: int, next: GamePhase) -> Result<StateView, Error> {
    if !has_clue(s.board, clue) {
        Err(Error::ClueNotFound)
    } else if contestant >= s.contestants.len() {
        Err(Error::ContestantNotFound)
    } else {
        let c = s.contestants[contestant as int];
        let v = clue_at(s.board, clue).points;
        Ok(StateView {
            contestants: s.contestants.update(
                contestant as int,
                Contestant { points: clamp_points(c.points + sign * v), indicate: false, ..c },
            ),
            phase: next,
            ..s
        })
    }
}

/// What command `e` does to the match `s`: the match afterwards, or why `e`
/// is rejected.
pub open spec fn step(s: StateView, e: Event) -> Result<StateView, Error> {
    let n = s.contestants.len();
    match e {
        Event::Settings => if s.phase is Preparing {
            Ok(s)
        } else {
            wrong_phase(s)
        },
        Event::LoadBoard(b) => if s.phase is Preparing {
            Ok(StateView { board: b@, ..s })
        } else {
            wrong_phase(s)
        },
        Event::OpenLobby => if s.phase is Preparing {
            Ok(StateView { phase: GamePhase::Connecting, ..s })
        } else {
            wrong_phase(s)
        },
        Event::ConnectContestant { name_hint } => if s.phase is Connecting {
            Ok(StateView { contestants: s.contestants.push(new_contestant(name_hint)), ..s })
        } else {
            wrong_phase(s)
        },
        Event::DisconnectContestant { contestant } => set_contestant(
            s,
            contestant,
            Contestant { connected: false, ..s.contestants[contestant as int] },
        ),
        Event::ReconnectContestant { contestant } => set_contestant(
            s,
            contestant,
            Contestant { connected: true, ..s.contestants[contestant as int] },
        ),
        Event::NameContestant { index, name } => set_contestant(
            s,
            index,
            Contestant { name: Some(name), ..s.contestants[index as int] },
        ),
        Event::AwardPoints { contestant, points } => set_contestant(
            s,
            contestant,
            Contestant {
                points: clamp_points(s.contestants[contestant as int].points + points),
                ..s.contestants[contestant as int]
            },
        ),
        Event::RevokePoints { contestant, points } => set_contestant(
            s,
            contestant,
            Contestant {
                points: clamp_points(s.contestants[contestant as int].points - points),
                ..s.contestants[contestant as int]
            },
        ),
        Event::StartGame => if !(s.phase is Connecting) {
            wrong_phase(s)
        } else if n == 0 {
            Err(Error::NoContestants)
        } else {
            Ok(StateView {
                contestants: clear_indicators(s.contestants),
                phase: GamePhase::Picking { contestant: chosen_contestant(s.board, n) },
                ..s
            })
        },
        Event::Pick { clue } => match s.phase {
            GamePhase::Picking { contestant } => if !has_clue(s.board, clue) {
                Err(Error::ClueNotFound)
            } else if clue_at(s.board, clue).solved {
                Err(Error::ClueSolved)
            } else {
                Ok(StateView {
                    phase: GamePhase::Clue {
                        clue,
                        exclusive: if clue_at(s.board, clue).exclusive {
                            Some(contestant)
                        } else {
                            None
                        },
                    },
                    ..s
                })
            },
            _ => wrong_phase(s),
        },
        Event::SetWage { points } => match s.phase {
            GamePhase::Waging { clue, contestant } => if !has_clue(s.board, clue) {
                Err(Error::ClueNotFound)
            } else if contestant >= n {
                Err(Error::ContestantNotFound)
            } else if !wage_ok(points, s.contestants[contestant as int].points, clue_at(s.board, clue).points) {
                Err(Error::InvalidWage)
            } else {
                Ok(StateView { phase: GamePhase::Clue { clue, exclusive: Some(contestant) }, ..s })
            },
            _ => wrong_phase(s),
        },
        Event::ClueFullyShown => match s.phase {
            GamePhase::Clue { clue, exclusive: None } => Ok(StateView { phase: GamePhase::Buzzing { clue }, ..s }),
            GamePhase::Clue { clue, exclusive: Some(contestant) } => Ok(
                StateView { phase: GamePhase::Buzzed { clue, contestant }, ..s },
            ),
            _ => wrong_phase(s),
        },
        Event::Buzz { contestant } => match s.phase {
            GamePhase::Buzzing { clue } => if contestant < n {
                Ok(StateView {
                    contestants: indicate_only(s.contestants, contestant as int),
                    phase: GamePhase::Buzzed { clue, contestant },
                    ..s
                })
            } else {
                Err(Error::ContestantNotFound)
            },
            GamePhase::Connecting | GamePhase::Score => set_contestant(
                s,
                contestant,
                Contestant { indicate: !s.contestants[contestant as int].indicate, ..s.contestants[contestant as int] },
            ),
            _ => wrong_phase(s),
        },
        Event::AcceptAnswer => match s.phase {
            GamePhase::Buzzed { clue, contestant } => judge(
                s,
                clue,
                contestant,
                1,
                GamePhase::Resolution { clue, contestant, show_hint: false },
            ),
            _ => wrong_phase(s),
        },
        Event::RejectAnswer => match s.phase {
            GamePhase::Buzzed { clue, contestant } => judge(s, clue, contestant, -1, GamePhase::Buzzing { clue }),
            _ => wrong_phase(s),
        },
        Event::RevealHint => match s.phase {
            GamePhase::Resolution { clue, contestant, .. } => Ok(
                StateView { phase: GamePhase::Resolution { clue, contestant, show_hint: true }, ..s },
            ),
            _ => wrong_phase(s),
        },
        Event::FinishClue => finish(s),
    }
}

/// The match after a whole sequence of commands, each applied to the result of
/// the one before; the first rejection ends the run.
pub open spec fn run(s: StateView, es: Seq<Event>) -> Result<StateView, Error>
    decreases es.len(),
{
    if es.len() == 0 {
        Ok(s)
    } else {
        match run(s, es.drop_last()) {
            Ok(t) => step(t, es.last()),
            Err(e) => Err(e),
        }
    }
}

/// The invariant of a match: the handles that its phase carries name a clue
/// of the board and a registered contestant, and once the game started there
/// is at least one contestant.
pub open spec fn state_wf(s: StateView) -> bool {
    let n = s.contestants.len();
    &&& (s.phase is Preparing || s.phase is Connecting || n > 0)
    &&& match s.phase {
        GamePhase::Picking { contestant } => contestant < n,
        GamePhase::Waging { clue, contestant } => has_clue(s.board, clue) && contestant < n,
        GamePhase::Clue { clue, exclusive } => has_clue(s.board, clue) && match exclusive {
            Some(c) => c < n,
            None => true,
        },
        GamePhase::Buzzing { clue } => has_clue(s.board, clue),
        GamePhase::Buzzed { clue, contestant } => has_clue(s.board, clue) && contestant < n,
        GamePhase::Resolution { clue, contestant, .. } => has_clue(s.board, clue) && contestant < n,
        _ => true,
    }
}

} // verus!
