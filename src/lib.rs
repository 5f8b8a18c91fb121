//! A moderated trivia match (board of clues, buzzing contestants, scores) as a
//! verified state machine: every command either moves the match to the state
//! given by `rules::step` or leaves it untouched and reports why.
pub mod events;
pub mod journal;
pub mod laws;
pub mod rules;
pub mod state;

use vstd::prelude::*;

use crate::events::Event;
use crate::rules::{
    chosen_contestant, clamp_points, clear_indicators, disconnect_all, indicate_only, initial_state, lemma_mod_succ,
    new_contestant, set_contestant, solved_count, solved_in, state_wf, step,
};
use crate::state::{
    all_solved, Board, CategoryView, Clue, ClueHandle, Contestant, ContestantHandle, GamePhase, GameState, Options, Points,
    StateView,
};

verus! {

/// Why a command was rejected. A rejected command never changes the match.
#[derive(Clone, Copy, Debug, PartialEq, Eq)]
pub enum Error {
    /// The command is not allowed in the phase the match is in.
    WrongPhase { is: GamePhase },
    /// No contestant has the given handle.
    ContestantNotFound,
    /// The game cannot start without contestants.
    NoContestants,
    /// No clue has the given handle.
    ClueNotFound,
    /// The clue was played already and cannot be picked again.
    ClueSolved,
    /// The wage is negative, or more than both the contestant's score and the
    /// clue's value.
    InvalidWage,
}


/// The outcome of a command that changes the match in place: on success `after`
/// is the match that `expected` gives, on rejection `r` is that error and the
/// match is `before` unchanged.
pub open spec fn follows(before: StateView, after: StateView, r: Result<(), Error>, expected: Result<StateView, Error>) -> bool {
    match expected {
        Ok(t) => r is Ok && after == t,
        Err(e) => r == Err::<(), Error>(e) && after == before,
    }
}

/// `score + delta`, limited to the range of `Points`.
fn add_points(score: Points, delta: i64) -> (r: Points)
    requires
        -0x1_0000_0000 <= delta <= 0x1_0000_0000,
    ensures
        r == clamp_points(score + delta),
{
    let x: i64 = score as i64 + delta;
    if x > i32::MAX as i64 {
        i32::MAX
    } else if x < i32::MIN as i64 {
        i32::MIN
    } else {
        x as i32
    }
}

/// Switches off every contestant's indicator.
fn unindicate_all(cs: &mut Vec<Contestant>)
    ensures
        final(cs)@ == clear_indicators(old(cs)@),
{
    let ghost before = cs@;
    let mut i: usize = 0;
    while i < cs.len()
        invariant
            cs@.len() == before.len(),
            i <= before.len(),
            forall|j: int| 0 <= j < i ==> cs@[j] == #[trigger] clear_indicators(before)[j],
            forall|j: int| i <= j < before.len() ==> cs@[j] == before[j],
        decreases before.len() - i,
    {
        cs[i].indicate = false;
        i += 1;
    }
    assert(cs@ =~= clear_indicators(before));
}

/// One match: its board, its contestants, its phase and its options. It only
/// changes through `apply`.
#[derive(Debug)]
pub struct Game {
    phase: GamePhase,
    board: Board,
    contestants: Vec<Contestant>,
    options: Options,
}

impl View for Game {
    type V = StateView;

    closed spec fn view(&self) -> StateView {
        StateView { contestants: self.contestants@, board: self.board@, phase: self.phase, options: self.options }
    }
}

impl Game {
    /// A match in Preparing, with an empty board and no contestants.
    pub fn new() -> (r: Self)
        ensures
            r@ == initial_state(),
            state_wf(r@),
    {
        let r = Game {
            phase: GamePhase::Preparing,
            board: Board { categories: Vec::new() },
            contestants: Vec::new(),
            options: Options::default(),
        };
        assert(r@.board =~= initial_state().board);
        assert(r@.contestants =~= initial_state().contestants);
        r
    }

    /// Applies one command. On success the match is `step(before, event)` and
    /// a copy of it is returned; on rejection the error of `step` is returned
    /// and the match is left exactly as it was.
    pub fn apply(&mut self, event: Event) -> (r: Result<GameState, Error>)
        ensures
            (match step(old(self)@, event) {
                Ok(t) => r is Ok && final(self)@ == t && r.unwrap()@ == t,
                Err(e) => r is Err && r->Err_0 == e && final(self)@ == old(self)@,
            }),
            state_wf(old(self)@) ==> state_wf(final(self)@),
    {
        let ghost before = self@;
        let ghost e = event;
        let r = match event {
            Event::Settings => self.change_settings(),
            Event::LoadBoard(board) => self.load_board(board),
            Event::OpenLobby => self.open_lobby(),
            Event::ConnectContestant { name_hint } => self.connect_contestant(name_hint),
            Event::ReconnectContestant { contestant } => self.reconnect_contestant(contestant),
            Event::DisconnectContestant { contestant } => self.disconnect_contestant(contestant),
            Event::NameContestant { index, name } => self.name_contestant(index, name),
            Event::AwardPoints { contestant, points } => self.modify_score(contestant, points as i64),
            Event::RevokePoints { contestant, points } => self.modify_score(contestant, -(points as i64)),
            Event::StartGame => self.start_game(),
            Event::Pick { clue } => self.pick(clue),
            Event::ClueFullyShown => self.clue_fully_shown(),
            Event::Buzz { contestant } => self.buzz(contestant),
            Event::SetWage { points } => self.set_wage(points),
            Event::AcceptAnswer => self.accept_answer(),
            Event::RejectAnswer => self.reject_answer(),
            Event::RevealHint => self.reveal_hint(),
            Event::FinishClue => self.finish_clue(),
        };
        assert(follows(before, self@, r, step(before, e)));
        proof {
            if state_wf(before) && r is Ok {
                crate::laws::lemma_step_keeps_wf(before, e);
            }
        }
        match r {
            Ok(()) => Ok(self.get_game_state()),
            Err(err) => Err(err),
        }
    }

    /// A copy of the whole match.
    pub fn get_game_state(&self) -> (r: GameState)
        ensures
            r@ == self@,
    {
        GameState {
            contestants: crate::state::clone_contestants(&self.contestants),
            board: self.board.clone(),
            phase: self.phase,
            options: self.options,
        }
    }

    /// Marks every contestant as disconnected, as after a restart, when no
    /// client is connected yet.
    pub fn mark_all_contestants_as_disconnected(&mut self)
        ensures
            final(self)@ == disconnect_all(old(self)@),
    {
        let ghost before = self.contestants@;
        let mut i: usize = 0;
        while i < self.contestants.len()
            invariant
                self.phase == old(self).phase,
                self.board == old(self).board,
                self.options == old(self).options,
                before == old(self).contestants@,
                self.contestants@.len() == before.len(),
                i <= before.len(),
                forall|j: int| 0 <= j < i ==> self.contestants@[j] == #[trigger] disconnect_all(old(self)@).contestants[j],
                forall|j: int| i <= j < before.len() ==> self.contestants@[j] == before[j],
            decreases before.len() - i,
        {
            self.contestants[i].connected = false;
            i += 1;
        }
        assert(self@.contestants =~= disconnect_all(old(self)@).contestants);
    }

    fn change_settings(&mut self) -> (r: Result<(), Error>)
        ensures
            follows(old(self)@, final(self)@, r, step(old(self)@, Event::Settings)),
    {
        if !matches!(self.phase, GamePhase::Preparing) {
            return Err(Error::WrongPhase { is: self.phase });
        }
        Ok(())
    }

    fn load_board(&mut self, board: Board) -> (r: Result<(), Error>)
        ensures
            follows(old(self)@, final(self)@, r, step(old(self)@, Event::LoadBoard(board))),
    {
        if !matches!(self.phase, GamePhase::Preparing) {
            return Err(Error::WrongPhase { is: self.phase });
        }
        self.board = board;
        Ok(())
    }

    fn open_lobby(&mut self) -> (r: Result<(), Error>)
        ensures
            follows(old(self)@, final(self)@, r, step(old(self)@, Event::OpenLobby)),
    {
        if !matches!(self.phase, GamePhase::Preparing) {
            return Err(Error::WrongPhase { is: self.phase });
        }
        self.phase = GamePhase::Connecting;
        Ok(())
    }

    fn connect_contestant(&mut self, hint: String) -> (r: Result<(), Error>)
        ensures
            follows(old(self)@, final(self)@, r, step(old(self)@, Event::ConnectContestant { name_hint: hint })),
    {
        if !matches!(self.phase, GamePhase::Connecting) {
            return Err(Error::WrongPhase { is: self.phase });
        }
        let ghost h = hint;
        self.contestants.push(Contestant { name: None, name_hint: hint, points: 0, indicate: false, connected: true });
        assert(self@.contestants =~= old(self)@.contestants.push(new_contestant(h)));
        Ok(())
    }

    fn reconnect_contestant(&mut self, index: ContestantHandle) -> (r: Result<(), Error>)
        ensures
            follows(old(self)@, final(self)@, r, step(old(self)@, Event::ReconnectContestant { contestant: index })),
    {
        if index >= self.contestants.len() {
            return Err(Error::ContestantNotFound);
        }
        self.contestants[index].connected = true;
        assert(self@.contestants =~= set_contestant(old(self)@, index, Contestant { connected: true, ..old(self)@.contestants[index as int] })->Ok_0.contestants);
        Ok(())
    }

    fn disconnect_contestant(&mut self, index: ContestantHandle) -> (r: Result<(), Error>)
        ensures
            follows(old(self)@, final(self)@, r, step(old(self)@, Event::DisconnectContestant { contestant: index })),
    {
        if index >= self.contestants.len() {
            return Err(Error::ContestantNotFound);
        }
        self.contestants[index].connected = false;
        assert(self@.contestants =~= set_contestant(old(self)@, index, Contestant { connected: false, ..old(self)@.contestants[index as int] })->Ok_0.contestants);
        Ok(())
    }

    fn name_contestant(&mut self, index: ContestantHandle, name: String) -> (r: Result<(), Error>)
        ensures
            follows(old(self)@, final(self)@, r, step(old(self)@, Event::NameContestant { index, name })),
    {
        if index >= self.contestants.len() {
            return Err(Error::ContestantNotFound);
        }
        let ghost n = name;
        self.contestants[index].name = Some(name);
        assert(self@.contestants =~= set_contestant(old(self)@, index, Contestant { name: Some(n), ..old(self)@.contestants[index as int] })->Ok_0.contestants);
        Ok(())
    }

    /// Adds `delta` points (clamped) to a contestant's score.
    fn modify_score(&mut self, index: ContestantHandle, delta: i64) -> (r: Result<(), Error>)
        requires
            -0x1_0000_0000 <= delta <= 0x1_0000_0000,
        ensures
            follows(
                old(self)@,
                final(self)@,
                r,
                set_contestant(
                    old(self)@,
                    index,
                    Contestant {
                        points: clamp_points(old(self)@.contestants[index as int].points + delta),
                        ..old(self)@.contestants[index as int]
                    },
                ),
            ),
    {
        if index >= self.contestants.len() {
            return Err(Error::ContestantNotFound);
        }
        let p = add_points(self.contestants[index].points, delta);
        self.contestants[index].points = p;
        assert(self@.contestants =~= old(self)@.contestants.update(
            index as int,
            Contestant { points: p, ..old(self)@.contestants[index as int] },
        ));
        Ok(())
    }

    /// The contestant that the rules choose where nobody is designated; see
    /// `rules::chosen_contestant`.
    fn chosen_contestant(&self) -> (r: ContestantHandle)
        ensures
            r == chosen_contestant(self@.board, self@.contestants.len()),
    {
        let n = self.contestants.len();
        if n == 0 {
            return 0;
        }
        let ghost board = self@.board;
        let mut acc: usize = 0;
        let mut i: usize = 0;
        assert(board.take(0) =~= Seq::<CategoryView>::empty());
        while i < self.board.categories.len()
            invariant
                board == self@.board,
                n == self@.contestants.len(),
                n > 0,
                i <= board.len(),
                acc < n,
                acc == solved_count(board.take(i as int)) % (n as nat),
            decreases board.len() - i,
        {
            let clues = &self.board.categories[i].clues;
            assert(board[i as int].clues == clues@);
            let mut j: usize = 0;
            assert(clues@.take(0) =~= Seq::<Clue>::empty());
            while j < clues.len()
                invariant
                    n > 0,
                    j <= clues@.len(),
                    acc < n,
                    acc == (solved_count(board.take(i as int)) + solved_in(clues@.take(j as int))) % (n as nat),
                decreases clues@.len() - j,
            {
                let ghost before = solved_count(board.take(i as int)) + solved_in(clues@.take(j as int));
                assert(clues@.take(j + 1).drop_last() =~= clues@.take(j as int));
                if clues[j].solved {
                    proof {
                        lemma_mod_succ(before as int, n as int);
                    }
                    acc = if acc + 1 == n {
                        0
                    } else {
                        acc + 1
                    };
                }
                j += 1;
            }
            assert(clues@.take(j as int) =~= clues@);
            assert(board.take(i + 1).drop_last() =~= board.take(i as int));
            i += 1;
        }
        assert(board.take(i as int) =~= board);
        acc
    }

    fn start_game(&mut self) -> (r: Result<(), Error>)
        ensures
            follows(old(self)@, final(self)@, r, step(old(self)@, Event::StartGame)),
    {
        if !matches!(self.phase, GamePhase::Connecting) {
            return Err(Error::WrongPhase { is: self.phase });
        }
        if self.contestants.len() == 0 {
            return Err(Error::NoContestants);
        }
        self.phase = GamePhase::Picking { contestant: self.chosen_contestant() };
        unindicate_all(&mut self.contestants);
        Ok(())
    }

    fn pick(&mut self, clue: ClueHandle) -> (r: Result<(), Error>)
        ensures
            follows(old(self)@, final(self)@, r, step(old(self)@, Event::Pick { clue })),
    {
        let contestant = match self.phase {
            GamePhase::Picking { contestant } => contestant,
            _ => return Err(Error::WrongPhase { is: self.phase }),
        };
        let (solved, exclusive) = match self.board.get(clue) {
            Ok(c) => (c.solved, c.exclusive),
            Err(e) => return Err(e),
        };
        if solved {
            return Err(Error::ClueSolved);
        }
        self.phase = GamePhase::Clue {
            clue,
            exclusive: if exclusive {
                Some(contestant)
            } else {
                None
            },
        };
        Ok(())
    }

    fn clue_fully_shown(&mut self) -> (r: Result<(), Error>)
        ensures
            follows(old(self)@, final(self)@, r, step(old(self)@, Event::ClueFullyShown)),
    {
        self.phase = match self.phase {
            GamePhase::Clue { clue, exclusive: None } => GamePhase::Buzzing { clue },
            GamePhase::Clue { clue, exclusive: Some(contestant) } => GamePhase::Buzzed { clue, contestant },
            _ => return Err(Error::WrongPhase { is: self.phase }),
        };
        Ok(())
    }

    fn buzz(&mut self, contestant_index: usize) -> (r: Result<(), Error>)
        ensures
            follows(old(self)@, final(self)@, r, step(old(self)@, Event::Buzz { contestant: contestant_index })),
    {
        match self.phase {
            GamePhase::Buzzing { clue } => {
                if contestant_index >= self.contestants.len() {
                    return Err(Error::ContestantNotFound);
                }
                self.indicate_contestant(contestant_index);
                self.phase = GamePhase::Buzzed { clue, contestant: contestant_index };
                Ok(())
            },
            GamePhase::Connecting | GamePhase::Score => {
                if contestant_index >= self.contestants.len() {
                    return Err(Error::ContestantNotFound);
                }
                let lit = self.contestants[contestant_index].indicate;
                self.contestants[contestant_index].indicate = !lit;
                assert(self@.contestants =~= old(self)@.contestants.update(
                    contestant_index as int,
                    Contestant { indicate: !lit, ..old(self)@.contestants[contestant_index as int] },
                ));
                Ok(())
            },
            _ => Err(Error::WrongPhase { is: self.phase }),
        }
    }

    fn set_wage(&mut self, points: Points) -> (r: Result<(), Error>)
        ensures
            follows(old(self)@, final(self)@, r, step(old(self)@, Event::SetWage { points })),
    {
        let (clue, contestant) = match self.phase {
            GamePhase::Waging { clue, contestant } => (clue, contestant),
            _ => return Err(Error::WrongPhase { is: self.phase }),
        };
        let value = match self.board.get(clue) {
            Ok(c) => c.points,
            Err(e) => return Err(e),
        };
        if contestant >= self.contestants.len() {
            return Err(Error::ContestantNotFound);
        }
        let score = self.contestants[contestant].points;
        if !(0 <= points && (points <= score || points <= value)) {
            return Err(Error::InvalidWage);
        }
        self.phase = GamePhase::Clue { clue, exclusive: Some(contestant) };
        Ok(())
    }

    fn accept_answer(&mut self) -> (r: Result<(), Error>)
        ensures
            follows(old(self)@, final(self)@, r, step(old(self)@, Event::AcceptAnswer)),
    {
        let (clue, contestant) = match self.phase {
            GamePhase::Buzzed { clue, contestant } => (clue, contestant),
            _ => return Err(Error::WrongPhase { is: self.phase }),
        };
        let value = match self.board.get(clue) {
            Ok(c) => c.points,
            Err(e) => return Err(e),
        };
        if contestant >= self.contestants.len() {
            return Err(Error::ContestantNotFound);
        }
        let p = add_points(self.contestants[contestant].points, value as i64);
        self.contestants[contestant].points = p;
        self.contestants[contestant].indicate = false;
        assert(self@.contestants =~= old(self)@.contestants.update(
            contestant as int,
            Contestant { points: p, indicate: false, ..old(self)@.contestants[contestant as int] },
        ));
        self.phase = GamePhase::Resolution { clue, contestant, show_hint: false };
        Ok(())
    }

    fn reject_answer(&mut self) -> (r: Result<(), Error>)
        ensures
            follows(old(self)@, final(self)@, r, step(old(self)@, Event::RejectAnswer)),
    {
        let (clue, contestant) = match self.phase {
            GamePhase::Buzzed { clue, contestant } => (clue, contestant),
            _ => return Err(Error::WrongPhase { is: self.phase }),
        };
        let value = match self.board.get(clue) {
            Ok(c) => c.points,
            Err(e) => return Err(e),
        };
        if contestant >= self.contestants.len() {
            return Err(Error::ContestantNotFound);
        }
        let p = add_points(self.contestants[contestant].points, -(value as i64));
        self.contestants[contestant].points = p;
        self.contestants[contestant].indicate = false;
        assert(self@.contestants =~= old(self)@.contestants.update(
            contestant as int,
            Contestant { points: p, indicate: false, ..old(self)@.contestants[contestant as int] },
        ));
        self.phase = GamePhase::Buzzing { clue };
        Ok(())
    }

    fn reveal_hint(&mut self) -> (r: Result<(), Error>)
        ensures
            follows(old(self)@, final(self)@, r, step(old(self)@, Event::RevealHint)),
    {
        let (clue, contestant) = match self.phase {
            GamePhase::Resolution { clue, contestant, .. } => (clue, contestant),
            _ => return Err(Error::WrongPhase { is: self.phase }),
        };
        self.phase = GamePhase::Resolution { clue, contestant, show_hint: true };
        Ok(())
    }

    fn finish_clue(&mut self) -> (r: Result<(), Error>)
        ensures
            follows(old(self)@, final(self)@, r, step(old(self)@, Event::FinishClue)),
    {
        match self.phase {
            GamePhase::Clue { clue, exclusive } => {
                if let Err(e) = self.board.mark_solved(clue) {
                    return Err(e);
                }
                let contestant = match exclusive {
                    Some(c) => c,
                    None => self.chosen_contestant(),
                };
                self.phase = GamePhase::Resolution { clue, contestant, show_hint: false };
            },
            GamePhase::Buzzing { clue } => {
                if let Err(e) = self.board.mark_solved(clue) {
                    return Err(e);
                }
                self.phase = GamePhase::Resolution { clue, contestant: self.chosen_contestant(), show_hint: false };
            },
            GamePhase::Buzzed { clue, contestant } => {
                if let Err(e) = self.board.mark_solved(clue) {
                    return Err(e);
                }
                self.phase = GamePhase::Resolution { clue, contestant, show_hint: false };
            },
            GamePhase::Resolution { clue, contestant, .. } => {
                if let Err(e) = self.board.mark_solved(clue) {
                    return Err(e);
                }
                self.phase = self.next_or_end(Some(contestant));
            },
            _ => return Err(Error::WrongPhase { is: self.phase }),
        }
        unindicate_all(&mut self.contestants);
        Ok(())
    }

    /// Score where every clue is played; otherwise Picking, by `contestant` or,
    /// where none is given, by the chosen contestant.
    fn next_or_end(&self, contestant: Option<ContestantHandle>) -> (r: GamePhase)
        ensures
            r == (if all_solved(self@.board) {
                GamePhase::Score
            } else {
                GamePhase::Picking {
                    contestant: match contestant {
                        Some(c) => c,
                        None => chosen_contestant(self@.board, self@.contestants.len()),
                    },
                }
            }),
    {
        let ghost board = self@.board;
        let mut done = true;
        let mut i: usize = 0;
        while i < self.board.categories.len()
            invariant
                board == self@.board,
                i <= board.len(),
                done <==> forall|a: int, b: int|
                    0 <= a < i && 0 <= b < board[a].clues.len() ==> (#[trigger] board[a].clues[b]).solved,
            decreases board.len() - i,
        {
            let clues = &self.board.categories[i].clues;
            assert(board[i as int].clues == clues@);
            let mut j: usize = 0;
            while j < clues.len()
                invariant
                    board[i as int].clues == clues@,
                    i < board.len(),
                    j <= clues@.len(),
                    done <==> (forall|a: int, b: int|
                        0 <= a < i && 0 <= b < board[a].clues.len() ==> (#[trigger] board[a].clues[b]).solved)
                        && (forall|b: int| 0 <= b < j ==> (#[trigger] clues@[b]).solved),
                decreases clues@.len() - j,
            {
                if !clues[j].solved {
                    done = false;
                }
                j += 1;
            }
            i += 1;
        }
        if done {
            GamePhase::Score
        } else {
            GamePhase::Picking {
                contestant: match contestant {
                    Some(c) => c,
                    None => self.chosen_contestant(),
                },
            }
        }
    }

    /// Switches on the indicator of the contestant at `contestant_handle` and
    /// off that of every other.
    fn indicate_contestant(&mut self, contestant_handle: ContestantHandle)
        ensures
            final(self)@ == (StateView { contestants: indicate_only(old(self)@.contestants, contestant_handle as int), ..old(self)@ }),
    {
        let ghost before = self.contestants@;
        let mut i: usize = 0;
        while i < self.contestants.len()
            invariant
                self.phase == old(self).phase,
                self.board == old(self).board,
                self.options == old(self).options,
                before == old(self).contestants@,
                self.contestants@.len() == before.len(),
                i <= before.len(),
                forall|j: int| 0 <= j < i ==> self.contestants@[j] == #[trigger] indicate_only(before, contestant_handle as int)[j],
                forall|j: int| i <= j < before.len() ==> self.contestants@[j] == before[j],
            decreases before.len() - i,
        {
            self.contestants[i].indicate = i == contestant_handle;
            i += 1;
        }
        assert(self@.contestants =~= indicate_only(before, contestant_handle as int));
    }
}

impl Default for Game {
    fn default() -> (r: Self)
        ensures
            r@ == initial_state(),
    {
        Self::new()
    }
}

} // verus!
