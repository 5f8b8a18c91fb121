use vstd::prelude::*;

use crate::state::{Board, ClueHandle, ContestantHandle, Points};

verus! {

/// A command that moderators and contestants submit to a match. The journal
/// of a match is the sequence of commands that were accepted.
///
/// The phases follow each other like this:
/// Preparing --OpenLobby--> Connecting --StartGame--> Picking --Pick--> Clue;
/// Waging --SetWage--> Clue; Clue --ClueFullyShown--> Buzzing (or Buzzed when
/// the clue is exclusive); Buzzing --Buzz--> Buzzed; Buzzed --AcceptAnswer-->
/// Resolution; Buzzed --RejectAnswer--> Buzzing; Clue, Buzzing, Buzzed
/// --FinishClue--> Resolution; Resolution --FinishClue--> Picking, or Score
/// once every clue is solved.
#[derive(Debug)]
pub enum Event {
    /// Change settings before the game. Only in Preparing.
    Settings,
    /// Load a board, replacing the one loaded before. Only in Preparing.
    LoadBoard(Board),
    /// Let contestants connect: Preparing to Connecting.
    OpenLobby,
    /// Register a contestant. Only in Connecting.
    ConnectContestant { name_hint: String },
    /// Mark a contestant as disconnected, in any phase.
    DisconnectContestant { contestant: ContestantHandle },
    /// Mark a contestant as connected again, in any phase.
    ReconnectContestant { contestant: ContestantHandle },
    /// Give a contestant a display name, in any phase.
    NameContestant { index: usize, name: String },
    /// Connecting to Picking. No contestant can register afterwards.
    StartGame,
    /// Picking to Clue.
    Pick { clue: ClueHandle },
    /// Waging to Clue: the contestant bets some points.
    SetWage { points: Points },
    /// Clue to Buzzing, or to Buzzed for an exclusive clue.
    ClueFullyShown,
    /// A contestant buzzes in: Buzzing to Buzzed. In Connecting and Score it
    /// toggles the contestant's indicator.
    Buzz { contestant: ContestantHandle },
    /// Buzzed to Resolution, awarding the clue's points.
    AcceptAnswer,
    /// Buzzed back to Buzzing, deducting the clue's points.
    RejectAnswer,
    /// Show the moderator's hint in Resolution.
    RevealHint,
    /// Finish the clue: to Resolution, and from Resolution to Picking or Score.
    FinishClue,
    /// Add points to a contestant's score, in any phase.
    AwardPoints { contestant: ContestantHandle, points: Points },
    /// Take points from a contestant's score, in any phase.
    RevokePoints { contestant: ContestantHandle, points: Points },
}

impl Clone for Event {
    fn clone(&self) -> (r: Self)
        ensures
            r.view_eq(*self),
    {
        match self {
            Event::Settings => Event::Settings,
            Event::LoadBoard(b) => Event::LoadBoard(b.clone()),
            Event::OpenLobby => Event::OpenLobby,
            Event::ConnectContestant { name_hint } => Event::ConnectContestant { name_hint: name_hint.clone() },
            Event::DisconnectContestant { contestant } => Event::DisconnectContestant { contestant: *contestant },
            Event::ReconnectContestant { contestant } => Event::ReconnectContestant { contestant: *contestant },
            Event::NameContestant { index, name } => Event::NameContestant { index: *index, name: name.clone() },
            Event::StartGame => Event::StartGame,
            Event::Pick { clue } => Event::Pick { clue: *clue },
            Event::SetWage { points } => Event::SetWage { points: *points },
            Event::ClueFullyShown => Event::ClueFullyShown,
            Event::Buzz { contestant } => Event::Buzz { contestant: *contestant },
            Event::AcceptAnswer => Event::AcceptAnswer,
            Event::RejectAnswer => Event::RejectAnswer,
            Event::RevealHint => Event::RevealHint,
            Event::FinishClue => Event::FinishClue,
            Event::AwardPoints { contestant, points } => Event::AwardPoints { contestant: *contestant, points: *points },
            Event::RevokePoints { contestant, points } => Event::RevokePoints { contestant: *contestant, points: *points },
        }
    }
}

impl Event {
    /// Two commands are the same command: equal, up to how their board is stored.
    pub open spec fn view_eq(self, other: Event) -> bool {
        match (self, other) {
            (Event::LoadBoard(a), Event::LoadBoard(b)) => a@ == b@,
            (Event::LoadBoard(_), _) => false,
            _ => self == other,
        }
    }
}

} // verus!
