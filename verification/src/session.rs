//! What the game loop reports to the interface about the game process:
//! each change between "working" and "not started" is reported once.
use vstd::prelude::*;

verus! {

/// Whether the game is attached and running.
#[derive(Debug, Clone, Copy, PartialEq, Eq, Structural)]
pub enum GameStatus {
    Working,
    NotStarted,
}

/// The status last reported to the interface.
#[derive(Debug, Clone, Copy, PartialEq, Eq, Structural)]
pub struct StatusReporter {
    pub reported: GameStatus,
}

/// The report owed when the game is observed in state `observed` after
/// `reported` was last reported: none when nothing changed.
pub open spec fn report_for(reported: GameStatus, observed: GameStatus) -> Option<GameStatus> {
    if reported == observed {
        None
    } else {
        Some(observed)
    }
}

impl StatusReporter {
    /// The loop starts by reporting that the game has not started; this is
    /// the reporter after that first report.
    pub fn new() -> (reporter: Self)
        ensures
            reporter.reported == GameStatus::NotStarted,
    {
        StatusReporter { reported: GameStatus::NotStarted }
    }

    /// Records that the game was observed in state `observed`; returns the
    /// status to send to the interface, if it changed.
    pub fn observe(&mut self, observed: GameStatus) -> (report: Option<GameStatus>)
        ensures
            report == report_for(old(self).reported, observed),
            final(self).reported == observed,
    {
        if self.reported == observed {
            None
        } else {
            self.reported = observed;
            Some(observed)
        }
    }
}

/// Reports never repeat: whatever is observed, a report differs from the
/// status reported before it, and observing the same state again right
/// after reports nothing.
pub proof fn law_reports_only_changes(reported: GameStatus, observed: GameStatus)
    ensures
        report_for(reported, observed) matches Some(sent) ==> sent != reported && sent == observed,
        report_for(observed, observed) is None,
{
}

} // verus!
