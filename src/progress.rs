//! Progress reporting: a phase state machine that only moves forward, with
//! completed/total counters and a message at each report.

use vstd::prelude::*;

verus! {

/// A stage of the ingestion pipeline.
#[derive(Clone, Copy, Debug, PartialEq, Eq, Structural)]
pub enum Phase {
    Starting,
    Discovering,
    Preprocessing,
    Parsing,
    Inserting,
    Completed,
}

/// The position of a phase in the pipeline's order.
pub open spec fn phase_order(p: Phase) -> nat {
    match p {
        Phase::Starting => 0,
        Phase::Discovering => 1,
        Phase::Preprocessing => 2,
        Phase::Parsing => 3,
        Phase::Inserting => 4,
        Phase::Completed => 5,
    }
}

/// The name of a phase as it is passed to a progress callback.
pub open spec fn phase_name_spec(p: Phase) -> Seq<char> {
    match p {
        Phase::Starting => "starting"@,
        Phase::Discovering => "discovering"@,
        Phase::Preprocessing => "preprocessing"@,
        Phase::Parsing => "parsing"@,
        Phase::Inserting => "inserting"@,
        Phase::Completed => "completed"@,
    }
}

/// The label of a phase as it is shown to a user.
pub open spec fn phase_label_spec(p: Phase) -> Seq<char> {
    match p {
        Phase::Starting => "Starting"@,
        Phase::Discovering => "Discovering"@,
        Phase::Preprocessing => "Preprocessing"@,
        Phase::Parsing => "Parsing"@,
        Phase::Inserting => "Saving"@,
        Phase::Completed => "Completed"@,
    }
}

impl Phase {
    /// The position of this phase in the pipeline's order.
    pub fn order(&self) -> (r: u8)
        ensures
            r == phase_order(*self),
    {
        match self {
            Phase::Starting => 0,
            Phase::Discovering => 1,
            Phase::Preprocessing => 2,
            Phase::Parsing => 3,
            Phase::Inserting => 4,
            Phase::Completed => 5,
        }
    }

    /// The name passed to a progress callback (`"starting"`, ...).
    pub fn name(&self) -> (r: String)
        ensures
            r@ == phase_name_spec(*self),
    {
        match self {
            Phase::Starting => "starting".to_owned(),
            Phase::Discovering => "discovering".to_owned(),
            Phase::Preprocessing => "preprocessing".to_owned(),
            Phase::Parsing => "parsing".to_owned(),
            Phase::Inserting => "inserting".to_owned(),
            Phase::Completed => "completed".to_owned(),
        }
    }

    /// The label shown to a user; inserting is shown as `"Saving"`.
    pub fn label(&self) -> (r: String)
        ensures
            r@ == phase_label_spec(*self),
    {
        match self {
            Phase::Starting => "Starting".to_owned(),
            Phase::Discovering => "Discovering".to_owned(),
            Phase::Preprocessing => "Preprocessing".to_owned(),
            Phase::Parsing => "Parsing".to_owned(),
            Phase::Inserting => "Saving".to_owned(),
            Phase::Completed => "Completed".to_owned(),
        }
    }
}

/// The percentage of `completed` out of `total`, rounded down; `None` when
/// the total is not known yet (zero).
pub open spec fn percent_spec(completed: u32, total: u32) -> Option<u64> {
    if total == 0 {
        None
    } else {
        Some(((completed as nat * 100) / total as nat) as u64)
    }
}

/// The percentage of `completed` out of `total`, rounded down, or `None`
/// when `total` is zero.
pub fn percent(completed: u32, total: u32) -> (r: Option<u64>)
    ensures
        r == percent_spec(completed, total),
{
    if total == 0 {
        None
    } else {
        let c: u64 = completed as u64;
        assert(c * 100 <= 0xffff_ffff * 100) by (nonlinear_arith)
            requires c <= 0xffff_ffff;
        Some((c * 100) / (total as u64))
    }
}

/// One report handed to a progress callback.
#[derive(Clone, Debug)]
pub struct ProgressUpdate {
    pub phase: Phase,
    pub completed: u32,
    pub total: u32,
    pub percent: Option<u64>,
    pub message: String,
}

/// Why a report was refused.
#[derive(Clone, Copy, Debug, PartialEq, Eq, Structural)]
pub enum ProgressError {
    /// The report names a phase before the current one.
    Backward,
}

/// The phase state machine of one pipeline run.
pub struct ProgressReporter {
    current: Option<Phase>,
}

impl ProgressReporter {
    /// The phase last reported, if any.
    pub closed spec fn phase(&self) -> Option<Phase> {
        self.current
    }

    /// A reporter before the first report.
    pub fn new() -> (r: ProgressReporter)
        ensures
            r.phase() is None,
    {
        ProgressReporter { current: None }
    }

    /// The phase last reported, if any.
    pub fn current_phase(&self) -> (r: Option<Phase>)
        ensures
            r == self.phase(),
    {
        self.current
    }

    /// Reports `(completed, total, message)` in `phase`. The phase may stay or
    /// move forward, never back: a report of an earlier phase is refused and
    /// changes nothing.
    pub fn report(&mut self, phase: Phase, completed: u32, total: u32, message: String) -> (r: Result<ProgressUpdate, ProgressError>)
        ensures
            (r is Ok) == (old(self).phase() is None || phase_order(old(self).phase()->0) <= phase_order(phase)),
            r is Ok ==> final(self).phase() == Some(phase),
            r is Ok ==> r->Ok_0.phase == phase && r->Ok_0.completed == completed && r->Ok_0.total == total
                && r->Ok_0.percent == percent_spec(completed, total) && r->Ok_0.message == message,
            r is Err ==> final(self).phase() == old(self).phase(),
    {
        match self.current {
            Some(p) => {
                if p.order() > phase.order() {
                    return Err(ProgressError::Backward);
                }
            },
            None => {},
        }
        self.current = Some(phase);
        Ok(ProgressUpdate { phase, completed, total, percent: percent(completed, total), message })
    }
}

} // verus!
