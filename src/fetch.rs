//! The order of the steps of an attendance fetch and what a failed step means.
use vstd::prelude::*;

verus! {

/// One step of fetching a device's attendance.
#[derive(Debug, Clone, Copy, PartialEq, Eq, Structural)]
pub enum FetchStep {
    /// Stop the device's own use of its data while it is read.
    DisableDevice,
    /// Read the device's names and versions.
    ReadInfo,
    /// Read the user, fingerprint and record counts.
    ReadSizes,
    /// Read the user directory.
    ReadUsers,
    /// Read the attendance log.
    ReadAttendance,
    /// Give the device back its own use of its data.
    EnableDevice,
    /// End the session.
    Exit,
}

/// How a step failed.
#[derive(Debug, Clone, Copy, PartialEq, Eq, Structural)]
pub enum FailureKind {
    /// The device answered, but refused the command.
    Refused,
    /// The session broke: a socket, framing or protocol error.
    Session,
}

/// What a failed step means for the fetch.
#[derive(Debug, Clone, Copy, PartialEq, Eq, Structural)]
pub enum OnFailure {
    /// Go on as if the step had succeeded.
    Ignore,
    /// Go on with zero counts.
    ZeroCounts,
    /// Go on with an empty user directory.
    NoUsers,
    /// Skip to the closing steps, then report the failure.
    Abort,
}

/// The steps in order.
pub open spec fn fetch_steps() -> Seq<FetchStep> {
    seq![
        FetchStep::DisableDevice,
        FetchStep::ReadInfo,
        FetchStep::ReadSizes,
        FetchStep::ReadUsers,
        FetchStep::ReadAttendance,
        FetchStep::EnableDevice,
        FetchStep::Exit,
    ]
}

/// The steps of a fetch, in order: the closing steps come last.
pub fn fetch_plan() -> (r: Vec<FetchStep>)
    ensures
        r@ == fetch_steps(),
{
    let r: Vec<FetchStep> = vec![
        FetchStep::DisableDevice,
        FetchStep::ReadInfo,
        FetchStep::ReadSizes,
        FetchStep::ReadUsers,
        FetchStep::ReadAttendance,
        FetchStep::EnableDevice,
        FetchStep::Exit,
    ];
    assert(r@ =~= fetch_steps());
    r
}

/// What a failure of `step` means. A failed closing step is ignored. A
/// session-level failure of any other step aborts the fetch, which still
/// closes the session. A refused command is not fatal: the device is read
/// anyway, with zero counts or an empty user directory where those were
/// refused; only a refused attendance read aborts.
pub fn on_failure(step: FetchStep, kind: FailureKind) -> (r: OnFailure)
    ensures
        step == FetchStep::EnableDevice || step == FetchStep::Exit ==> r == OnFailure::Ignore,
        step != FetchStep::EnableDevice && step != FetchStep::Exit && kind == FailureKind::Session
            ==> r == OnFailure::Abort,
        kind == FailureKind::Refused && step == FetchStep::ReadSizes ==> r == OnFailure::ZeroCounts,
        kind == FailureKind::Refused && step == FetchStep::ReadUsers ==> r == OnFailure::NoUsers,
        kind == FailureKind::Refused && step == FetchStep::ReadAttendance ==> r == OnFailure::Abort,
        kind == FailureKind::Refused && (step == FetchStep::DisableDevice || step == FetchStep::ReadInfo)
            ==> r == OnFailure::Ignore,
{
    match step {
        FetchStep::EnableDevice | FetchStep::Exit => OnFailure::Ignore,
        _ => match kind {
            FailureKind::Session => OnFailure::Abort,
            FailureKind::Refused => match step {
                FetchStep::ReadSizes => OnFailure::ZeroCounts,
                FetchStep::ReadUsers => OnFailure::NoUsers,
                FetchStep::ReadAttendance => OnFailure::Abort,
                _ => OnFailure::Ignore,
            },
        },
    }
}

/// Whether `step` runs once an earlier step has aborted the fetch: only the
/// closing steps do.
pub fn runs_after_abort(step: FetchStep) -> (r: bool)
    ensures
        r == (step == FetchStep::EnableDevice || step == FetchStep::Exit),
{
    match step {
        FetchStep::EnableDevice | FetchStep::Exit => true,
        _ => false,
    }
}

} // verus!
