//! The decisions of the isolation monitor. The pipeline signals failure by
//! ending its unit of execution abruptly; the monitor runs each attempt in a
//! unit of its own and turns the way it ended into a typed outcome.
use vstd::prelude::*;

verus! {

/// Stack for the attempt when the pipeline was built with optimizations.
pub const STACK_SIZE_OPTIMIZED: usize = 6000000;

/// Stack for the attempt otherwise: an unoptimized pipeline needs more.
pub const STACK_SIZE_UNOPTIMIZED: usize = 20000000;

/// How one attempt ended.
#[derive(Clone, Copy, Debug, PartialEq, Eq, Structural)]
pub enum AttemptEnd {
    /// It returned normally.
    Returned,
    /// It stopped after a diagnostic it had already reported.
    FatalDiagnostic,
    /// It failed one of its own checks, and said so itself.
    ExplicitBug,
    /// It ended abruptly with nothing reported.
    UnexpectedPanic,
}

/// What an attempt comes to.
#[derive(Debug)]
pub enum IsolationOutcome {
    Success,
    /// The pipeline refused the unit and reported why.
    Rejected,
    /// The pipeline failed internally; holds what it wrote to its error stream.
    InternalFailure(String),
}

/// What the monitor does once an attempt has ended.
#[derive(Debug)]
pub struct MonitorReport {
    /// Emit the generic notice of an unexpected internal failure.
    pub notice: bool,
    /// Copy the captured error stream to the real one.
    pub flush: bool,
    pub outcome: IsolationOutcome,
}

/// The stack to ask for when starting an attempt: none when the operator
/// set one in the environment, else one deep enough for deeply nested input.
pub fn stack_size(operator_set: bool, optimized: bool) -> (r: Option<usize>)
    ensures
        operator_set ==> r == None::<usize>,
        !operator_set && optimized ==> r == Some(STACK_SIZE_OPTIMIZED),
        !operator_set && !optimized ==> r == Some(STACK_SIZE_UNOPTIMIZED),
{
    if operator_set {
        None
    } else if optimized {
        Some(STACK_SIZE_OPTIMIZED)
    } else {
        Some(STACK_SIZE_UNOPTIMIZED)
    }
}

/// Decides what to do after an attempt ended as `end`, with `captured` the
/// text it wrote to its error stream. A clean return is a success; a fatal
/// diagnostic was reported already and is a rejection; an explicit bug was
/// reported by the pipeline itself, so only its own text is shown; an
/// unexpected end gets the generic notice as well. Either internal failure
/// keeps the captured text.
pub fn monitor(end: AttemptEnd, captured: String) -> (r: MonitorReport)
    ensures
        r.notice == (end == AttemptEnd::UnexpectedPanic),
        r.flush == (end == AttemptEnd::UnexpectedPanic || end == AttemptEnd::ExplicitBug),
        end == AttemptEnd::Returned ==> r.outcome is Success,
        end == AttemptEnd::FatalDiagnostic ==> r.outcome is Rejected,
        (end == AttemptEnd::UnexpectedPanic || end == AttemptEnd::ExplicitBug) ==> (r.outcome is InternalFailure
            && r.outcome->InternalFailure_0 == captured),
{
    match end {
        AttemptEnd::Returned => MonitorReport {
            notice: false,
            flush: false,
            outcome: IsolationOutcome::Success,
        },
        AttemptEnd::FatalDiagnostic => MonitorReport {
            notice: false,
            flush: false,
            outcome: IsolationOutcome::Rejected,
        },
        AttemptEnd::ExplicitBug => MonitorReport {
            notice: false,
            flush: true,
            outcome: IsolationOutcome::InternalFailure(captured),
        },
        AttemptEnd::UnexpectedPanic => MonitorReport {
            notice: true,
            flush: true,
            outcome: IsolationOutcome::InternalFailure(captured),
        },
    }
}

/// Why an attempt did not succeed, as its caller must be able to tell.
#[derive(Clone, Copy, Debug, PartialEq, Eq, Structural)]
pub enum AttemptFailure {
    /// The unit was refused, and the reasons were reported.
    Rejected,
    /// The pipeline failed one of its own checks and reported it itself.
    InternalBug,
    /// The pipeline ended abruptly with nothing reported.
    InternalCrash,
}

/// The failure an attempt that ended as `end` comes to, if any.
pub open spec fn failure_of(end: AttemptEnd) -> Option<AttemptFailure> {
    match end {
        AttemptEnd::Returned => None,
        AttemptEnd::FatalDiagnostic => Some(AttemptFailure::Rejected),
        AttemptEnd::ExplicitBug => Some(AttemptFailure::InternalBug),
        AttemptEnd::UnexpectedPanic => Some(AttemptFailure::InternalCrash),
    }
}

/// The result the caller of an attempt sees: `Ok` exactly when the attempt
/// returned normally, else which of the three kinds of failure it was.
pub fn monitor_for_real(end: AttemptEnd) -> (r: Result<(), AttemptFailure>)
    ensures
        end == AttemptEnd::Returned ==> r == Ok::<(), AttemptFailure>(()),
        end == AttemptEnd::FatalDiagnostic ==> r == Err::<(), AttemptFailure>(
            AttemptFailure::Rejected,
        ),
        end == AttemptEnd::ExplicitBug ==> r == Err::<(), AttemptFailure>(
            AttemptFailure::InternalBug,
        ),
        end == AttemptEnd::UnexpectedPanic ==> r == Err::<(), AttemptFailure>(
            AttemptFailure::InternalCrash,
        ),
        r is Ok <==> failure_of(end) is None,
        r is Err ==> failure_of(end) == Some(r->Err_0),
{
    match end {
        AttemptEnd::Returned => Ok(()),
        AttemptEnd::FatalDiagnostic => Err(AttemptFailure::Rejected),
        AttemptEnd::ExplicitBug => Err(AttemptFailure::InternalBug),
        AttemptEnd::UnexpectedPanic => Err(AttemptFailure::InternalCrash),
    }
}

/// The generic notice shown for an unexpected internal failure.
pub fn internal_failure_notice() -> (r: String)
    ensures
        r@ == "the compiler hit an unexpected failure path. this is a bug."@,
{
    String::from_str("the compiler hit an unexpected failure path. this is a bug.")
}

} // verus!
