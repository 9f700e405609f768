//! Native session decisions: when a running PTY session is stopped, what of
//! its output is kept, and how its end is reported.
//!
//! The program around the library runs three threads for a session: a reader
//! that drains the PTY into an [`OutputMeter`], a watchdog that asks
//! [`watchdog_step`] what to do, and one that forwards keystrokes. Whoever
//! kills the child records why, and [`conclude`] turns that into the result.

use vstd::prelude::*;
use crate::capability::ResourceLimits;
use crate::native::{NativeError, NativeFault, NativeOutput};

verus! {

/// How a session ended, distinguishing a normal exit from a policy stop.
#[derive(Clone, Copy, Debug, PartialEq, Eq, Structural)]
pub enum NativeStop {
    /// The child exited on its own.
    Exited,
    /// The session was cancelled before the child completed.
    Cancelled,
    /// The wall-clock deadline passed and the child was killed.
    TimedOut,
    /// The combined output budget was exceeded and the child was killed.
    OutputLimit,
}

/// What the watchdog does next.
#[derive(Clone, Copy, Debug, PartialEq, Eq, Structural)]
pub enum WatchdogStep {
    /// The session is over: stop watching.
    Leave,
    /// Kill the child for this reason, and stop watching.
    Kill(NativeStop),
    /// Look again in a moment.
    Wait,
}

/// The time at which a session that starts now has to be over, in
/// milliseconds of the clock that `now` was read from.
pub fn deadline(now: u64, limits: &ResourceLimits) -> (r: u64)
    requires
        now + limits.seconds_bound() * 1000 <= u64::MAX,
    ensures
        r == now + limits.seconds_bound() * 1000,
{
    now + limits.timeout_seconds() * 1000
}

/// Decide what the watchdog does: a session that is over is left alone,
/// cancellation comes before the deadline.
pub fn watchdog_step(over: bool, cancelled: bool, now: u64, deadline: u64) -> (r: WatchdogStep)
    ensures
        r == if over {
            WatchdogStep::Leave
        } else if cancelled {
            WatchdogStep::Kill(NativeStop::Cancelled)
        } else if now >= deadline {
            WatchdogStep::Kill(NativeStop::TimedOut)
        } else {
            WatchdogStep::Wait
        },
{
    if over {
        WatchdogStep::Leave
    } else if cancelled {
        WatchdogStep::Kill(NativeStop::Cancelled)
    } else if now >= deadline {
        WatchdogStep::Kill(NativeStop::TimedOut)
    } else {
        WatchdogStep::Wait
    }
}

/// What the reader does with a chunk of output.
#[derive(Clone, Copy, Debug, PartialEq, Eq, Structural)]
pub struct ReaderStep {
    /// Forward the chunk as an output event.
    pub emit: bool,
    /// Kill the child because of its output.
    pub kill: bool,
}

/// The output of a session after a chunk. A session that is over takes nothing
/// more.
pub open spec fn with_chunk(output: Seq<u8>, chunk: Seq<u8>, over: bool) -> Seq<u8> {
    if over {
        output
    } else {
        output + chunk
    }
}

/// Whether a chunk is the one that exceeds the budget.
pub open spec fn exceeds(output: Seq<u8>, chunk: Seq<u8>, over: bool, budget: usize) -> bool {
    !over && output.len() <= budget && output.len() + chunk.len() > budget
}

/// The output of a session after some chunks, each with whether the session was
/// over when it came, and whether some chunk had the child killed.
pub open spec fn metered(chunks: Seq<(Seq<u8>, bool)>, budget: usize) -> (Seq<u8>, bool)
    decreases chunks.len(),
{
    if chunks.len() == 0 {
        (Seq::empty(), false)
    } else {
        let (output, killed) = metered(chunks.drop_last(), budget);
        let (chunk, over) = chunks.last();
        (with_chunk(output, chunk, over), killed || exceeds(output, chunk, over, budget))
    }
}

/// The output of a session, measured against its budget.
#[derive(Debug)]
pub struct OutputMeter {
    captured: Vec<u8>,
    budget: usize,
}

impl OutputMeter {
    /// What has been captured.
    pub closed spec fn output(&self) -> Seq<u8> {
        self.captured@
    }

    /// The most bytes that are allowed.
    pub closed spec fn bound(&self) -> usize {
        self.budget
    }

    /// A meter without output.
    pub fn new(limits: &ResourceLimits) -> (r: Self)
        ensures
            r.output() == Seq::<u8>::empty(),
            r.bound() == limits.output_bound(),
    {
        OutputMeter { captured: Vec::new(), budget: limits.max_output_bytes() }
    }

    /// Take a chunk. A session that is over takes nothing more. The child is
    /// killed by the first chunk that exceeds the budget, and only by that.
    pub fn accept(&mut self, chunk: &Vec<u8>, over: bool) -> (r: ReaderStep)
        ensures
            final(self).bound() == old(self).bound(),
            final(self).output() == with_chunk(old(self).output(), chunk@, over),
            r.emit == !over,
            r.kill == exceeds(old(self).output(), chunk@, over, old(self).bound()),
    {
        if over {
            return ReaderStep { emit: false, kill: false };
        }
        let was_exceeded = self.captured.len() > self.budget;
        self.captured.extend_from_slice(chunk.as_slice());
        let exceeded = self.captured.len() > self.budget;
        ReaderStep { emit: true, kill: exceeded && !was_exceeded }
    }

    /// Everything that was captured.
    pub fn into_output(self) -> (r: Vec<u8>)
        ensures
            r@ == self.output(),
    {
        self.captured
    }
}

/// The fault of a session whose child was killed for a reason, if it was.
pub open spec fn stop_fault(reason: Option<NativeStop>) -> Option<NativeFault> {
    match reason {
        None | Some(NativeStop::Exited) => None,
        Some(NativeStop::Cancelled) => Some(NativeFault::Cancelled),
        Some(NativeStop::TimedOut) => Some(NativeFault::Timeout),
        Some(NativeStop::OutputLimit) => Some(NativeFault::OutputLimit),
    }
}

/// The output of a session that succeeds is within its budget: where no reason
/// to stop was recorded, no chunk had the child killed, and then all that was
/// captured fits.
pub proof fn successful_output_is_within_budget(
    chunks: Seq<(Seq<u8>, bool)>,
    budget: usize,
    reason: Option<NativeStop>,
)
    requires
        metered(chunks, budget).1 ==> stop_fault(reason) is Some,
        stop_fault(reason) is None,
    ensures
        metered(chunks, budget).0.len() <= budget,
    decreases chunks.len(),
{
    if chunks.len() > 0 {
        successful_output_is_within_budget(chunks.drop_last(), budget, reason);
    }
}

/// The result of a session: its output where the child exited on its own, else
/// the reason it was killed for.
pub fn conclude(reason: Option<NativeStop>, output: Vec<u8>, exit_code: u32) -> (r: Result<
    NativeOutput,
    NativeError,
>)
    ensures
        match stop_fault(reason) {
            None => {
                &&& r is Ok
                &&& r->Ok_0.stdout@ == output@
                &&& r->Ok_0.stderr@.len() == 0
                &&& r->Ok_0.exit_code == exit_code
            },
            Some(fault) => r is Err && r->Err_0@ == fault,
        },
{
    match reason {
        None | Some(NativeStop::Exited) => Ok(
            NativeOutput { stdout: output, stderr: Vec::new(), exit_code },
        ),
        Some(NativeStop::Cancelled) => Err(NativeError::Cancelled),
        Some(NativeStop::TimedOut) => Err(NativeError::Timeout),
        Some(NativeStop::OutputLimit) => Err(NativeError::OutputLimit),
    }
}

impl OutputMeter {
    /// The result of a session whose output was measured: what was captured
    /// where the child exited on its own and stayed within the budget, else the
    /// reason it was killed for, or that the budget was exceeded.
    pub fn conclude(self, reason: Option<NativeStop>, exit_code: u32) -> (r: Result<
        NativeOutput,
        NativeError,
    >)
        ensures
            match stop_fault(reason) {
                Some(fault) => r is Err && r->Err_0@ == fault,
                None => if self.output().len() > self.bound() {
                    r is Err && r->Err_0@ == NativeFault::OutputLimit
                } else {
                    &&& r is Ok
                    &&& r->Ok_0.stdout@ == self.output()
                    &&& r->Ok_0.stderr@.len() == 0
                    &&& r->Ok_0.exit_code == exit_code
                },
            },
            r is Ok ==> r->Ok_0.stdout@ == self.output() && self.output().len() <= self.bound(),
    {
        let reason = match reason {
            None | Some(NativeStop::Exited) => if self.captured.len() > self.budget {
                Some(NativeStop::OutputLimit)
            } else {
                None
            },
            _ => reason,
        };
        conclude(reason, self.captured, exit_code)
    }
}

} // verus!
