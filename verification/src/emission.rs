//! The emission orchestrator: start a tone, hold it for the requested
//! duration, stop it — and the fallback policy applied when the device
//! refuses the start.

use vstd::prelude::*;
use crate::tone::Beep;
use crate::tone::spec_divisor;

verus! {

/// One emission attempt: a tone frequency in hertz, where `0` is the
/// sentinel for silence and never a playable tone, and the time to hold the
/// tone in milliseconds, where `0` degenerates to an immediate stop.
#[derive(Clone, Copy, Debug, PartialEq, Eq, Structural)]
pub struct EmissionRequest {
    pub frequency_hz: u32,
    pub duration_ms: u32,
}

/// The result of one emission attempt. Emission is a single synchronous
/// attempt: there is no retry state and no partial progress.
#[derive(Clone, Copy, Debug, PartialEq, Eq, Structural)]
pub enum EmissionOutcome {
    Succeeded,
    Failed,
}

/// A timer that can suspend the caller. Nothing is promised about real
/// elapsed time; what every implementation must do is record the requested
/// interval, so that contracts can say when and for how long the
/// orchestrator asked to wait.
pub trait Pause {
    /// The intervals waited so far, in milliseconds, oldest first. An
    /// implementation outside the verified world need not give this any
    /// meaning; the default stands for "nothing recorded".
    open spec fn waits(&self) -> Seq<u32> {
        Seq::empty()
    }

    /// Suspends the caller for `ms` milliseconds.
    fn pause(&mut self, ms: u32)
        ensures
            final(self).waits() == old(self).waits().push(ms),
    ;
}

/// An in-memory timer for tests: it records each requested interval and
/// returns at once.
pub struct FakePause {
    /// Intervals requested, oldest first.
    pub slept: Vec<u32>,
}

impl Pause for FakePause {
    open spec fn waits(&self) -> Seq<u32> {
        self.slept@
    }

    fn pause(&mut self, ms: u32) {
        self.slept.push(ms);
    }
}

/// Stops any active tone: a stop is the start of silence, so this sends
/// divisor `0` and hands the device's answer on unchanged.
pub fn stop<B: Beep>(device: &mut B) -> (ok: bool)
    ensures
        final(device).calls() == old(device).calls().push(0u32),
        final(device).oks() == old(device).oks().push(ok),
{
    device.beep(0)
}

/// Performs one emission attempt: start the tone, wait for the requested
/// duration, stop the tone.
///
/// The contract ties the outcome to the device's reply and pins the exact
/// traffic for each. Emission succeeds exactly when the device accepted
/// the start command (the reply recorded right after the old ones). If it
/// refused, the device saw the start and nothing else — no wait and no
/// stop, since nothing was started. If it accepted, the device saw the
/// start followed by exactly one stop, whatever the stop's own answer
/// (stopping is best-effort cleanup and its result is deliberately
/// dropped), and the timer was asked to wait exactly once, for the
/// requested duration, between the two.
pub fn emit<B: Beep, P: Pause>(device: &mut B, timer: &mut P, request: &EmissionRequest) -> (outcome:
    EmissionOutcome)
    ensures
        outcome == EmissionOutcome::Succeeded <==> final(device).oks()[old(device).oks().len() as int],
        outcome == EmissionOutcome::Failed ==> final(device).calls() == old(device).calls().push(
            spec_divisor(request.frequency_hz),
        ) && final(device).oks() == old(device).oks().push(false) && final(timer).waits() == old(
            timer,
        ).waits(),
        outcome == EmissionOutcome::Succeeded ==> final(device).calls() == old(
            device,
        ).calls().push(spec_divisor(request.frequency_hz)).push(0u32) && final(device).oks().len()
            == old(device).oks().len() + 2 && final(device).oks().subrange(
            0,
            old(device).oks().len() as int,
        ) == old(device).oks() && final(timer).waits() == old(timer).waits().push(
            request.duration_ms,
        ),
{
    if !device.beep(request.frequency_hz) {
        return EmissionOutcome::Failed;
    }
    timer.pause(request.duration_ms);
    stop(device);
    proof {
        assert(final(device).oks().subrange(0, old(device).oks().len() as int) =~= old(
            device,
        ).oks());
    }
    EmissionOutcome::Succeeded
}

/// The single ASCII control byte that most terminals render as an audible
/// alert.
pub const BELL: u8 = 7;

/// What the caller of `emit` is to do next: whether to print a diagnostic
/// notice, and whether to write the bell byte as the degraded substitute
/// for the tone.
#[derive(Clone, Copy, Debug, PartialEq, Eq, Structural)]
pub struct FallbackPlan {
    pub notice: bool,
    pub bell: bool,
}

/// The fallback policy around `emit`: exactly when the attempt failed, the
/// bell byte is written once in its stead, and when failure is to be
/// reported verbosely, a diagnostic notice precedes it. A successful
/// emission triggers neither.
pub fn plan_fallback(outcome: EmissionOutcome, verbose: bool) -> (plan: FallbackPlan)
    ensures
        plan.bell == (outcome == EmissionOutcome::Failed),
        plan.notice == (outcome == EmissionOutcome::Failed && verbose),
{
    FallbackPlan { notice: outcome == EmissionOutcome::Failed && verbose, bell: outcome == EmissionOutcome::Failed }
}

} // verus!
