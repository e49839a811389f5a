//! The tone device boundary: frequency-to-divisor conversion and the
//! capability trait through which start/stop commands reach a sound generator.

use vstd::prelude::*;

verus! {

/// Fixed rate of the hardware timer that clocks the sound generator, in hertz.
/// A requested frequency is encoded as the divisor of this rate.
pub const CLOCK_TICK_RATE: u32 = 1193180;

/// The divisor sent to the sound generator for a requested frequency:
/// `0` encodes silence (a stop), any other frequency is encoded as
/// `CLOCK_TICK_RATE / freq`, rounded down.
pub open spec fn spec_divisor(freq: u32) -> u32 {
    if freq == 0 {
        0u32
    } else {
        (CLOCK_TICK_RATE as int / freq as int) as u32
    }
}

/// Converts a requested frequency in hertz to the divisor understood by the
/// sound generator. A frequency of `0` is the sentinel for silence and maps
/// to divisor `0`; every other frequency maps to the rounded-down quotient.
pub fn divisor(freq: u32) -> (d: u32)
    ensures
        d == spec_divisor(freq),
        freq == 0 ==> d == 0,
        freq > 0 ==> d == CLOCK_TICK_RATE as int / freq as int,
{
    if freq == 0 {
        0
    } else {
        CLOCK_TICK_RATE / freq
    }
}

/// A sound generator that accepts one command: start the tone for a
/// frequency (`0` meaning stop). An implementation reports by its result
/// whether the device accepted the command; whether a real device accepts
/// is not promised, since it may be absent or refuse for lack of
/// privilege. What every implementation must do is send the divisor
/// encoding of the requested frequency and hand its answer back
/// faithfully: the divisors sent are recorded in `calls`, the answers
/// given in `oks`, so that a caller's contract can tie what it did to
/// what the device replied.
pub trait Beep {
    /// The divisors sent to the device so far, oldest first. An
    /// implementation outside the verified world need not give this any
    /// meaning; the default stands for "nothing recorded".
    open spec fn calls(&self) -> Seq<u32> {
        Seq::empty()
    }

    /// The device's answers so far, oldest first: one per command,
    /// `true` where the device accepted it. The default stands for
    /// "nothing recorded", as with `calls`.
    open spec fn oks(&self) -> Seq<bool> {
        Seq::empty()
    }

    /// Requests the tone for `freq` hertz (`0` requests silence) and reports
    /// whether the device accepted the command.
    fn beep(&mut self, freq: u32) -> (ok: bool)
        ensures
            final(self).calls() == old(self).calls().push(spec_divisor(freq)),
            final(self).oks() == old(self).oks().push(ok),
    ;
}

/// An in-memory sound generator for tests: it records every divisor it is
/// handed and answers each command from a script of replies, so that device
/// failure can be injected without a console.
pub struct FakeBeep {
    /// Divisors received, oldest first.
    pub sent: Vec<u32>,
    /// Scripted replies, consumed front first; once exhausted, every further
    /// command is accepted.
    pub replies: Vec<bool>,
    /// Replies given out so far, oldest first.
    pub answered: Vec<bool>,
}

/// The reply the scripted device gives to its next command.
pub open spec fn next_reply(device: FakeBeep) -> bool {
    if device.replies@.len() == 0 {
        true
    } else {
        device.replies@[0]
    }
}

impl Beep for FakeBeep {
    open spec fn calls(&self) -> Seq<u32> {
        self.sent@
    }

    open spec fn oks(&self) -> Seq<bool> {
        self.answered@
    }

    fn beep(&mut self, freq: u32) -> (ok: bool)
        ensures
            final(self).sent@ == old(self).sent@.push(spec_divisor(freq)),
            ok == next_reply(*old(self)),
            final(self).answered@ == old(self).answered@.push(ok),
            final(self).replies@ == if old(self).replies@.len() == 0 {
                old(self).replies@
            } else {
                old(self).replies@.drop_first()
            },
    {
        let d = divisor(freq);
        self.sent.push(d);
        let ok = if self.replies.len() > 0 {
            self.replies.remove(0)
        } else {
            true
        };
        self.answered.push(ok);
        ok
    }
}

/// A stop is nothing but the silence encoding: whatever was sent before —
/// a live tone or nothing at all — a stop request sends divisor `0`, and the
/// scripted device's reply is fixed by its script alone. Stopping an idle
/// generator therefore fares exactly as stopping a sounding one.
pub proof fn lemma_stop_state_independent(active: FakeBeep, idle: FakeBeep)
    requires
        active.replies@ == idle.replies@,
    ensures
        spec_divisor(0) == 0,
        next_reply(active) == next_reply(idle),
{
}

} // verus!
