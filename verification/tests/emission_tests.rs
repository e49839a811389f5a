use beep::emission::{emit, plan_fallback, stop, EmissionOutcome, EmissionRequest, FakePause, BELL};
use beep::tone::{divisor, Beep, FakeBeep, CLOCK_TICK_RATE};

fn device(replies: &[bool]) -> FakeBeep {
    FakeBeep { sent: Vec::new(), replies: replies.to_vec(), answered: Vec::new() }
}

fn timer() -> FakePause {
    FakePause { slept: Vec::new() }
}

#[test]
fn divisor_of_concert_pitch() {
    assert_eq!(divisor(440), 2711);
}

#[test]
fn divisor_of_zero_is_silence() {
    assert_eq!(divisor(0), 0);
}

#[test]
fn divisor_rounds_down() {
    assert_eq!(divisor(1000), 1193);
    assert_eq!(divisor(1193180), 1);
    assert_eq!(divisor(3000000), 0);
    assert_eq!(CLOCK_TICK_RATE, 1193180);
}

#[test]
fn emit_success_sends_start_wait_stop() {
    let mut dev = device(&[]);
    let mut t = timer();
    let req = EmissionRequest { frequency_hz: 440, duration_ms: 1000 };
    let outcome = emit(&mut dev, &mut t, &req);
    assert_eq!(outcome, EmissionOutcome::Succeeded);
    assert_eq!(dev.sent, vec![2711, 0]);
    assert_eq!(t.slept, vec![1000]);
}

#[test]
fn emit_silence_request_is_a_legal_no_op() {
    let mut dev = device(&[]);
    let mut t = timer();
    let req = EmissionRequest { frequency_hz: 0, duration_ms: 500 };
    let outcome = emit(&mut dev, &mut t, &req);
    assert_eq!(outcome, EmissionOutcome::Succeeded);
    assert_eq!(dev.sent, vec![0, 0]);
    assert_eq!(t.slept, vec![500]);
}

#[test]
fn emit_failed_start_makes_no_stop_and_no_wait() {
    let mut dev = device(&[false]);
    let mut t = timer();
    let req = EmissionRequest { frequency_hz: 440, duration_ms: 1000 };
    let outcome = emit(&mut dev, &mut t, &req);
    assert_eq!(outcome, EmissionOutcome::Failed);
    assert_eq!(dev.sent, vec![2711]);
    assert_eq!(dev.answered, vec![false]);
    assert!(t.slept.is_empty());
}

#[test]
fn emit_ignores_the_stop_result() {
    let mut dev = device(&[true, false]);
    let mut t = timer();
    let req = EmissionRequest { frequency_hz: 440, duration_ms: 1000 };
    let outcome = emit(&mut dev, &mut t, &req);
    assert_eq!(outcome, EmissionOutcome::Succeeded);
    assert_eq!(dev.sent, vec![2711, 0]);
    assert_eq!(dev.answered, vec![true, false]);
    assert_eq!(t.slept, vec![1000]);
}

#[test]
fn emit_zero_duration_stops_at_once() {
    let mut dev = device(&[]);
    let mut t = timer();
    let req = EmissionRequest { frequency_hz: 440, duration_ms: 0 };
    let outcome = emit(&mut dev, &mut t, &req);
    assert_eq!(outcome, EmissionOutcome::Succeeded);
    assert_eq!(dev.sent, vec![2711, 0]);
    assert_eq!(t.slept, vec![0]);
}

#[test]
fn stop_fares_the_same_idle_or_sounding() {
    // no tone active: two stops in a row are both accepted
    let mut idle = device(&[]);
    assert!(stop(&mut idle));
    assert!(stop(&mut idle));
    assert_eq!(idle.sent, vec![0, 0]);

    // a tone active: the stop is the very same command with the same reply
    let mut sounding = device(&[]);
    sounding.beep(440);
    assert!(stop(&mut sounding));
    assert_eq!(sounding.sent, vec![2711, 0]);
}

#[test]
fn fallback_fires_only_on_failure() {
    let quiet = plan_fallback(EmissionOutcome::Failed, false);
    assert!(quiet.bell);
    assert!(!quiet.notice);

    let verbose = plan_fallback(EmissionOutcome::Failed, true);
    assert!(verbose.bell);
    assert!(verbose.notice);

    let ok = plan_fallback(EmissionOutcome::Succeeded, true);
    assert!(!ok.bell);
    assert!(!ok.notice);

    assert_eq!(BELL, 0x07);
}
