use morse_rx::detector::{level_of, peak_level, ToneDetector};

#[test]
fn level_maps_full_scale_to_thirty() {
    assert_eq!(level_of(32768), 30);
    assert_eq!(level_of(0), 0);
    assert_eq!(level_of(16384), 15);
}

#[test]
fn level_rounds_to_the_nearest_integer() {
    // peak * 30 / 32768 = 0.49987 rounds down, 0.50079 rounds up
    assert_eq!(level_of(546), 0);
    assert_eq!(level_of(547), 1);
    // 1.5004 rounds up to 2
    assert_eq!(level_of(1639), 2);
}

#[test]
fn level_is_clamped_at_the_maximum() {
    assert_eq!(level_of(2147483648), 39);
    assert_eq!(level_of(65536), 39);
    assert_eq!(level_of(43690), 39);
}

#[test]
fn peak_is_the_largest_magnitude() {
    assert_eq!(peak_level(&vec![3, -7, 5]), 7);
    assert_eq!(peak_level(&vec![]), 0);
    assert_eq!(peak_level(&vec![0, 0]), 0);
}

#[test]
fn transitions_emit_the_previous_interval() {
    let mut d = ToneDetector::new(10, 100, 0);
    let ev = d.on_frame(20, 50);
    let e = ev.change.expect("tone appeared");
    assert_eq!(e.duration_ms, 50);
    assert!(!e.was_tone);
    assert!(!ev.idle);
    assert!(d.tone_present);
    assert_eq!(d.last_change_ms, 50);

    // no transition, no event
    let ev = d.on_frame(25, 100);
    assert!(ev.change.is_none());
    assert!(!ev.idle);
    assert_eq!(d.last_change_ms, 50);

    let ev = d.on_frame(0, 150);
    let e = ev.change.expect("tone vanished");
    assert_eq!(e.duration_ms, 100);
    assert!(e.was_tone);
}

#[test]
fn idle_timeout_fires_after_twenty_dots_of_silence() {
    let mut d = ToneDetector::new(10, 100, 0);
    let ev = d.on_frame(0, 2000);
    assert!(!ev.idle, "exactly the timeout does not fire");
    let ev = d.on_frame(0, 4001);
    assert!(ev.idle);
    assert_eq!(d.last_change_ms, 4001);
}

#[test]
fn change_and_idle_are_independent_triggers() {
    // a tone that stops being detected only after a long gap yields the
    // signal-change event and the idle timeout in the same frame
    let mut d = ToneDetector::new(10, 100, 0);
    d.on_frame(20, 10);
    let ev = d.on_frame(0, 2600);
    let e = ev.change.expect("tone vanished");
    assert_eq!(e.duration_ms, 2590);
    assert!(e.was_tone);
    assert!(ev.idle);
}

#[test]
fn tone_while_idle_suppresses_the_timeout() {
    let mut d = ToneDetector::new(10, 100, 0);
    let ev = d.on_frame(20, 2600);
    assert!(ev.change.is_some());
    assert!(!ev.idle, "a present tone never idles");
}
