use morse_rx::decoder::MorseDecoder;

fn text(v: &[char]) -> String {
    v.iter().collect()
}

#[test]
fn debounce_schedule_decodes_a() {
    // tone 100ms, silence 100ms, tone 300ms, silence 700ms, dot_duration = 100:
    // dot, element gap, dash, end of character -> "A"
    let mut d = MorseDecoder::new(100);
    d.signal_event(100, true);
    assert_eq!(d.symbol, vec![false]);
    d.signal_event(100, false);
    assert_eq!(d.symbol, vec![false]);
    d.signal_event(300, true);
    assert_eq!(d.symbol, vec![false, true]);
    d.signal_event(700, false);
    assert!(d.symbol.is_empty());
    assert_eq!(text(&d.message), "A");
    d.signal_event_end(false);
    d.signal_event_end(true);
    assert_eq!(text(&d.normalized_message()), "A");
}

#[test]
fn sos_with_word_gap() {
    let mut d = MorseDecoder::new(100);
    // S: three dots
    for _ in 0..3 {
        d.signal_event(100, true);
        d.signal_event(100, false);
    }
    d.signal_event(300, false);
    assert_eq!(text(&d.message), "S");
    // O: three dashes
    for _ in 0..3 {
        d.signal_event(300, true);
        d.signal_event(100, false);
    }
    d.signal_event(300, false);
    assert_eq!(text(&d.message), "SO");
    // S again, then a word gap
    for _ in 0..3 {
        d.signal_event(100, true);
        d.signal_event(100, false);
    }
    d.signal_event(800, false);
    assert_eq!(text(&d.message), "SOS ");
    // finalize trims the trailing word gap
    d.signal_event_end(false);
    d.signal_event_end(true);
    assert_eq!(text(&d.message), "SOS");
}

#[test]
fn finalize_twice_is_order_independent() {
    // a pending dot: closing then flushing ...
    let mut a = MorseDecoder::new(100);
    a.signal_event(100, true);
    a.signal_event_end(false);
    a.signal_event_end(true);
    // ... equals flushing then closing
    let mut b = MorseDecoder::new(100);
    b.signal_event(100, true);
    b.signal_event_end(true);
    b.signal_event_end(false);
    assert_eq!(a.message, b.message);
    assert_eq!(text(&a.message), "E");
}

#[test]
fn flush_is_idempotent_on_finalized_input() {
    let mut d = MorseDecoder::new(100);
    d.signal_event(100, true);
    d.signal_event(300, false);
    d.signal_event(800, false);
    d.signal_event_end(true);
    let once = d.message.clone();
    d.signal_event_end(true);
    assert_eq!(d.message, once);
}

#[test]
fn single_end_call_does_not_trim_word_gap() {
    // closing without flush keeps the trailing space a word gap produced
    let mut d = MorseDecoder::new(100);
    d.signal_event(100, true);
    d.signal_event(800, false);
    assert_eq!(text(&d.message), "E ");
    d.signal_event_end(false);
    assert_eq!(text(&d.message), "E ");
    d.signal_event_end(true);
    assert_eq!(text(&d.message), "E");
}

#[test]
fn digits_decode() {
    let mut d = MorseDecoder::new(100);
    // 5: five dots
    for _ in 0..5 {
        d.signal_event(100, true);
        d.signal_event(100, false);
    }
    d.signal_event(300, false);
    // 0: five dashes
    for _ in 0..5 {
        d.signal_event(300, true);
        d.signal_event(100, false);
    }
    d.signal_event(300, false);
    assert_eq!(text(&d.message), "50");
}

#[test]
fn unknown_pattern_decodes_to_question_mark() {
    let mut d = MorseDecoder::new(100);
    for _ in 0..7 {
        d.signal_event(100, true);
        d.signal_event(100, false);
    }
    d.signal_event(300, false);
    assert_eq!(text(&d.message), "?");
}

#[test]
fn dash_boundary_is_twice_the_dot() {
    let mut d = MorseDecoder::new(100);
    d.signal_event(199, true);
    d.signal_event(300, false);
    assert_eq!(text(&d.message), "E");
    d.signal_event(200, true);
    d.signal_event(300, false);
    assert_eq!(text(&d.message), "ET");
}

#[test]
fn clear_message_empties_the_buffer() {
    let mut d = MorseDecoder::new(100);
    d.signal_event(100, true);
    d.signal_event(300, false);
    assert_eq!(text(&d.message), "E");
    d.clear_message();
    assert!(d.message.is_empty());
}
