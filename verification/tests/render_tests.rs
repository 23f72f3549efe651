use morse_rx::render::{wrapped_line_count, DisplayRenderer};

fn chars(s: &str) -> Vec<char> {
    s.chars().collect()
}

fn text(v: &[char]) -> String {
    v.iter().collect()
}

#[test]
fn accumulating_message_echoes_exactly_the_new_characters() {
    // "S", "SO", "SOS": the writes are exactly "S", "O", "S", and the
    // finalized text being identical causes no redraw
    let mut r = DisplayRenderer::new(Some(80));
    assert_eq!(text(&r.echo(&chars("S"))), "S");
    assert_eq!(text(&r.echo(&chars("SO"))), "O");
    assert_eq!(text(&r.echo(&chars("SOS"))), "S");
    let cmd = r.finalize(&chars("SOS"));
    assert!(cmd.is_none());
    assert_eq!(text(&r.last_printed), "SOS");
}

#[test]
fn finalize_redraws_only_when_text_differs() {
    let mut r = DisplayRenderer::new(Some(80));
    assert_eq!(text(&r.echo(&chars("SO"))), "SO");
    let cmd = r.finalize(&chars("SOS")).expect("differing text must redraw");
    assert_eq!(cmd.lines_to_clear, 1);
    assert_eq!(text(&cmd.text), "SOS");
    assert_eq!(text(&r.last_printed), "SOS");
}

#[test]
fn echo_of_non_extension_prints_nothing() {
    let mut r = DisplayRenderer::new(Some(80));
    r.echo(&chars("SOS"));
    assert!(r.echo(&chars("SO")).is_empty());
    assert!(r.echo(&chars("XYZ")).is_empty());
    assert!(r.echo(&chars("SOS")).is_empty());
    assert_eq!(text(&r.last_printed), "SOS");
}

#[test]
fn missing_or_zero_width_falls_back_to_default() {
    assert_eq!(DisplayRenderer::new(None).width, 80);
    assert_eq!(DisplayRenderer::new(Some(0)).width, 80);
    assert_eq!(DisplayRenderer::new(Some(132)).width, 132);
}

#[test]
fn wrapped_lines_count_logical_lines_rounded_up() {
    let hundred: Vec<char> = std::iter::repeat('x').take(100).collect();
    assert_eq!(wrapped_line_count(&hundred, 80), 2);
    assert_eq!(wrapped_line_count(&chars(""), 80), 0);
    assert_eq!(wrapped_line_count(&chars("abc\nd"), 2), 3);
    assert_eq!(wrapped_line_count(&chars("ab\n"), 2), 1);
    assert_eq!(wrapped_line_count(&chars("\n\n"), 5), 0);
}
