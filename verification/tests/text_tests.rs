use morse_rx::text::normalize;

fn chars(s: &str) -> Vec<char> {
    s.chars().collect()
}

fn text(v: &[char]) -> String {
    v.iter().collect()
}

#[test]
fn whitespace_runs_collapse_to_one_space() {
    let out = normalize(&chars("SOS  \t\n  HELP"));
    assert_eq!(text(&out), "SOS HELP");
}

#[test]
fn leading_and_trailing_runs_collapse_too() {
    let out = normalize(&chars("  A \r\n B  "));
    assert_eq!(text(&out), " A B ");
}

#[test]
fn normalize_keeps_plain_text_unchanged() {
    let out = normalize(&chars("SOS HELP"));
    assert_eq!(text(&out), "SOS HELP");
}

#[test]
fn normalize_of_empty_is_empty() {
    let out = normalize(&chars(""));
    assert!(out.is_empty());
}

#[test]
fn normalize_is_idempotent() {
    for s in ["", "   ", "A", " A\t\tB \n C ", "\r\n", "X Y Z"] {
        let once = normalize(&chars(s));
        let twice = normalize(&once);
        assert_eq!(once, twice);
    }
}
