use morse_rx::filter::ConfigError;
use morse_rx::pipeline::Pipeline;

fn text(v: &[char]) -> String {
    v.iter().collect()
}

fn tone_frame(frame_index: usize, samples_per_frame: usize, freq: f64, rate: f64) -> Vec<i32> {
    let mut out: Vec<i32> = Vec::new();
    for t in 0..samples_per_frame {
        let n = (frame_index * samples_per_frame + t) as f64;
        let v = (2.0 * std::f64::consts::PI * freq * n / rate).sin() * 26214.0;
        out.push(v as i32);
    }
    out
}

fn silence_frame(samples_per_frame: usize) -> Vec<i32> {
    vec![0i32; samples_per_frame]
}

#[test]
fn pipeline_rejects_bad_config() {
    let r = Pipeline::new(2, 3, 0, 100, 8000, 10, 100, Some(80), 0);
    assert!(matches!(r, Err(ConfigError::NonPositiveFrequency)));
    let r = Pipeline::new(2, 3, 700, 100, 1000, 10, 100, Some(80), 0);
    assert!(matches!(r, Err(ConfigError::NyquistViolation)));
}

#[test]
fn pipeline_builds_one_filter_per_channel() {
    let p = Pipeline::new(2, 3, 700, 100, 8000, 10, 100, Some(80), 0).unwrap();
    assert_eq!(p.filters.len(), 2);
    assert_eq!(p.filters[0].sections.len(), 3);
}

#[test]
fn keyed_tone_schedule_decodes_and_finalizes() {
    // 8 kHz, 10 ms frames; dot duration 100 ms.  Keying E E: tone 100 ms,
    // silence 600 ms (character gap), tone 100 ms, then silence past the
    // idle timeout of 2000 ms.
    let rate = 8000.0;
    let spf = 80;
    let mut p = Pipeline::new(1, 3, 700, 100, 8000, 10, 100, Some(80), 0).unwrap();

    let mut echoed = String::new();
    let mut finalized: Option<String> = None;
    let mut redraw_text: Option<String> = None;
    let mut redraw_count = 0;

    for i in 0..290usize {
        let frame = if i < 10 || (70 <= i && i < 80) {
            tone_frame(i, spf, 700.0, rate)
        } else {
            silence_frame(spf)
        };
        let now_ms = (i as u64) * 10;
        let out = p.process_channel(0, &frame, now_ms);
        echoed.push_str(&text(&out.echoed));
        if let Some(f) = out.finalized {
            assert!(finalized.is_none(), "only one message should finalize");
            finalized = Some(text(&f));
        }
        if let Some(cmd) = out.redraw {
            redraw_count += 1;
            redraw_text = Some(text(&cmd.text));
        }
    }

    // the first character is echoed as it completes, the second only
    // appears in the finalized message
    assert_eq!(echoed, "E");
    assert_eq!(finalized.as_deref(), Some("EE"));
    // the finalized text differs from the echoed text, so exactly one
    // redraw happens, replacing the echo with the full message
    assert_eq!(redraw_count, 1);
    assert_eq!(redraw_text.as_deref(), Some("EE"));
    // the decoder never accumulates across the idle timeout
    assert!(p.decoder.message.is_empty());
    assert_eq!(text(&p.renderer.last_printed), "EE");
}

#[test]
fn silent_input_produces_no_events() {
    let spf = 80;
    let mut p = Pipeline::new(1, 3, 700, 100, 8000, 10, 100, Some(80), 0).unwrap();
    for i in 0..50usize {
        let out = p.process_channel(0, &silence_frame(spf), (i as u64) * 10);
        assert!(out.echoed.is_empty());
        assert!(out.redraw.is_none());
        assert!(out.finalized.is_none());
    }
    assert!(p.decoder.message.is_empty());
}
