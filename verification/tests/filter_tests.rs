use morse_rx::filter::{BandpassFilter, ConfigError, STATE_BOUND};

fn lcg_noise(n: usize) -> Vec<i32> {
    let mut x: u64 = 0x1234_5678_9abc_def0;
    let mut out: Vec<i32> = Vec::new();
    for _ in 0..n {
        x = x.wrapping_mul(6364136223846793005).wrapping_add(1442695040888963407);
        let v = ((x >> 33) % 65537) as i64 - 32768;
        out.push(v as i32);
    }
    out
}

fn sine_burst(freq: f64, rate: f64, amp: f64, n: usize) -> Vec<i32> {
    let mut out: Vec<i32> = Vec::new();
    for t in 0..n {
        let v = (2.0 * std::f64::consts::PI * freq * (t as f64) / rate).sin() * amp;
        out.push(v as i32);
    }
    out
}

fn peak_of(v: &[i64]) -> i64 {
    let mut m: i64 = 0;
    for &s in v {
        let a = s.abs();
        if a > m {
            m = a;
        }
    }
    m
}

#[test]
fn config_rejects_zero_frequency() {
    let r = BandpassFilter::new(5, 0, 100, 48000);
    assert!(matches!(r, Err(ConfigError::NonPositiveFrequency)));
}

#[test]
fn config_rejects_zero_bandwidth() {
    let r = BandpassFilter::new(5, 700, 0, 48000);
    assert!(matches!(r, Err(ConfigError::NonPositiveBandwidth)));
}

#[test]
fn config_rejects_nyquist_violation() {
    // upper band edge above half the sample rate
    assert!(matches!(
        BandpassFilter::new(5, 30000, 100, 48000),
        Err(ConfigError::NyquistViolation)
    ));
    // lower band edge at or below zero
    assert!(matches!(
        BandpassFilter::new(5, 700, 1500, 48000),
        Err(ConfigError::NyquistViolation)
    ));
    // center at the Nyquist frequency exactly
    assert!(matches!(
        BandpassFilter::new(5, 24000, 100, 48000),
        Err(ConfigError::NyquistViolation)
    ));
}

#[test]
fn config_accepts_valid_band() {
    let r = BandpassFilter::new(5, 700, 100, 48000);
    assert!(r.is_ok());
}

#[test]
fn order_is_clamped_to_at_least_one_section() {
    let f = BandpassFilter::new(0, 700, 100, 48000).unwrap();
    assert_eq!(f.sections.len(), 1);
    let f = BandpassFilter::new(100, 700, 100, 48000).unwrap();
    assert_eq!(f.sections.len(), 16);
    let f = BandpassFilter::new(5, 700, 100, 48000).unwrap();
    assert_eq!(f.sections.len(), 5);
}

#[test]
fn filter_output_bounded_over_long_noise() {
    let mut f = BandpassFilter::new(5, 700, 100, 48000).unwrap();
    let noise = lcg_noise(10_000);
    let outs = f.filter_frame(&noise);
    assert_eq!(outs.len(), 10_000);
    for &o in &outs {
        assert!(-STATE_BOUND <= o && o <= STATE_BOUND);
    }
}

#[test]
fn filter_passes_center_and_rejects_far_tone() {
    let mut f = BandpassFilter::new(3, 700, 100, 48000).unwrap();
    let pass = f.filter_frame(&sine_burst(700.0, 48000.0, 16384.0, 12000));
    let pass_peak = peak_of(&pass[8000..]);

    let mut f = BandpassFilter::new(3, 700, 100, 48000).unwrap();
    let stop = f.filter_frame(&sine_burst(1700.0, 48000.0, 16384.0, 12000));
    let stop_peak = peak_of(&stop[8000..]);

    // the in-band tone comes through within a few dB of its input level
    assert!(pass_peak >= 4096, "pass_peak = {}", pass_peak);
    // the tone ten bandwidths away is strongly attenuated
    assert!(stop_peak <= 512, "stop_peak = {}", stop_peak);
    assert!(pass_peak >= 8 * stop_peak);
}
