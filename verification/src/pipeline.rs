//! The per-frame signal-to-symbol pipeline: filter, detect, decode, render.
//!
//! The host hands each channel's samples of one frame to `process_channel`;
//! everything it decides — filter states, tone transitions, decoded text and
//! render commands — is a function of the previous state, the samples and
//! the frame's timestamp, stated exactly in its contract.

use vstd::prelude::*;
use crate::decoder::{end_next, event_next, MorseDecoder};
use crate::detector::{level_of, level_spec, peak_level, peak_spec, ToneDetector, IDLE_FACTOR};
use crate::filter::{cascade_run, config_ok, ints_of_i32, BandpassFilter, ConfigError};
use crate::render::{grew, wrapped_lines, DisplayRenderer, RedrawCmd};
use crate::text::norm;

verus! {

/// The decoder state after a frame's signal-change handling: unchanged when
/// no transition happened, else advanced by the transition's event.
pub open spec fn live_state(
    sym: Seq<bool>,
    msg: Seq<char>,
    duration: int,
    was_tone: bool,
    dot: int,
    changed: bool,
) -> (Seq<bool>, Seq<char>) {
    if changed {
        event_next(sym, msg, duration, was_tone, dot)
    } else {
        (sym, msg)
    }
}

/// The normalized text the two-call finalize protocol leaves, from a given
/// decoder state.
pub open spec fn finalized_message(sym: Seq<bool>, msg: Seq<char>) -> Seq<char> {
    let a = end_next(sym, msg, false);
    let b = end_next(a.0, a.1, true);
    norm(b.1)
}

/// What one processed frame hands back to the host for output.
pub struct FrameOutput {
    /// Newly appended characters to print as they arrive.
    pub echoed: Vec<char>,
    /// A redraw to perform because the finalized text differs from the
    /// echoed text.
    pub redraw: Option<RedrawCmd>,
    /// The finalized message to log, when the idle timeout closed one.
    pub finalized: Option<Vec<char>>,
}

/// The whole decoding pipeline: one filter per channel, and shared
/// detection, decoding and rendering state.
pub struct Pipeline {
    /// One band-pass filter per audio channel.
    pub filters: Vec<BandpassFilter>,
    /// The shared tone-presence state machine.
    pub detector: ToneDetector,
    /// The shared Morse decoder.
    pub decoder: MorseDecoder,
    /// The shared terminal renderer state.
    pub renderer: DisplayRenderer,
}

impl Pipeline {
    /// Every per-channel filter and the renderer satisfy their invariants.
    pub open spec fn wf(self) -> bool {
        (forall|j: int|
            0 <= j < self.filters@.len() ==> (#[trigger] self.filters@[j]).wf())
            && self.renderer.wf()
    }

    /// Builds the pipeline for a negotiated format: one filter per channel
    /// from `(order, center, bandwidth, rate)`, a detector with the given
    /// threshold and dot duration, an empty decoder, and a renderer for the
    /// given terminal width.  Fails exactly on the configurations that
    /// `config_ok` rejects.
    pub fn new(
        channels: usize,
        order: u32,
        center: u32,
        bandwidth: u32,
        rate: u32,
        threshold: u8,
        dot_ms: u32,
        width: Option<usize>,
        start_ms: u64,
    ) -> (r: Result<Pipeline, ConfigError>)
        ensures
            r is Ok <==> config_ok(center, bandwidth, rate),
            center == 0 ==> r == Result::<Pipeline, ConfigError>::Err(
                ConfigError::NonPositiveFrequency,
            ),
            center > 0 && bandwidth == 0 ==> r == Result::<Pipeline, ConfigError>::Err(
                ConfigError::NonPositiveBandwidth,
            ),
            center > 0 && bandwidth > 0 && !config_ok(center, bandwidth, rate) ==> r
                == Result::<Pipeline, ConfigError>::Err(ConfigError::NyquistViolation),
            r matches Ok(p) ==> p.wf() && p.filters@.len() == channels && (forall|j: int|
                0 <= j < channels ==> (#[trigger] p.filters@[j]).sections@.len()
                    == crate::filter::section_count(order) && p.filters@[j].model()
                    == p.filters@[0].model()) && p.detector.threshold == threshold
                && p.detector.dot_ms == dot_ms && p.detector.tone_present == false
                && p.detector.last_change_ms == start_ms && p.decoder.dot_ms == dot_ms
                && p.decoder.symbol@ == Seq::<bool>::empty() && p.decoder.message@
                == Seq::<char>::empty() && p.renderer.last_printed@ == Seq::<char>::empty(),
    {
        if let Err(e) = crate::filter::check_config(center, bandwidth, rate) {
            return Err(e);
        }
        let mut filters: Vec<BandpassFilter> = Vec::new();
        let mut i: usize = 0;
        while i < channels
            invariant
                i <= channels,
                config_ok(center, bandwidth, rate),
                filters@.len() == i,
                forall|j: int|
                    0 <= j < i ==> (#[trigger] filters@[j]).wf() && filters@[j].sections@.len()
                        == crate::filter::section_count(order) && (forall|k: int|
                        0 <= k < filters@[j].sections@.len()
                            ==> (#[trigger] filters@[j].sections@[k]) == (crate::filter::SvfSection {
                            f: crate::filter::f_coeff(center, rate) as i64,
                            q: crate::filter::q_coeff(center, bandwidth) as i64,
                            low: 0i64,
                            band: 0i64,
                        })),
            decreases channels - i,
        {
            match BandpassFilter::new(order, center, bandwidth, rate) {
                Ok(f) => {
                    proof {
                        assert(forall|k: int|
                            0 <= k < f.sections@.len() ==> (#[trigger] f.sections@[k])
                                == (crate::filter::SvfSection {
                                f: crate::filter::f_coeff(center, rate) as i64,
                                q: crate::filter::q_coeff(center, bandwidth) as i64,
                                low: 0i64,
                                band: 0i64,
                            }));
                    }
                    filters.push(f);
                },
                Err(_) => {
                    return vstd::pervasive::unreached();
                },
            }
            i = i + 1;
        }
        let p = Pipeline {
            filters,
            detector: ToneDetector::new(threshold, dot_ms, start_ms),
            decoder: MorseDecoder::new(dot_ms),
            renderer: DisplayRenderer::new(width),
        };
        proof {
            assert forall|j: int| 0 <= j < channels implies (#[trigger] p.filters@[j]).model()
                == p.filters@[0].model() by {
                assert(p.filters@[j].model() =~= p.filters@[0].model());
            }
        }
        Ok(p)
    }

    /// Processes one frame of one channel's samples at time `now_ms`.
    ///
    /// The samples run through the channel's filter; the frame's peak level
    /// drives the detector; a tone transition feeds the decoder and echoes
    /// newly appended text; the idle timeout finalizes a non-empty message,
    /// redraws if the finalized text differs from the echoed text, and
    /// clears the decoder.  Every clause below follows that order.
    pub fn process_channel(&mut self, channel: usize, samples: &Vec<i32>, now_ms: u64) -> (out:
        FrameOutput)
        requires
            old(self).wf(),
            channel < old(self).filters@.len(),
            old(self).detector.last_change_ms <= now_ms,
        ensures
            final(self).wf(),
            final(self).filters@.len() == old(self).filters@.len(),
            forall|j: int|
                0 <= j < old(self).filters@.len() && j != channel
                    ==> (#[trigger] final(self).filters@[j]) == old(self).filters@[j],
            final(self).filters@[channel as int].model() == cascade_run(
                old(self).filters@[channel as int].model(),
                ints_of_i32(samples@),
            ).0,
            final(self).detector.threshold == old(self).detector.threshold,
            final(self).detector.dot_ms == old(self).detector.dot_ms,
            final(self).decoder.dot_ms == old(self).decoder.dot_ms,
            final(self).renderer.width == old(self).renderer.width,
            ({
                let run = cascade_run(
                    old(self).filters@[channel as int].model(),
                    ints_of_i32(samples@),
                );
                let lvl = level_spec(peak_spec(run.1));
                let tone = lvl > old(self).detector.threshold;
                let dur = now_ms - old(self).detector.last_change_ms;
                let changed = tone != old(self).detector.tone_present;
                let idle = dur > IDLE_FACTOR * old(self).detector.dot_ms && !tone;
                let d1 = live_state(
                    old(self).decoder.symbol@,
                    old(self).decoder.message@,
                    dur,
                    old(self).detector.tone_present,
                    old(self).decoder.dot_ms as int,
                    changed,
                );
                let live = norm(d1.1);
                let echo_grew = changed && grew(old(self).renderer.last_printed@, live);
                let rp1 = if echo_grew {
                    live
                } else {
                    old(self).renderer.last_printed@
                };
                let do_fin = idle && live.len() > 0;
                let fin = finalized_message(d1.0, d1.1);
                final(self).detector.tone_present == tone && final(self).detector.last_change_ms
                    == (if changed || idle {
                    now_ms as int
                } else {
                    old(self).detector.last_change_ms as int
                }) && out.echoed@ == (if echo_grew {
                    live.skip(old(self).renderer.last_printed@.len() as int)
                } else {
                    Seq::<char>::empty()
                }) && (if do_fin {
                    final(self).decoder.symbol@ == Seq::<bool>::empty() && final(self).decoder.message@ == Seq::<char>::empty() && (out.finalized matches Some(f)
                        && f@ == fin) && (if fin == rp1 {
                        out.redraw is None && final(self).renderer.last_printed@ == rp1
                    } else {
                        final(self).renderer.last_printed@ == fin && (out.redraw matches Some(c)
                            && c.lines_to_clear == wrapped_lines(
                            rp1,
                            old(self).renderer.width as int,
                        ) && c.text@ == fin)
                    })
                } else {
                    final(self).decoder.symbol@ == d1.0 && final(self).decoder.message@ == d1.1
                        && out.finalized is None && out.redraw is None && final(self).renderer.last_printed@ == rp1
                })
            }),
    {
        let outs = self.filters[channel].filter_frame(samples);
        let peak = peak_level(&outs);
        let lvl = level_of(peak);
        let ev = self.detector.on_frame(lvl, now_ms);
        let mut echoed: Vec<char> = Vec::new();
        proof {
            assert(echoed@ =~= Seq::<char>::empty());
        }
        if let Some(e) = ev.change {
            self.decoder.signal_event(e.duration_ms, e.was_tone);
            let live_v = self.decoder.normalized_message();
            echoed = self.renderer.echo(&live_v);
        }
        let mut redraw: Option<RedrawCmd> = None;
        let mut finalized: Option<Vec<char>> = None;
        if ev.idle {
            let live_v = self.decoder.normalized_message();
            if live_v.len() > 0 {
                self.decoder.signal_event_end(false);
                self.decoder.signal_event_end(true);
                let fin_v = self.decoder.normalized_message();
                redraw = self.renderer.finalize(&fin_v);
                finalized = Some(fin_v);
                self.decoder.clear_message();
            }
        }
        FrameOutput { echoed, redraw, finalized }
    }
}

} // verus!
