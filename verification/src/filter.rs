//! Band-pass filtering in Q15 fixed-point arithmetic.
//!
//! The filter is a cascade of second-order state-variable sections.  Every
//! intermediate quantity is saturated to a fixed range, so a bounded input
//! sequence provably produces a bounded output sequence.

use vstd::prelude::*;

verus! {

/// `round(2 * pi * 32768)`, used to turn a frequency ratio into a Q15 angular
/// increment.
pub const TWO_PI_Q15: u64 = 205887;

/// Largest value a filter coefficient may take.
pub const COEFF_MAX: u64 = 131072;

/// Saturation bound for section states, section inputs and section outputs.
pub const STATE_BOUND: i64 = 2147483648;

/// Saturation bound for scaled products inside a section step.
pub const PROD_BOUND: i64 = 8589934592;

/// Largest number of cascaded sections a filter will hold.
pub const MAX_SECTIONS: u32 = 16;

/// Largest magnitude `scale` accepts for its variable operand.
pub const SCALE_IN_BOUND: i64 = 1099511627776;

/// Why a filter configuration was rejected.
#[derive(Clone, Copy, PartialEq, Eq, Structural, Debug)]
pub enum ConfigError {
    /// The center frequency is zero.
    NonPositiveFrequency,
    /// The bandwidth is zero.
    NonPositiveBandwidth,
    /// `center_frequency +/- bandwidth / 2` leaves `(0, sample_rate / 2)`.
    NyquistViolation,
}

/// A filter configuration is usable when both band edges lie strictly
/// inside the open interval `(0, sample_rate / 2)`.
pub open spec fn config_ok(center: u32, bandwidth: u32, rate: u32) -> bool {
    center > 0 && bandwidth > 0 && 2 * center > bandwidth && 2 * center + bandwidth < rate
}

/// Validates band-pass parameters against the Nyquist limit, naming the
/// first offending parameter.
pub fn check_config(center: u32, bandwidth: u32, rate: u32) -> (r: Result<(), ConfigError>)
    ensures
        r is Ok <==> config_ok(center, bandwidth, rate),
        center == 0 ==> r == Result::<(), ConfigError>::Err(ConfigError::NonPositiveFrequency),
        center > 0 && bandwidth == 0 ==> r == Result::<(), ConfigError>::Err(
            ConfigError::NonPositiveBandwidth,
        ),
        center > 0 && bandwidth > 0 && !config_ok(center, bandwidth, rate) ==> r == Result::<
            (),
            ConfigError,
        >::Err(ConfigError::NyquistViolation),
{
    if center == 0 {
        Err(ConfigError::NonPositiveFrequency)
    } else if bandwidth == 0 {
        Err(ConfigError::NonPositiveBandwidth)
    } else if 2 * (center as u64) > bandwidth as u64 && 2 * (center as u64) + (bandwidth as u64)
        < rate as u64 {
        Ok(())
    } else {
        Err(ConfigError::NyquistViolation)
    }
}

/// Clamps `v` into `[-b, b]`.
pub open spec fn clip(v: int, b: int) -> int {
    if v > b {
        b
    } else if v < -b {
        -b
    } else {
        v
    }
}

/// Division of a product by the Q15 unit, truncating toward zero.
pub open spec fn tdiv_q15(p: int) -> int {
    if p >= 0 {
        p / 32768
    } else {
        -((-p) / 32768)
    }
}

/// `|v|` over the mathematical integers.
pub open spec fn abs_i(v: int) -> int {
    if v < 0 {
        -v
    } else {
        v
    }
}

/// One second-order state-variable section with its Q15 coefficients and its
/// two state accumulators.
#[derive(Clone, Copy, PartialEq, Eq, Structural, Debug)]
pub struct SvfSection {
    /// Q15 angular frequency coefficient, `2 * pi * center / rate` scaled.
    pub f: i64,
    /// Q15 damping coefficient, `bandwidth / center` scaled.
    pub q: i64,
    /// Low-pass state accumulator.
    pub low: i64,
    /// Band-pass state accumulator.
    pub band: i64,
}

/// The mathematical model of a section: `(f, q, low, band)` as integers.
pub open spec fn sec_model(s: SvfSection) -> (int, int, int, int) {
    (s.f as int, s.q as int, s.low as int, s.band as int)
}

/// Well-formedness of a section model: coefficients and states in range.
pub open spec fn sec_wf(m: (int, int, int, int)) -> bool {
    0 <= m.0 <= COEFF_MAX && 0 <= m.1 <= COEFF_MAX && -STATE_BOUND <= m.2 <= STATE_BOUND
        && -STATE_BOUND <= m.3 <= STATE_BOUND
}

/// One state-variable update: from section model `m` and input `x` to the
/// next model and the saturated band-pass output.
pub open spec fn section_next(m: (int, int, int, int), x: int) -> ((int, int, int, int), int) {
    let lf = clip(tdiv_q15(m.0 * m.3), PROD_BOUND as int);
    let low1 = clip(m.2 + lf, STATE_BOUND as int);
    let qb = clip(tdiv_q15(m.1 * m.3), PROD_BOUND as int);
    let high = x - low1 - qb;
    let bf = clip(tdiv_q15(m.0 * high), PROD_BOUND as int);
    let band1 = clip(m.3 + bf, STATE_BOUND as int);
    let out = clip(tdiv_q15(m.1 * band1), STATE_BOUND as int);
    ((m.0, m.1, low1, band1), out)
}

/// Clamps `v` into `[-b, b]`.
fn sat(v: i64, b: i64) -> (r: i64)
    requires
        0 < b,
    ensures
        r == clip(v as int, b as int),
{
    if v > b {
        b
    } else if v < -b {
        -b
    } else {
        v
    }
}

/// Computes `clip((a * b) / 32768, bound)` with truncating division, without
/// overflowing, for a non-negative coefficient `a`.
fn scale(a: i64, b: i64, bound: i64) -> (r: i64)
    requires
        0 <= a <= COEFF_MAX,
        -SCALE_IN_BOUND <= b <= SCALE_IN_BOUND,
        0 < bound <= PROD_BOUND,
    ensures
        r == clip(tdiv_q15(a * b), bound as int),
        -bound <= r <= bound,
{
    let bb: u64 = if b >= 0 {
        b as u64
    } else {
        (-b) as u64
    };
    assert((a as u64) * bb <= (COEFF_MAX as u64) * (SCALE_IN_BOUND as u64)) by (nonlinear_arith)
        requires
            0 <= a <= COEFF_MAX as u64,
            bb <= SCALE_IN_BOUND as u64,
    ;
    let p: u64 = (a as u64) * bb;
    let m: u64 = p / 32768;
    assert(m <= p) by (nonlinear_arith)
        requires
            m == p / 32768,
    ;
    let bu: u64 = bound as u64;
    let mc: u64 = if m > bu {
        bu
    } else {
        m
    };
    let r: i64 = if b >= 0 {
        mc as i64
    } else {
        -(mc as i64)
    };
    proof {
        if b >= 0 {
            assert(a * b >= 0 && a as u64 * bb == a * b) by (nonlinear_arith)
                requires
                    a >= 0,
                    b >= 0,
                    bb == b,
            ;
        } else {
            assert(a * b <= 0 && a as u64 * bb == -(a * b)) by (nonlinear_arith)
                requires
                    a >= 0,
                    b < 0,
                    bb == -b,
            ;
        }
    }
    r
}

impl SvfSection {
    /// The section invariant on the executable representation.
    pub open spec fn wf(self) -> bool {
        sec_wf(sec_model(self))
    }

    /// Feeds one sample through the section, updating the two state
    /// accumulators and returning the saturated band-pass output.
    pub fn step(&mut self, x: i64) -> (r: i64)
        requires
            old(self).wf(),
            -STATE_BOUND <= x <= STATE_BOUND,
        ensures
            final(self).wf(),
            (sec_model(*final(self)), r as int) == section_next(sec_model(*old(self)), x as int),
            -STATE_BOUND <= r <= STATE_BOUND,
    {
        let lf = scale(self.f, self.band, PROD_BOUND);
        let low1 = sat(self.low + lf, STATE_BOUND);
        let qb = scale(self.q, self.band, PROD_BOUND);
        let high = x - low1 - qb;
        let bf = scale(self.f, high, PROD_BOUND);
        let band1 = sat(self.band + bf, STATE_BOUND);
        let out = scale(self.q, band1, STATE_BOUND);
        self.low = low1;
        self.band = band1;
        out
    }
}

/// The models of a sequence of sections, in order.
pub open spec fn models(secs: Seq<SvfSection>) -> Seq<(int, int, int, int)> {
    secs.map_values(|s: SvfSection| sec_model(s))
}

/// One sample through a cascade: each section filters the previous
/// section's output; an empty cascade passes the sample through.
pub open spec fn cascade_step(ms: Seq<(int, int, int, int)>, x: int) -> (
    Seq<(int, int, int, int)>,
    int,
)
    decreases ms.len(),
{
    if ms.len() == 0 {
        (Seq::<(int, int, int, int)>::empty(), x)
    } else {
        let first = section_next(ms[0], x);
        let rest = cascade_step(ms.drop_first(), first.1);
        (seq![first.0].add(rest.0), rest.1)
    }
}

/// A whole frame through a cascade, sample by sample, in order.
pub open spec fn cascade_run(ms: Seq<(int, int, int, int)>, xs: Seq<int>) -> (
    Seq<(int, int, int, int)>,
    Seq<int>,
)
    decreases xs.len(),
{
    if xs.len() == 0 {
        (ms, Seq::<int>::empty())
    } else {
        let first = cascade_step(ms, xs[0]);
        let rest = cascade_run(first.0, xs.drop_first());
        (rest.0, seq![first.1].add(rest.1))
    }
}

/// A cascade keeps its section count: `cascade_step` returns one model per
/// input model.
pub proof fn lemma_cascade_step_len(ms: Seq<(int, int, int, int)>, x: int)
    ensures
        cascade_step(ms, x).0.len() == ms.len(),
    decreases ms.len(),
{
    if ms.len() != 0 {
        let first = section_next(ms[0], x);
        lemma_cascade_step_len(ms.drop_first(), first.1);
    }
}

/// A cascade yields one output sample per input sample.
pub proof fn lemma_cascade_run_len(ms: Seq<(int, int, int, int)>, xs: Seq<int>)
    ensures
        cascade_run(ms, xs).1.len() == xs.len(),
    decreases xs.len(),
{
    if xs.len() != 0 {
        let first = cascade_step(ms, xs[0]);
        lemma_cascade_run_len(first.0, xs.drop_first());
    }
}

/// One sample within the saturation range comes out of a cascade within
/// the saturation range.
proof fn lemma_cascade_step_out_bound(ms: Seq<(int, int, int, int)>, x: int)
    requires
        -STATE_BOUND <= x <= STATE_BOUND,
    ensures
        -STATE_BOUND <= cascade_step(ms, x).1 <= STATE_BOUND,
    decreases ms.len(),
{
    if ms.len() != 0 {
        let first = section_next(ms[0], x);
        lemma_cascade_step_out_bound(ms.drop_first(), first.1);
    }
}

/// Filter stability: whatever the cascade's coefficients and states, an
/// input sequence of bounded amplitude produces an output sequence of
/// bounded amplitude, however long the sequence runs.
pub proof fn lemma_bounded_input_bounded_output(ms: Seq<(int, int, int, int)>, xs: Seq<int>)
    requires
        forall|i: int| 0 <= i < xs.len() ==> -STATE_BOUND <= #[trigger] xs[i] <= STATE_BOUND,
    ensures
        forall|i: int|
            0 <= i < cascade_run(ms, xs).1.len() ==> -STATE_BOUND <= #[trigger] cascade_run(
                ms,
                xs,
            ).1[i] <= STATE_BOUND,
    decreases xs.len(),
{
    if xs.len() != 0 {
        let first = cascade_step(ms, xs[0]);
        lemma_cascade_step_out_bound(ms, xs[0]);
        assert(forall|i: int|
            0 <= i < xs.drop_first().len() ==> -STATE_BOUND <= #[trigger] xs.drop_first()[i]
                <= STATE_BOUND);
        lemma_bounded_input_bounded_output(first.0, xs.drop_first());
        let outs = cascade_run(ms, xs).1;
        let rest = cascade_run(first.0, xs.drop_first()).1;
        assert forall|i: int| 0 <= i < outs.len() implies -STATE_BOUND <= #[trigger] outs[i]
            <= STATE_BOUND by {
            if i > 0 {
                assert(outs[i] == rest[i - 1]);
            }
        }
    }
}

/// The integer values of a sequence of `i32` samples.
pub open spec fn ints_of_i32(s: Seq<i32>) -> Seq<int> {
    s.map_values(|v: i32| v as int)
}

/// The integer values of a sequence of `i64` samples.
pub open spec fn ints_of_i64(s: Seq<i64>) -> Seq<int> {
    s.map_values(|v: i64| v as int)
}

/// The section count a requested filter order yields: at least one section,
/// at most `MAX_SECTIONS`.
pub open spec fn section_count(order: u32) -> int {
    if order == 0 {
        1
    } else if order > MAX_SECTIONS {
        MAX_SECTIONS as int
    } else {
        order as int
    }
}

/// The Q15 angular-frequency coefficient derived from a center frequency
/// and a sample rate, clamped to `COEFF_MAX`.
pub open spec fn f_coeff(center: u32, rate: u32) -> int {
    let v = (TWO_PI_Q15 * center) as int / rate as int;
    if v > COEFF_MAX {
        COEFF_MAX as int
    } else {
        v
    }
}

/// The Q15 damping coefficient derived from a bandwidth and a center
/// frequency, clamped to `COEFF_MAX`.
pub open spec fn q_coeff(center: u32, bandwidth: u32) -> int {
    let v = (32768 * bandwidth) as int / center as int;
    if v > COEFF_MAX {
        COEFF_MAX as int
    } else {
        v
    }
}

/// A cascade of state-variable sections isolating one frequency band.
pub struct BandpassFilter {
    /// The cascaded sections, applied in order.
    pub sections: Vec<SvfSection>,
}

impl BandpassFilter {
    /// Every section of the cascade satisfies its invariant.
    pub open spec fn wf(self) -> bool {
        forall|i: int| 0 <= i < self.sections@.len() ==> self.sections@[i].wf()
    }

    /// The mathematical model of the whole cascade.
    pub open spec fn model(self) -> Seq<(int, int, int, int)> {
        models(self.sections@)
    }

    /// Builds a band-pass cascade from `(order, center, bandwidth, rate)`,
    /// all in hertz but `order`.  Fails exactly on the configurations that
    /// `config_ok` rejects, naming the first offending parameter.
    pub fn new(order: u32, center: u32, bandwidth: u32, rate: u32) -> (r: Result<
        BandpassFilter,
        ConfigError,
    >)
        ensures
            r is Ok <==> config_ok(center, bandwidth, rate),
            center == 0 ==> r == Result::<BandpassFilter, ConfigError>::Err(
                ConfigError::NonPositiveFrequency,
            ),
            center > 0 && bandwidth == 0 ==> r == Result::<BandpassFilter, ConfigError>::Err(
                ConfigError::NonPositiveBandwidth,
            ),
            center > 0 && bandwidth > 0 && !config_ok(center, bandwidth, rate) ==> r
                == Result::<BandpassFilter, ConfigError>::Err(ConfigError::NyquistViolation),
            r matches Ok(flt) ==> flt.wf() && flt.sections@.len() == section_count(order) && (
            forall|i: int|
                0 <= i < flt.sections@.len() ==> sec_model(flt.sections@[i]) == (
                f_coeff(center, rate),
                q_coeff(center, bandwidth),
                0int,
                0int,
                )),
    {
        if let Err(e) = check_config(center, bandwidth, rate) {
            return Err(e);
        }
        let fv: u64 = TWO_PI_Q15 * (center as u64) / (rate as u64);
        let f: i64 = if fv > COEFF_MAX {
            COEFF_MAX as i64
        } else {
            fv as i64
        };
        let qv: u64 = 32768 * (bandwidth as u64) / (center as u64);
        let q: i64 = if qv > COEFF_MAX {
            COEFF_MAX as i64
        } else {
            qv as i64
        };
        let n: u32 = if order == 0 {
            1
        } else if order > MAX_SECTIONS {
            MAX_SECTIONS
        } else {
            order
        };
        let mut sections: Vec<SvfSection> = Vec::new();
        let mut i: u32 = 0;
        while i < n
            invariant
                i <= n,
                n == section_count(order),
                0 <= f <= COEFF_MAX,
                f == f_coeff(center, rate),
                0 <= q <= COEFF_MAX,
                q == q_coeff(center, bandwidth),
                sections@.len() == i,
                forall|j: int|
                    0 <= j < i ==> sec_model(sections@[j]) == (f as int, q as int, 0int, 0int),
            decreases n - i,
        {
            sections.push(SvfSection { f, q, low: 0, band: 0 });
            i = i + 1;
        }
        Ok(BandpassFilter { sections })
    }

    /// Feeds one sample through every section in order; `cascade_step` is
    /// the exact statement of the result.  The output is always saturated,
    /// so a bounded input sequence yields a bounded output sequence.
    pub fn process(&mut self, x: i64) -> (r: i64)
        requires
            old(self).wf(),
            -STATE_BOUND <= x <= STATE_BOUND,
        ensures
            final(self).wf(),
            (final(self).model(), r as int) == cascade_step(old(self).model(), x as int),
            -STATE_BOUND <= r <= STATE_BOUND,
    {
        let ghost full = cascade_step(old(self).model(), x as int);
        proof {
            lemma_cascade_step_len(old(self).model(), x as int);
            assert(self.sections@.skip(0) =~= self.sections@);
            assert(full.0.skip(0) =~= full.0);
        }
        let n = self.sections.len();
        let mut cur: i64 = x;
        let mut i: usize = 0;
        while i < n
            invariant
                i <= n,
                n == self.sections@.len(),
                self.sections@.len() == old(self).sections@.len(),
                old(self).wf(),
                -STATE_BOUND <= cur <= STATE_BOUND,
                forall|j: int| i <= j < n ==> self.sections@[j] == old(self).sections@[j],
                forall|j: int| 0 <= j < i ==> self.sections@[j].wf(),
                forall|j: int| 0 <= j < i ==> sec_model(self.sections@[j]) == full.0[j],
                full.0.len() == n,
                cascade_step(models(self.sections@.skip(i as int)), cur as int) == (
                full.0.skip(i as int),
                full.1,
                ),
            decreases n - i,
        {
            let ghost pre = self.sections@;
            let mut sec = self.sections[i];
            let out = sec.step(cur);
            self.sections.set(i, sec);
            proof {
                assert(models(pre.skip(i as int))[0] == sec_model(pre[i as int]));
                assert(models(pre.skip(i as int)).drop_first() =~= models(
                    self.sections@.skip(i as int + 1),
                ));
                assert(full.0.skip(i as int).drop_first() =~= full.0.skip(i as int + 1));
                assert(seq![sec_model(sec)].add(
                    cascade_step(models(self.sections@.skip(i as int + 1)), out as int).0,
                )[0] == sec_model(sec));
            }
            cur = out;
            i = i + 1;
        }
        proof {
            assert(models(self.sections@.skip(n as int)) =~= Seq::<(int, int, int, int)>::empty());
            assert(final(self).model() =~= full.0);
        }
        cur
    }

    /// Feeds a whole frame through the cascade, returning one filtered
    /// sample per input sample; `cascade_run` is the exact statement.
    pub fn filter_frame(&mut self, samples: &Vec<i32>) -> (outs: Vec<i64>)
        requires
            old(self).wf(),
        ensures
            final(self).wf(),
            (final(self).model(), ints_of_i64(outs@)) == cascade_run(
                old(self).model(),
                ints_of_i32(samples@),
            ),
            outs@.len() == samples@.len(),
            forall|j: int| 0 <= j < outs@.len() ==> -STATE_BOUND <= #[trigger] outs@[j] <= STATE_BOUND,
    {
        let ghost xs = ints_of_i32(samples@);
        let ghost full = cascade_run(old(self).model(), xs);
        proof {
            lemma_cascade_run_len(old(self).model(), xs);
            assert(xs.skip(0) =~= xs);
            assert(full.1.skip(0) =~= full.1);
            assert(ints_of_i64(Seq::<i64>::empty()) =~= full.1.take(0));
        }
        let n = samples.len();
        let mut outs: Vec<i64> = Vec::new();
        let mut i: usize = 0;
        while i < n
            invariant
                i <= n,
                n == samples@.len(),
                xs == ints_of_i32(samples@),
                self.wf(),
                outs@.len() == i,
                ints_of_i64(outs@) == full.1.take(i as int),
                forall|j: int| 0 <= j < outs@.len() ==> -STATE_BOUND <= #[trigger] outs@[j] <= STATE_BOUND,
                full.1.len() == n,
                cascade_run(self.model(), xs.skip(i as int)) == (full.0, full.1.skip(i as int)),
            decreases n - i,
        {
            let ghost pre_model = self.model();
            let x = samples[i];
            let out = self.process(x as i64);
            proof {
                assert(xs.skip(i as int)[0] == x as int);
                assert(xs.skip(i as int).drop_first() =~= xs.skip(i as int + 1));
                assert(full.1.skip(i as int).drop_first() =~= full.1.skip(i as int + 1));
                assert(seq![cascade_step(pre_model, x as int).1].add(
                    cascade_run(self.model(), xs.skip(i as int + 1)).1,
                )[0] == out as int);
                assert(ints_of_i64(outs@.push(out)) =~= full.1.take(i as int + 1));
            }
            outs.push(out);
            i = i + 1;
        }
        proof {
            assert(xs.skip(n as int) =~= Seq::<int>::empty());
            assert(ints_of_i64(outs@) =~= full.1);
        }
        outs
    }
}

} // verus!
