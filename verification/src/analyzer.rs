use vstd::prelude::*;

use crate::filter::{
    blend_coefficient, blended_value, lemma_blend_between, blend_ok, compute_ok, computed, fits_i32, FastFilterVA, FilterView, FF_PASS_MAX, FF_PASS_MIN,
};

verus! {

/// `x - y` when it fits in `i32`, else `d`.
pub open spec fn sub_or(x: i32, y: i32, d: i32) -> i32 {
    if fits_i32(x - y) { (x - y) as i32 } else { d }
}

/// `x * y` when it fits in `i32`, else `d`.
pub open spec fn mul_or(x: i32, y: i32, d: i32) -> i32 {
    if fits_i32(x * y) { (x * y) as i32 } else { d }
}

/// `x + y` when it fits in `i32`, else `d`.
pub open spec fn add_or(x: i32, y: i32, d: i32) -> i32 {
    if fits_i32(x + y) { (x + y) as i32 } else { d }
}

/// Integer division rounding toward zero, as Rust divides integers.
pub open spec fn trunc_div(x: int, d: int) -> int {
    if x == 0 {
        0
    } else if x > 0 && d > 0 {
        x / d
    } else if x < 0 && d < 0 {
        (x * -1) / (d * -1)
    } else if x < 0 {
        ((x * -1) / d) * -1
    } else {
        (x / (d * -1)) * -1
    }
}

/// `x / y` (rounding toward zero) when `y != 0` and the quotient fits, else `d`.
pub open spec fn div_or(x: i32, y: i32, d: i32) -> i32 {
    if y == 0 || !fits_i32(trunc_div(x as int, y as int)) {
        d
    } else {
        trunc_div(x as int, y as int) as i32
    }
}

/// Linear rescaling of `value` from `[from_min, from_max]` to `[to_min, to_max]`,
/// `(value - from_min) * (to_max - to_min) / (from_max - from_min) + to_min`,
/// where each step that leaves `i32` (or divides by zero) is replaced by a
/// fixed value: `i32::MIN` for a difference, `i32::MAX` for the product, the
/// quotient and the sum.
pub open spec fn spec_map(value: i32, from_min: i32, from_max: i32, to_min: i32, to_max: i32) -> i32 {
    let a = sub_or(value, from_min, i32::MIN);
    let b = sub_or(to_max, to_min, i32::MIN);
    let c = sub_or(from_max, from_min, i32::MIN);
    let p = mul_or(a, b, i32::MAX);
    let q = div_or(p, c, i32::MAX);
    add_or(q, to_min, i32::MAX)
}

/// `value` clamped to `[min_value, max_value]` (the lower bound is tested first).
pub open spec fn spec_constrain(value: i32, min_value: i32, max_value: i32) -> i32 {
    if value < min_value {
        min_value
    } else if value > max_value {
        max_value
    } else {
        value
    }
}


/// A time in nanoseconds converted to whole milliseconds, the unit of the filters' timers.
pub open spec fn millis(now: u64) -> u64 {
    now / 1_000_000
}

/// A volume analyser: samples the input at a fixed period, takes the maximum
/// over a window of samples, follows the running amplitude envelope with two
/// filters, rescales the window maximum into `[_volMin, _volMax]` and detects
/// pulses (a loud window after a quiet stretch).
///
/// Times are nanoseconds on the caller's clock; durations are nanoseconds.
pub struct VolAnalyzer {
    _dt: u64,
    _ampliDt: u64,
    _window: i32,
    _tmrPulse: u64,
    _tmrDt: u64,
    _tmrAmpli: u64,
    _raw: i32,
    _rawMax: i32,
    _max: i32,
    _maxs: i32,
    _mins: i32,
    count: i32,
    pub _volMin: i32,
    pub _volMax: i32,
    pub _trsh: i32,
    pub _pulseTrsh: i32,
    pub _pulseMin: i32,
    pub _pulseTout: u64,
    _pulse: bool,
    _pulseState: bool,
    _first: bool,
    minF: FastFilterVA,
    maxF: FastFilterVA,
    volF: FastFilterVA,
}

/// The state of an analyser as the contracts speak of it.
pub struct AnalyzerView {
    pub dt: u64,
    pub ampli_dt: u64,
    pub window: i32,
    pub tmr_pulse: u64,
    pub tmr_dt: u64,
    pub tmr_ampli: u64,
    pub raw: i32,
    pub raw_max: i32,
    pub max: i32,
    pub maxs: i32,
    pub mins: i32,
    pub count: i32,
    pub vol_min: i32,
    pub vol_max: i32,
    pub trsh: i32,
    pub pulse_trsh: i32,
    pub pulse_min: i32,
    pub pulse_tout: u64,
    pub pulse: bool,
    pub pulse_state: bool,
    pub first: bool,
    pub min_f: FilterView,
    pub max_f: FilterView,
    pub vol_f: FilterView,
}

impl View for VolAnalyzer {
    type V = AnalyzerView;

    closed spec fn view(&self) -> AnalyzerView {
        AnalyzerView {
            dt: self._dt,
            ampli_dt: self._ampliDt,
            window: self._window,
            tmr_pulse: self._tmrPulse,
            tmr_dt: self._tmrDt,
            tmr_ampli: self._tmrAmpli,
            raw: self._raw,
            raw_max: self._rawMax,
            max: self._max,
            maxs: self._maxs,
            mins: self._mins,
            count: self.count,
            vol_min: self._volMin,
            vol_max: self._volMax,
            trsh: self._trsh,
            pulse_trsh: self._pulseTrsh,
            pulse_min: self._pulseMin,
            pulse_tout: self._pulseTout,
            pulse: self._pulse,
            pulse_state: self._pulseState,
            first: self._first,
            min_f: self.minF@,
            max_f: self.maxF@,
            vol_f: self.volF@,
        }
    }
}

/// The window counter lies below the window length.
pub open spec fn analyzer_wf(v: AnalyzerView) -> bool {
    0 <= v.count < v.window
}

/// First step of a tick: the volume filter computes on its timer.
pub open spec fn vol_stage(v: AnalyzerView, now: u64) -> AnalyzerView {
    AnalyzerView { vol_f: computed(v.vol_f, millis(now)), ..v }
}

pub open spec fn ampli_due(v: AnalyzerView, now: u64) -> bool {
    now - v.tmr_ampli >= v.ampli_dt
}

/// The maximum filter fed with the largest window maximum of the period.
pub open spec fn max_f_fed(v: AnalyzerView) -> FilterView {
    FilterView { raw: v.maxs, ..v.max_f }
}

/// The minimum filter fed with the smallest window maximum of the period.
pub open spec fn min_f_fed(v: AnalyzerView) -> FilterView {
    FilterView { raw: v.mins, ..v.min_f }
}

/// Second step: when the envelope period has elapsed, the envelope filters
/// take the extreme window maxima of the period and the extremes restart.
pub open spec fn ampli_stage(v: AnalyzerView, now: u64) -> AnalyzerView {
    if ampli_due(v, now) {
        AnalyzerView {
            tmr_ampli: now,
            max_f: computed(max_f_fed(v), millis(now)),
            min_f: computed(min_f_fed(v), millis(now)),
            maxs: 0,
            mins: 1023,
            ..v
        }
    } else {
        v
    }
}

pub open spec fn sample_due(v: AnalyzerView, now: u64) -> bool {
    now - v.tmr_dt >= v.dt
}

/// Third step, when the sampling period has elapsed: the sample enters the
/// window maximum, the first sample ever seeds both envelope filters, and
/// the window counter advances.
pub open spec fn read_stage(v: AnalyzerView, now: u64, read: i32) -> AnalyzerView {
    let v1 = AnalyzerView {
        tmr_dt: now,
        max: if read > v.max { read } else { v.max },
        count: (v.count + 1) as i32,
        ..v
    };
    if !v.first {
        AnalyzerView {
            first: true,
            max_f: FilterView { fil: read, ..v.max_f },
            min_f: FilterView { fil: read, ..v.min_f },
            ..v1
        }
    } else {
        v1
    }
}

/// The volume level of a completed window: its maximum (or 0 when the
/// envelope is narrower than the threshold) rescaled from the envelope to
/// `[vol_min, vol_max]` and clamped there.
pub open spec fn window_level(v: AnalyzerView) -> i32 {
    let lo = v.min_f.fil;
    let hi = v.max_f.fil;
    let m = if hi - lo < v.trsh { 0i32 } else { v.max };
    spec_constrain(spec_map(m, lo, hi, v.vol_min, v.vol_max), v.vol_min, v.vol_max)
}

/// Whether the pulse detector arms on this window: it is disarmed, the level
/// is at most `pulse_min`, and the pulse timeout has elapsed.
pub open spec fn pulse_arms(v: AnalyzerView, now: u64) -> bool {
    !v.pulse_state && window_level(v) <= v.pulse_min && now - v.tmr_pulse >= v.pulse_tout
}

/// Whether a pulse fires on this window: the detector is armed and the level
/// exceeds `pulse_trsh`.
pub open spec fn pulse_fires(v: AnalyzerView) -> bool {
    v.pulse_state && window_level(v) > v.pulse_trsh
}

/// Last step, when the window is full: the window extremes and the volume
/// filter's input are updated, the pulse detector steps, and the window restarts.
pub open spec fn window_stage(v: AnalyzerView, now: u64) -> AnalyzerView {
    let maxs = if v.max > v.maxs { v.max } else { v.maxs };
    let mins = if v.max < v.mins { v.max } else { v.mins };
    let level = window_level(v);
    AnalyzerView {
        raw: v.max,
        maxs: maxs,
        mins: mins,
        raw_max: maxs,
        vol_f: FilterView { raw: level, ..v.vol_f },
        pulse_state: if pulse_arms(v, now) { true } else if pulse_fires(v) { false } else { v.pulse_state },
        pulse: if pulse_fires(v) { true } else { v.pulse },
        tmr_pulse: if pulse_fires(v) { now } else { v.tmr_pulse },
        max: 0,
        count: 0,
        ..v
    }
}

/// The state after a tick at time `now` with input sample `read`, and whether
/// a window was completed.
pub open spec fn spec_tick(v: AnalyzerView, now: u64, read: i32) -> (AnalyzerView, bool) {
    let v1 = ampli_stage(vol_stage(v, now), now);
    if sample_due(v1, now) {
        let v2 = read_stage(v1, now, read);
        if v2.count >= v2.window {
            (window_stage(v2, now), true)
        } else {
            (v2, false)
        }
    } else {
        (v1, false)
    }
}

/// A tick at `now` with `read` stays within the integer ranges and never
/// meets a clock reading earlier than a timer it measures from.
pub open spec fn tick_ok(v: AnalyzerView, now: u64, read: i32) -> bool {
    let v0 = vol_stage(v, now);
    let v1 = ampli_stage(v0, now);
    let v2 = read_stage(v1, now, read);
    &&& now >= v.tmr_ampli
    &&& now >= v.tmr_dt
    &&& compute_ok(v.vol_f, millis(now))
    &&& ampli_due(v0, now) ==> compute_ok(max_f_fed(v0), millis(now)) && compute_ok(min_f_fed(v0), millis(now))
    &&& (sample_due(v1, now) && v2.count >= v2.window) ==> {
        &&& fits_i32(v2.max_f.fil - v2.min_f.fil)
        &&& (!v2.pulse_state && window_level(v2) <= v2.pulse_min) ==> now >= v2.tmr_pulse
    }
}

/// A fresh analyser at time `now`: sampling every 100 us, envelope every
/// 125 ms, windows of 20 samples, volume in 0..=100, no threshold, pulse
/// above 80 after a level of at most 0, pulse timeout 100 ms; volume filter
/// with coefficient 25 on a 20 ms period following rises, envelope filters
/// with coefficient 30 following rises (upper) and falls (lower).
pub open spec fn initial_analyzer(now: u64) -> AnalyzerView {
    AnalyzerView {
        dt: 100_000,
        ampli_dt: 125_000_000,
        window: 20,
        tmr_pulse: now,
        tmr_dt: now,
        tmr_ampli: now,
        raw: 0,
        raw_max: 0,
        max: 0,
        maxs: 0,
        mins: 1023,
        count: 0,
        vol_min: 0,
        vol_max: 100,
        trsh: 0,
        pulse_trsh: 80,
        pulse_min: 0,
        pulse_tout: 100_000_000,
        pulse: false,
        pulse_state: false,
        first: false,
        vol_f: FilterView { tmr: 0, dt: 20, k1: 25, k2: 12, pass: FF_PASS_MAX, fil: 0, raw: 0 },
        max_f: FilterView { tmr: 0, dt: 0, k1: 30, k2: 15, pass: FF_PASS_MAX, fil: 0, raw: 0 },
        min_f: FilterView { tmr: 0, dt: 0, k1: 30, k2: 15, pass: FF_PASS_MIN, fil: 0, raw: 0 },
    }
}

impl VolAnalyzer {
    /// An analyser with the default settings (see `initial_analyzer`), all
    /// timers started at `now`.
    pub fn new(now: u64) -> (a: VolAnalyzer)
        ensures
            analyzer_wf(a@),
            a@ == initial_analyzer(now),
    {
        let mut analyz = VolAnalyzer {
            _dt: 100_000,
            _ampliDt: 125_000_000,
            _window: 20,
            _tmrPulse: now,
            _tmrDt: now,
            _tmrAmpli: now,
            _raw: 0,
            _rawMax: 0,
            _max: 0,
            _maxs: 0,
            _mins: 1023,
            count: 0,
            _volMin: 0,
            _volMax: 100,
            _trsh: 0,
            _pulseTrsh: 80,
            _pulseMin: 0,
            _pulseTout: 100_000_000,
            _pulse: false,
            _pulseState: false,
            _first: false,
            maxF: FastFilterVA::new(None, None),
            minF: FastFilterVA::new(None, None),
            volF: FastFilterVA::new(None, None),
        };
        analyz.volF.set_dt(20);
        analyz.volF.set_pass(FF_PASS_MAX);
        analyz.maxF.set_pass(FF_PASS_MAX);
        analyz.minF.set_pass(FF_PASS_MIN);
        analyz.set_vol_k(25);
        analyz.set_ampli_k(30);
        analyz
    }

    /// The filtered volume.
    pub fn get_vol(&self) -> (v: i32)
        ensures
            v == self@.vol_f.fil,
    {
        self.volF.get_fil()
    }

    /// Reports a pending pulse once: returns whether one was pending and clears it.
    pub fn get_pulse(&mut self) -> (p: bool)
        ensures
            p == old(self)@.pulse,
            final(self)@ == pulse_taken(old(self)@),
    {
        if self._pulse {
            self._pulse = false;
            return true;
        }
        return false;
    }

    /// Linear rescaling with checked arithmetic (see `spec_map`).
    pub fn map(value: i32, from_min: i32, from_max: i32, to_min: i32, to_max: i32) -> (r: i32)
        ensures
            r == spec_map(value, from_min, from_max, to_min, to_max),
    {
        let val_sub_from_min: i32 = value.checked_sub(from_min).unwrap_or(i32::MIN);
        let tomax_sub_tomin: i32 = to_max.checked_sub(to_min).unwrap_or(i32::MIN);
        let frommax_sub_frommin: i32 = from_max.checked_sub(from_min).unwrap_or(i32::MIN);
        let checked_mult: i32 = val_sub_from_min.checked_mul(tomax_sub_tomin).unwrap_or(i32::MAX);
        let checked_divis: i32 = checked_mult.checked_div(frommax_sub_frommin).unwrap_or(i32::MAX);
        checked_divis.checked_add(to_min).unwrap_or(i32::MAX)
    }

    /// `value` clamped to `[min_value, max_value]`.
    pub fn constrain(value: i32, min_value: i32, max_value: i32) -> (r: i32)
        ensures
            r == spec_constrain(value, min_value, max_value),
    {
        if value < min_value {
            min_value
        } else if value > max_value {
            max_value
        } else {
            value
        }
    }

    /// The lower envelope.
    pub fn get_min(&self) -> (v: i32)
        ensures
            v == self@.min_f.fil,
    {
        self.minF.get_fil()
    }

    /// The upper envelope.
    pub fn get_max(&self) -> (v: i32)
        ensures
            v == self@.max_f.fil,
    {
        self.maxF.get_fil()
    }

    /// Sets the sampling period (nanoseconds).
    #[allow(non_snake_case)]
    pub fn setDt(&mut self, dt: u64)
        ensures
            final(self)@ == (AnalyzerView { dt: dt, ..old(self)@ }),
    {
        self._dt = dt;
    }

    /// Sets the coefficient of the volume filter.
    pub fn set_vol_k(&mut self, k: u8)
        ensures
            final(self)@ == (AnalyzerView { vol_f: FilterView { k1: k, k2: k / 2, ..old(self)@.vol_f }, ..old(self)@ }),
    {
        self.volF.set_k(k);
    }

    /// Sets the coefficient of both envelope filters.
    pub fn set_ampli_k(&mut self, k: u8)
        ensures
            final(self)@ == (AnalyzerView {
                max_f: FilterView { k1: k, k2: k / 2, ..old(self)@.max_f },
                min_f: FilterView { k1: k, k2: k / 2, ..old(self)@.min_f },
                ..old(self)@
            }),
    {
        self.maxF.set_k(k);
        self.minF.set_k(k);
    }

    /// One input sample at time `now` (nanoseconds): runs the volume filter,
    /// the envelope on its period and the sampling on its period; returns
    /// whether a window was completed (and a new volume level produced).
    pub fn tick(&mut self, now: u64, this_read: i32) -> (done: bool)
        requires
            analyzer_wf(old(self)@),
            tick_ok(old(self)@, now, this_read),
        ensures
            analyzer_wf(final(self)@),
            (final(self)@, done) == spec_tick(old(self)@, now, this_read),
    {
        let ghost v = self@;
        let ms: u64 = now / 1_000_000;
        self.volF.compute(ms);
        let ghost v0 = self@;
        assert(v0 == vol_stage(v, now));
        if now - self._tmrAmpli >= self._ampliDt {
            self._tmrAmpli = now;
            self.maxF.set_raw(self._maxs);
            self.minF.set_raw(self._mins);
            self.maxF.compute(ms);
            self.minF.compute(ms);
            self._maxs = 0;
            self._mins = 1023;
        }
        let ghost v1 = self@;
        assert(v1 == ampli_stage(v0, now));
        if now - self._tmrDt >= self._dt {
            self._tmrDt = now;
            if this_read > self._max {
                self._max = this_read;
            }
            if !self._first {
                self._first = true;
                self.maxF.set_fil(this_read);
                self.minF.set_fil(this_read);
            }
            self.count = self.count + 1;
            let ghost v2 = self@;
            assert(v2 == read_stage(v1, now, this_read));
            if self.count >= self._window {
                self._raw = self._max;
                if self._max > self._maxs {
                    self._maxs = self._max;
                }
                if self._max < self._mins {
                    self._mins = self._max;
                }
                self._rawMax = self._maxs;
                if self.get_max() - self.get_min() < self._trsh {
                    self._max = 0;
                }
                self._max = Self::constrain(
                    Self::map(self._max, self.get_min(), self.get_max(), self._volMin, self._volMax),
                    self._volMin,
                    self._volMax,
                );
                assert(self._max == window_level(v2));
                self.volF.set_raw(self._max);
                if !self._pulseState {
                    if self._max <= self._pulseMin && now - self._tmrPulse >= self._pulseTout {
                        self._pulseState = true;
                    }
                } else {
                    if self._max > self._pulseTrsh {
                        self._pulseState = false;
                        self._pulse = true;
                        self._tmrPulse = now;
                    }
                }
                self._max = 0;
                self.count = 0;
                assert(self@ == window_stage(v2, now));
                return true;
            }
        }
        return false;
    }

    /// Whether a tick at `now` with `this_read` is safe (see `tick_ok`).
    pub fn tick_ok_at(&self, now: u64, this_read: i32) -> (r: bool)
        requires
            analyzer_wf(self@),
        ensures
            r == tick_ok(self@, now, this_read),
    {
        let ghost v = self@;
        let ghost v0 = vol_stage(v, now);
        let ghost v1 = ampli_stage(v0, now);
        let ghost v2 = read_stage(v1, now, this_read);
        if now < self._tmrAmpli || now < self._tmrDt {
            return false;
        }
        let ms: u64 = now / 1_000_000;
        assert(FilterView { raw: self.volF@.raw, ..self.volF@ } == self.volF@);
        if !self.volF.compute_ok_with(self.volF.get_raw(), ms) {
            return false;
        }
        let mut maxfil: i32 = self.maxF.get_fil();
        let mut minfil: i32 = self.minF.get_fil();
        if now - self._tmrAmpli >= self._ampliDt {
            assert(max_f_fed(v0) == FilterView { raw: self._maxs, ..self.maxF@ });
            assert(min_f_fed(v0) == FilterView { raw: self._mins, ..self.minF@ });
            if !self.maxF.compute_ok_with(self._maxs, ms) || !self.minF.compute_ok_with(self._mins, ms) {
                return false;
            }
            maxfil = self.maxF.computed_fil_with(self._maxs, ms);
            minfil = self.minF.computed_fil_with(self._mins, ms);
        }
        assert(maxfil == v1.max_f.fil && minfil == v1.min_f.fil);
        if !(now - self._tmrDt >= self._dt) {
            return true;
        }
        if self.count + 1 < self._window {
            return true;
        }
        let max2: i32 = if this_read > self._max { this_read } else { self._max };
        if !self._first {
            maxfil = this_read;
            minfil = this_read;
        }
        assert(maxfil == v2.max_f.fil && minfil == v2.min_f.fil && max2 == v2.max);
        let spread: i64 = maxfil as i64 - minfil as i64;
        if spread < i32::MIN as i64 || spread > i32::MAX as i64 {
            return false;
        }
        if !self._pulseState {
            let m: i32 = if maxfil - minfil < self._trsh { 0 } else { max2 };
            let level = Self::constrain(
                Self::map(m, minfil, maxfil, self._volMin, self._volMax),
                self._volMin,
                self._volMax,
            );
            assert(level == window_level(v2));
            if level <= self._pulseMin && now < self._tmrPulse {
                return false;
            }
        }
        true
    }

    /// Sets the public tuning fields at once (for verified callers in other
    /// modules, which cannot assign them one by one).
    pub fn set_levels(
        &mut self,
        trsh: i32,
        vol_min: i32,
        vol_max: i32,
        pulse_trsh: i32,
        pulse_min: i32,
        pulse_tout: u64,
    )
        ensures
            final(self)@ == (AnalyzerView {
                trsh: trsh,
                vol_min: vol_min,
                vol_max: vol_max,
                pulse_trsh: pulse_trsh,
                pulse_min: pulse_min,
                pulse_tout: pulse_tout,
                ..old(self)@
            }),
    {
        self._trsh = trsh;
        self._volMin = vol_min;
        self._volMax = vol_max;
        self._pulseTrsh = pulse_trsh;
        self._pulseMin = pulse_min;
        self._pulseTout = pulse_tout;
    }
}

/// Dividing a product by one of its non-zero factors gives the other back.
pub proof fn lemma_trunc_div_cancel(c: int, b: int)
    requires
        c != 0,
    ensures
        trunc_div(c * b, c) == b,
{
    let x = c * b;
    if x == 0 {
        assert(b == 0) by (nonlinear_arith)
            requires
                c * b == 0,
                c != 0,
        ;
    } else if x > 0 && c > 0 {
        assert(x / c == b) by (nonlinear_arith)
            requires
                x == c * b,
                c > 0,
        ;
    } else if x < 0 && c < 0 {
        assert((x * -1) / (c * -1) == b) by (nonlinear_arith)
            requires
                x == c * b,
                c < 0,
        ;
    } else if x < 0 {
        assert(((x * -1) / c) * -1 == b) by (nonlinear_arith)
            requires
                x == c * b,
                c > 0,
        ;
    } else {
        assert((x / (c * -1)) * -1 == b) by (nonlinear_arith)
            requires
                x == c * b,
                c < 0,
        ;
    }
}

/// When no step leaves `i32` and the source range is not empty, `map` is the
/// rescaling `(value - from_min) * (to_max - to_min) / (from_max - from_min) + to_min`
/// with the division rounding toward zero.
pub proof fn lemma_map_formula(value: i32, from_min: i32, from_max: i32, to_min: i32, to_max: i32)
    requires
        from_max != from_min,
        fits_i32(value - from_min),
        fits_i32(to_max - to_min),
        fits_i32(from_max - from_min),
        fits_i32((value - from_min) * (to_max - to_min)),
        fits_i32(trunc_div((value - from_min) * (to_max - to_min), from_max - from_min) + to_min),
        fits_i32(trunc_div((value - from_min) * (to_max - to_min), from_max - from_min)),
    ensures
        spec_map(value, from_min, from_max, to_min, to_max) == trunc_div(
            (value - from_min) * (to_max - to_min),
            from_max - from_min,
        ) + to_min,
{
}

/// `map` sends the ends of the source range to the ends of the target range
/// (when the arithmetic stays within `i32`).
pub proof fn lemma_map_endpoints(from_min: i32, from_max: i32, to_min: i32, to_max: i32)
    requires
        from_max != from_min,
        fits_i32(to_max - to_min),
        fits_i32(from_max - from_min),
    ensures
        spec_map(from_min, from_min, from_max, to_min, to_max) == to_min,
        fits_i32((from_max - from_min) * (to_max - to_min)) ==> spec_map(
            from_max,
            from_min,
            from_max,
            to_min,
            to_max,
        ) == to_max,
{
    let b = to_max - to_min;
    let c = from_max - from_min;
    assert(0 * b == 0);
    lemma_trunc_div_cancel(c, 0);
    lemma_trunc_div_cancel(c, b);
}

/// `constrain` lands in the range, and leaves a value already there alone.
pub proof fn lemma_constrain_bounds(value: i32, min_value: i32, max_value: i32)
    requires
        min_value <= max_value,
    ensures
        min_value <= spec_constrain(value, min_value, max_value) <= max_value,
        min_value <= value <= max_value ==> spec_constrain(value, min_value, max_value) == value,
{
}

/// Whenever a tick completes a window, the window restarts, the volume fed
/// to the volume filter lies in `[vol_min, vol_max]` (a non-empty range), and
/// the window counter stays below the window length.
pub proof fn lemma_tick_window(v: AnalyzerView, now: u64, read: i32)
    requires
        analyzer_wf(v),
    ensures
        analyzer_wf(spec_tick(v, now, read).0),
        spec_tick(v, now, read).1 ==> spec_tick(v, now, read).0.count == 0 && spec_tick(v, now, read).0.max == 0,
        spec_tick(v, now, read).1 && v.vol_min <= v.vol_max ==> v.vol_min <= spec_tick(v, now, read).0.vol_f.raw <= v.vol_max,
        !spec_tick(v, now, read).1 ==> spec_tick(v, now, read).0.vol_f.raw == v.vol_f.raw,
{
}

/// The state after reporting the pending pulse.
pub open spec fn pulse_taken(v: AnalyzerView) -> AnalyzerView {
    AnalyzerView { pulse: false, ..v }
}

/// A pulse is reported once: right after `get_pulse`, another call reports nothing.
pub proof fn lemma_pulse_reported_once(v: AnalyzerView)
    ensures
        !pulse_taken(v).pulse,
        pulse_taken(pulse_taken(v)) == pulse_taken(v),
{
}

/// A pulse only fires on an armed detector, and firing disarms it; the
/// detector arms only after the pulse timeout.
pub proof fn lemma_pulse_cycle(v: AnalyzerView, now: u64)
    ensures
        pulse_fires(v) ==> v.pulse_state && !window_stage(v, now).pulse_state && window_stage(v, now).pulse
            && window_stage(v, now).tmr_pulse == now,
        pulse_arms(v, now) ==> !v.pulse_state && window_stage(v, now).pulse_state && now - v.tmr_pulse >= v.pulse_tout,
        !pulse_fires(v) ==> window_stage(v, now).pulse == v.pulse,
{
}

/// The state after ticks with the samples `s` (time, value), in order.
pub open spec fn run_ticks(v: AnalyzerView, s: Seq<(u64, i32)>) -> AnalyzerView
    decreases s.len(),
{
    if s.len() == 0 {
        v
    } else {
        spec_tick(run_ticks(v, s.drop_last()), s.last().0, s.last().1).0
    }
}

/// Whether the last of the ticks with the samples `s` completed a window.
pub open spec fn last_tick_done(v: AnalyzerView, s: Seq<(u64, i32)>) -> bool {
    s.len() > 0 && spec_tick(run_ticks(v, s.drop_last()), s.last().0, s.last().1).1
}

/// Every tick of the run takes its sample: at least the sampling period has
/// passed since the previous sample each time.
pub open spec fn all_sampled(v: AnalyzerView, s: Seq<(u64, i32)>) -> bool {
    forall|i: int| 0 <= i < s.len() ==> sample_due(#[trigger] run_ticks(v, s.take(i)), s[i].0)
}

/// What one tick does to the window counter: a tick that samples advances
/// it and completes the window exactly when it reaches the window length
/// (restarting it at 0); a tick that does not sample leaves it alone.
pub proof fn lemma_tick_counter(v: AnalyzerView, now: u64, read: i32)
    requires
        analyzer_wf(v),
    ensures
        spec_tick(v, now, read).0.window == v.window,
        spec_tick(v, now, read).0.dt == v.dt,
        sample_due(v, now) ==> (spec_tick(v, now, read).1 <==> v.count + 1 == v.window),
        sample_due(v, now) ==> spec_tick(v, now, read).0.count == (v.count + 1) % (v.window as int),
        !sample_due(v, now) ==> !spec_tick(v, now, read).1 && spec_tick(v, now, read).0.count == v.count,
{
    let v1 = ampli_stage(vol_stage(v, now), now);
    assert(sample_due(v1, now) == sample_due(v, now));
    if sample_due(v, now) {
        if v.count + 1 == v.window {
            assert((v.count + 1) % (v.window as int) == 0) by (nonlinear_arith)
                requires
                    v.count + 1 == v.window,
                    v.window > 0,
            ;
        } else {
            assert((v.count + 1) % (v.window as int) == v.count + 1) by (nonlinear_arith)
                requires
                    0 <= v.count + 1 < v.window,
            ;
        }
    }
}

/// From a restarted window, when every tick samples, exactly every
/// window-th tick completes a window: after `n` ticks the counter stands at
/// `n` modulo the window length, and the `n`-th tick completes a window
/// exactly when `n` is a multiple of it.
pub proof fn lemma_window_every_nth(v: AnalyzerView, s: Seq<(u64, i32)>)
    requires
        analyzer_wf(v),
        v.count == 0,
        all_sampled(v, s),
    ensures
        analyzer_wf(run_ticks(v, s)),
        run_ticks(v, s).window == v.window,
        run_ticks(v, s).count == (s.len() as int) % (v.window as int),
        s.len() > 0 ==> (last_tick_done(v, s) <==> (s.len() as int) % (v.window as int) == 0),
    decreases s.len(),
{
    if s.len() == 0 {
        assert(0int % (v.window as int) == 0) by (nonlinear_arith)
            requires
                v.window > 0,
        ;
    } else {
        let p = s.drop_last();
        assert forall|i: int| 0 <= i < p.len() implies sample_due(#[trigger] run_ticks(v, p.take(i)), p[i].0) by {
            assert(p.take(i) =~= s.take(i));
            assert(sample_due(run_ticks(v, s.take(i)), s[i].0));
        }
        lemma_window_every_nth(v, p);
        let w = run_ticks(v, p);
        assert(s.take(p.len() as int) =~= p);
        assert(sample_due(run_ticks(v, s.take(p.len() as int)), s[p.len() as int].0));
        lemma_tick_counter(w, s.last().0, s.last().1);
        lemma_tick_window(w, s.last().0, s.last().1);
        let n = s.len() as int;
        let k = v.window as int;
        assert((p.len() as int % k + 1) % k == n % k) by (nonlinear_arith)
            requires
                n == p.len() + 1,
                k > 0,
        ;
        assert((p.len() as int % k + 1 == k) <==> n % k == 0) by (nonlinear_arith)
            requires
                n == p.len() + 1,
                k > 0,
        ;
    }
}

/// The volume stays in range: its raw input is 0 (no window yet) or within
/// `[vol_min, vol_max]`, and the filtered volume lies within the range
/// widened to include 0.  The range is non-empty and the volume filter's
/// coefficients are at most 32.
pub open spec fn volume_in_range(v: AnalyzerView) -> bool {
    let lo = if v.vol_min < 0 { v.vol_min } else { 0i32 };
    let hi = if v.vol_max > 0 { v.vol_max } else { 0i32 };
    &&& v.vol_min <= v.vol_max
    &&& v.vol_f.k1 <= 32
    &&& v.vol_f.k2 <= 32
    &&& v.vol_f.raw == 0 || v.vol_min <= v.vol_f.raw <= v.vol_max
    &&& lo <= v.vol_f.fil <= hi
}

/// A tick keeps the volume in range, and changes neither the range nor the
/// volume filter's coefficients.
pub proof fn lemma_tick_volume_in_range(v: AnalyzerView, now: u64, read: i32)
    requires
        volume_in_range(v),
    ensures
        volume_in_range(spec_tick(v, now, read).0),
        spec_tick(v, now, read).0.vol_min == v.vol_min,
        spec_tick(v, now, read).0.vol_max == v.vol_max,
        spec_tick(v, now, read).0.vol_f.k1 == v.vol_f.k1,
        spec_tick(v, now, read).0.vol_f.k2 == v.vol_f.k2,
{
    let lo = if v.vol_min < 0 { v.vol_min } else { 0i32 };
    let hi = if v.vol_max > 0 { v.vol_max } else { 0i32 };
    let f = v.vol_f;
    assert(blend_coefficient(f) <= 32);
    lemma_blend_between(f);
    assert(lo <= f.raw <= hi);
    let v0 = vol_stage(v, now);
    assert(lo <= v0.vol_f.fil <= hi);
    let v1 = ampli_stage(v0, now);
    assert(v1.vol_f == v0.vol_f);
    if sample_due(v1, now) {
        let v2 = read_stage(v1, now, read);
        if v2.count >= v2.window {
            lemma_constrain_bounds(
                spec_map(
                    if v2.max_f.fil - v2.min_f.fil < v2.trsh { 0i32 } else { v2.max },
                    v2.min_f.fil,
                    v2.max_f.fil,
                    v2.vol_min,
                    v2.vol_max,
                ),
                v2.vol_min,
                v2.vol_max,
            );
        }
    }
}

/// Over any run of ticks the volume stays in range.
pub proof fn lemma_run_volume_in_range(v: AnalyzerView, s: Seq<(u64, i32)>)
    requires
        volume_in_range(v),
    ensures
        volume_in_range(run_ticks(v, s)),
        run_ticks(v, s).vol_min == v.vol_min,
        run_ticks(v, s).vol_max == v.vol_max,
    decreases s.len(),
{
    if s.len() > 0 {
        lemma_run_volume_in_range(v, s.drop_last());
        lemma_tick_volume_in_range(run_ticks(v, s.drop_last()), s.last().0, s.last().1);
    }
}

/// A fresh analyser has its volume in range.
pub proof fn lemma_initial_volume_in_range(now: u64)
    ensures
        volume_in_range(initial_analyzer(now)),
{
}

/// What one tick does to the pulse detector: a tick that completes no window
/// leaves it alone; one that does fires a pulse (recording the time) when the
/// detector is armed and the new level `m` exceeds `pulse_trsh`, arms it when
/// it is disarmed, `m` is at most `pulse_min` and the pulse timeout has
/// elapsed, and else leaves the armed state alone.  No tick clears a
/// pending pulse.
pub proof fn lemma_tick_pulse(v: AnalyzerView, now: u64, read: i32)
    ensures
        ({
            let (w, done) = spec_tick(v, now, read);
            let m = w.vol_f.raw;
            &&& !done ==> w.pulse == v.pulse && w.pulse_state == v.pulse_state && w.tmr_pulse == v.tmr_pulse
            &&& done && v.pulse_state && m > v.pulse_trsh ==> w.pulse && !w.pulse_state && w.tmr_pulse == now
            &&& done && !v.pulse_state && m <= v.pulse_min && now - v.tmr_pulse >= v.pulse_tout ==> w.pulse_state
            &&& done && !(v.pulse_state && m > v.pulse_trsh) && !(!v.pulse_state && m <= v.pulse_min && now
                - v.tmr_pulse >= v.pulse_tout) ==> w.pulse_state == v.pulse_state && w.pulse == v.pulse
                && w.tmr_pulse == v.tmr_pulse
            &&& v.pulse ==> w.pulse
        }),
{
}

/// `m` is the largest of 0 and the sample values of `s`: it is at least 0
/// and at least every sample, and it is 0 or one of the samples.
pub open spec fn is_window_max(m: i32, s: Seq<(u64, i32)>) -> bool {
    &&& 0 <= m
    &&& forall|i: int| 0 <= i < s.len() ==> #[trigger] s[i].1 <= m
    &&& (m == 0 || exists|i: int| 0 <= i < s.len() && #[trigger] s[i].1 == m)
}

/// Inside a window: after sampled ticks from a restarted window (counter 0,
/// window maximum 0) that do not yet fill it, the window maximum is the
/// largest sample read so far (or 0).
pub proof fn lemma_window_max_so_far(v: AnalyzerView, s: Seq<(u64, i32)>)
    requires
        analyzer_wf(v),
        v.count == 0,
        v.max == 0,
        all_sampled(v, s),
        s.len() < v.window,
    ensures
        analyzer_wf(run_ticks(v, s)),
        run_ticks(v, s).count == s.len(),
        run_ticks(v, s).window == v.window,
        is_window_max(run_ticks(v, s).max, s),
    decreases s.len(),
{
    if s.len() > 0 {
        let p = s.drop_last();
        assert forall|i: int| 0 <= i < p.len() implies sample_due(#[trigger] run_ticks(v, p.take(i)), p[i].0) by {
            assert(p.take(i) =~= s.take(i));
            assert(sample_due(run_ticks(v, s.take(i)), s[i].0));
        }
        lemma_window_max_so_far(v, p);
        let w = run_ticks(v, p);
        assert(s.take(p.len() as int) =~= p);
        assert(sample_due(run_ticks(v, s.take(p.len() as int)), s[p.len() as int].0));
        let (now, read) = s.last();
        lemma_tick_counter(w, now, read);
        lemma_tick_window(w, now, read);
        let x = run_ticks(v, s);
        assert(x.max == if read > w.max { read } else { w.max });
        assert forall|i: int| 0 <= i < s.len() implies #[trigger] s[i].1 <= x.max by {
            if i < p.len() {
                assert(p[i].1 <= w.max);
            }
        }
        if x.max != 0 {
            if read > w.max {
                assert(s[p.len() as int].1 == x.max);
            } else {
                let j = choose|j: int| 0 <= j < p.len() && #[trigger] p[j].1 == w.max;
                assert(s[j].1 == x.max);
            }
        }
    }
}

/// A full window: `window` sampled ticks from a restarted window complete
/// it on the last one; the window's raw value is the largest sample of the
/// window (or 0), and the level fed to the volume filter is that value
/// (or 0 when the envelope is narrower than the threshold) rescaled from the
/// envelope to `[vol_min, vol_max]` and clamped there; the window restarts.
pub proof fn lemma_window_level_from_max(v: AnalyzerView, s: Seq<(u64, i32)>)
    requires
        analyzer_wf(v),
        v.count == 0,
        v.max == 0,
        all_sampled(v, s),
        s.len() == v.window,
    ensures
        last_tick_done(v, s),
        ({
            let w = run_ticks(v, s);
            &&& is_window_max(w.raw, s)
            &&& w.vol_f.raw == spec_constrain(
                spec_map(
                    if w.max_f.fil - w.min_f.fil < w.trsh { 0i32 } else { w.raw },
                    w.min_f.fil,
                    w.max_f.fil,
                    w.vol_min,
                    w.vol_max,
                ),
                w.vol_min,
                w.vol_max,
            )
            &&& w.count == 0
            &&& w.max == 0
        }),
{
    let p = s.drop_last();
    assert forall|i: int| 0 <= i < p.len() implies sample_due(#[trigger] run_ticks(v, p.take(i)), p[i].0) by {
        assert(p.take(i) =~= s.take(i));
        assert(sample_due(run_ticks(v, s.take(i)), s[i].0));
    }
    lemma_window_max_so_far(v, p);
    let w = run_ticks(v, p);
    assert(s.take(p.len() as int) =~= p);
    assert(sample_due(run_ticks(v, s.take(p.len() as int)), s[p.len() as int].0));
    let (now, read) = s.last();
    lemma_tick_counter(w, now, read);
    let x = run_ticks(v, s);
    assert(x.raw == if read > w.max { read } else { w.max });
    assert forall|i: int| 0 <= i < s.len() implies #[trigger] s[i].1 <= x.raw by {
        if i < p.len() {
            assert(p[i].1 <= w.max);
        }
    }
    if x.raw != 0 {
        if read > w.max {
            assert(s[p.len() as int].1 == x.raw);
        } else {
            let j = choose|j: int| 0 <= j < p.len() && #[trigger] p[j].1 == w.max;
            assert(s[j].1 == x.raw);
        }
    }
}

} // verus!
