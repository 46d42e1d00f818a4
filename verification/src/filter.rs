use vstd::prelude::*;

verus! {

/// Pass mode in which the filter follows rises quickly (maximum follower).
pub const FF_PASS_MAX: u8 = 1;

/// Pass mode in which the filter follows falls quickly (minimum follower).
pub const FF_PASS_MIN: u8 = 2;

/// A fast integer exponential filter with coefficient `k / 32`, optionally
/// running on a timer, and optionally following one direction faster.
pub struct FastFilterVA {
    _tmr: u64,
    _dt: i32,
    _k1: u8,
    _k2: u8,
    _pass: u8,
    _raw_f: i32,
    _raw: i32,
}

/// The state of a filter as the contracts speak of it.
pub struct FilterView {
    /// Time in milliseconds of the last timed computation.
    pub tmr: u64,
    /// Period of timed computation in milliseconds (0: on every call).
    pub dt: i32,
    /// Coefficient used normally.
    pub k1: u8,
    /// Coefficient used when the pass mode applies.
    pub k2: u8,
    /// Pass mode.
    pub pass: u8,
    /// Filtered value.
    pub fil: i32,
    /// Last raw value.
    pub raw: i32,
}

impl View for FastFilterVA {
    type V = FilterView;

    closed spec fn view(&self) -> FilterView {
        FilterView {
            tmr: self._tmr,
            dt: self._dt,
            k1: self._k1,
            k2: self._k2,
            pass: self._pass,
            fil: self._raw_f,
            raw: self._raw,
        }
    }
}

/// The coefficient that the next computation uses.
pub open spec fn blend_coefficient(v: FilterView) -> u8 {
    if (v.pass == FF_PASS_MAX && v.raw > v.fil) || (v.pass == FF_PASS_MIN && v.raw < v.fil) {
        v.k2
    } else {
        v.k1
    }
}

/// `k * fil + (32 - k) * raw`, the weighted sum before the division by 32.
pub open spec fn blend_sum(k: u8, fil: i32, raw: i32) -> int {
    k * fil + (32 - k) * raw
}

pub open spec fn fits_i32(x: int) -> bool {
    i32::MIN <= x <= i32::MAX
}

/// The computation of the next filtered value stays within `i32`.
pub open spec fn blend_ok(v: FilterView) -> bool {
    let k = blend_coefficient(v);
    &&& fits_i32(k * v.fil)
    &&& fits_i32((32 - k) * v.raw)
    &&& fits_i32(blend_sum(k, v.fil, v.raw))
}

/// The filtered value after one computation: the weighted sum divided by 32,
/// rounded down.
pub open spec fn blended_value(v: FilterView) -> i32 {
    (blend_sum(blend_coefficient(v), v.fil, v.raw) / 32) as i32
}

/// Whether a timed computation at time `now` (milliseconds) is due.
pub open spec fn compute_due(v: FilterView, now: u64) -> bool {
    v.dt == 0 || now - v.tmr >= (v.dt as u64)
}

/// A timed computation at `now` neither underflows the clock difference nor
/// overflows the weighted sum.
pub open spec fn compute_ok(v: FilterView, now: u64) -> bool {
    &&& v.dt != 0 ==> now >= v.tmr
    &&& compute_due(v, now) ==> blend_ok(v)
}

/// The state after a timed computation at `now`.
pub open spec fn computed(v: FilterView, now: u64) -> FilterView {
    if compute_due(v, now) {
        FilterView { tmr: now, fil: blended_value(v), ..v }
    } else {
        v
    }
}

impl FastFilterVA {
    /// A filter with coefficient `k` (default 20) and period `dt` (default 0),
    /// filtered and raw values 0, no pass mode.
    pub fn new(k: Option<u8>, dt: Option<i32>) -> (f: Self)
        ensures
            f@ == (FilterView {
                tmr: 0,
                dt: match dt { Some(d) => d, None => 0 },
                k1: match k { Some(x) => x, None => 20 },
                k2: (match k { Some(x) => x, None => 20u8 }) / 2,
                pass: 0,
                fil: 0,
                raw: 0,
            }),
    {
        let mut obj = FastFilterVA { _tmr: 0, _dt: 0, _k1: 20, _k2: 12, _pass: 0, _raw_f: 0, _raw: 0 };
        obj.set_k(k.unwrap_or(20));
        obj.set_dt(dt.unwrap_or(0));
        obj
    }

    /// Sets the coefficient (meant to lie in 0..=31); the pass coefficient is half of it.
    pub fn set_k(&mut self, k: u8)
        ensures
            final(self)@ == (FilterView { k1: k, k2: k / 2, ..old(self)@ }),
    {
        self._k1 = k;
        self._k2 = k / 2;
    }

    /// Sets the period of timed computation.
    pub fn set_dt(&mut self, dt: i32)
        ensures
            final(self)@ == (FilterView { dt: dt, ..old(self)@ }),
    {
        self._dt = dt;
    }

    /// Sets the pass mode (`FF_PASS_MAX` or `FF_PASS_MIN`).
    pub fn set_pass(&mut self, pass: u8)
        ensures
            final(self)@ == (FilterView { pass: pass, ..old(self)@ }),
    {
        self._pass = pass;
    }

    /// Sets the raw value to filter.
    pub fn set_raw(&mut self, raw: i32)
        ensures
            final(self)@ == (FilterView { raw: raw, ..old(self)@ }),
    {
        self._raw = raw;
    }

    /// Sets the filtered value.
    pub fn set_fil(&mut self, fil: i32)
        ensures
            final(self)@ == (FilterView { fil: fil, ..old(self)@ }),
    {
        self._raw_f = fil;
    }

    /// Computes on the timer: at time `now` (milliseconds) computes when the
    /// period is 0 or has elapsed since the last timed computation.
    pub fn compute(&mut self, now: u64)
        requires
            compute_ok(old(self)@, now),
        ensures
            final(self)@ == computed(old(self)@, now),
    {
        if self._dt == 0 || now - self._tmr >= self._dt as u64 {
            self._tmr = now;
            self.compute_now();
        }
    }

    /// Computes the next filtered value now.
    pub fn compute_now(&mut self)
        requires
            blend_ok(old(self)@),
        ensures
            final(self)@ == (FilterView { fil: blended_value(old(self)@), ..old(self)@ }),
    {
        let mut k = self._k1;
        if (self._pass == FF_PASS_MAX && self._raw > self._raw_f) || (self._pass == FF_PASS_MIN
            && self._raw < self._raw_f) {
            k = self._k2;
        }
        let a: i32 = (k as i32) * self._raw_f;
        let b: i32 = (32i32 - (k as i32)) * self._raw;
        let prom: i32 = a + b;
        assert(prom >> 5u32 == prom / 32) by (bit_vector);
        self._raw_f = prom >> 5u32;
    }

    /// The filtered value.
    pub fn get_fil(&self) -> (v: i32)
        ensures
            v == self@.fil,
    {
        self._raw_f
    }

    /// The last raw value.
    pub fn get_raw(&self) -> (v: i32)
        ensures
            v == self@.raw,
    {
        self._raw
    }

    /// Whether a computation after setting the raw value to `raw` stays within
    /// `i32` (see `blend_ok`).
    pub fn blend_ok_with(&self, raw: i32) -> (r: bool)
        ensures
            r == blend_ok(FilterView { raw: raw, ..self@ }),
    {
        let k: u8 = if (self._pass == FF_PASS_MAX && raw > self._raw_f) || (self._pass == FF_PASS_MIN
            && raw < self._raw_f) {
            self._k2
        } else {
            self._k1
        };
        let kk: i64 = k as i64;
        let f: i64 = self._raw_f as i64;
        let r: i64 = raw as i64;
        assert(-0x100_0000_0000 <= kk * f <= 0x100_0000_0000) by (nonlinear_arith)
            requires
                0 <= kk <= 255,
                i32::MIN <= f <= i32::MAX,
        ;
        assert(-0x100_0000_0000 <= (32 - kk) * r <= 0x100_0000_0000) by (nonlinear_arith)
            requires
                -223 <= 32 - kk <= 32,
                i32::MIN <= r <= i32::MAX,
        ;
        let a: i64 = kk * f;
        let b: i64 = (32i64 - kk) * r;
        let lo: i64 = i32::MIN as i64;
        let hi: i64 = i32::MAX as i64;
        lo <= a && a <= hi && lo <= b && b <= hi && lo <= a + b && a + b <= hi
    }

    /// The filtered value that a computation after setting the raw value to
    /// `raw` produces.
    pub fn blended_with(&self, raw: i32) -> (f: i32)
        requires
            blend_ok(FilterView { raw: raw, ..self@ }),
        ensures
            f == blended_value(FilterView { raw: raw, ..self@ }),
    {
        let k: u8 = if (self._pass == FF_PASS_MAX && raw > self._raw_f) || (self._pass == FF_PASS_MIN
            && raw < self._raw_f) {
            self._k2
        } else {
            self._k1
        };
        let prom: i32 = (k as i32) * self._raw_f + (32i32 - (k as i32)) * raw;
        assert(prom >> 5u32 == prom / 32) by (bit_vector);
        prom >> 5u32
    }

    /// Whether a timed computation at `now`, after setting the raw value to
    /// `raw`, is safe (see `compute_ok`).
    pub fn compute_ok_with(&self, raw: i32, now: u64) -> (r: bool)
        ensures
            r == compute_ok(FilterView { raw: raw, ..self@ }, now),
    {
        if self._dt != 0 && now < self._tmr {
            return false;
        }
        if self._dt == 0 || now - self._tmr >= self._dt as u64 {
            self.blend_ok_with(raw)
        } else {
            true
        }
    }

    /// The filtered value after a timed computation at `now`, after setting
    /// the raw value to `raw`.
    pub fn computed_fil_with(&self, raw: i32, now: u64) -> (f: i32)
        requires
            compute_ok(FilterView { raw: raw, ..self@ }, now),
        ensures
            f == computed(FilterView { raw: raw, ..self@ }, now).fil,
    {
        if self._dt == 0 || now - self._tmr >= self._dt as u64 {
            self.blended_with(raw)
        } else {
            self._raw_f
        }
    }
}

/// The filter averages: with a coefficient of at most 32, the new filtered
/// value lies between the old filtered value and the raw value.
pub proof fn lemma_blend_between(v: FilterView)
    requires
        blend_coefficient(v) <= 32,
    ensures
        v.fil <= v.raw ==> v.fil <= blended_value(v) <= v.raw,
        v.raw <= v.fil ==> v.raw <= blended_value(v) <= v.fil,
{
    let k = blend_coefficient(v) as int;
    let f = v.fil as int;
    let r = v.raw as int;
    let sum = blend_sum(blend_coefficient(v), v.fil, v.raw);
    assert(sum == k * f + (32 - k) * r);
    assert(f <= r ==> 32 * f <= sum <= 32 * r) by (nonlinear_arith)
        requires
            sum == k * f + (32 - k) * r,
            0 <= k <= 32,
    ;
    assert(r <= f ==> 32 * r <= sum <= 32 * f) by (nonlinear_arith)
        requires
            sum == k * f + (32 - k) * r,
            0 <= k <= 32,
    ;
    assert(f <= r ==> f <= sum / 32 <= r) by (nonlinear_arith)
        requires
            f <= r ==> 32 * f <= sum <= 32 * r,
    ;
    assert(r <= f ==> r <= sum / 32 <= f) by (nonlinear_arith)
        requires
            r <= f ==> 32 * r <= sum <= 32 * f,
    ;
}

/// A filter whose raw value equals its filtered value stays where it is,
/// whatever its coefficient.
pub proof fn lemma_blend_fixed_point(v: FilterView)
    requires
        v.raw == v.fil,
    ensures
        blended_value(v) == v.fil,
{
    let k = blend_coefficient(v) as int;
    let f = v.fil as int;
    assert(k * f + (32 - k) * f == 32 * f) by (nonlinear_arith);
    assert((32 * f) / 32 == f) by (nonlinear_arith);
}

/// Which coefficient a computation uses: the half coefficient `k2` only for
/// a rise in maximum-follower mode or a fall in minimum-follower mode; in
/// every other case (a fall or no change in maximum-follower mode, a rise or
/// no change in minimum-follower mode, any other mode) the normal `k1`.
pub proof fn lemma_pass_modes(v: FilterView)
    ensures
        v.pass == FF_PASS_MAX && v.raw > v.fil ==> blended_value(v) == ((v.k2 * v.fil + (32 - v.k2)
            * v.raw) / 32) as i32,
        v.pass == FF_PASS_MIN && v.raw < v.fil ==> blended_value(v) == ((v.k2 * v.fil + (32 - v.k2)
            * v.raw) / 32) as i32,
        v.pass == FF_PASS_MAX && v.raw <= v.fil ==> blended_value(v) == ((v.k1 * v.fil + (32 - v.k1)
            * v.raw) / 32) as i32,
        v.pass == FF_PASS_MIN && v.raw >= v.fil ==> blended_value(v) == ((v.k1 * v.fil + (32 - v.k1)
            * v.raw) / 32) as i32,
        v.pass != FF_PASS_MAX && v.pass != FF_PASS_MIN ==> blended_value(v) == ((v.k1 * v.fil + (32
            - v.k1) * v.raw) / 32) as i32,
{
}

} // verus!
