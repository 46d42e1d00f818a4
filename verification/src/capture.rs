use vstd::prelude::*;

use crate::analyzer::{
    analyzer_wf, initial_analyzer, lemma_tick_volume_in_range, spec_tick, tick_ok,
    volume_in_range, AnalyzerView, VolAnalyzer,
};
use crate::color::{wheel_color, RGBColor};
use crate::filter::FilterView;

verus! {

/// Wheel step after an ordinary window.
pub const STEP_NORMAL: u8 = 2;

/// Wheel step after a window with a pulse (about half a turn).
pub const STEP_PULSE: u8 = 129;

/// The wheel position `step` places after `counter`, wrapping past 255 back
/// to the start (255 itself is reached without wrapping).
pub open spec fn advance(counter: u8, step: u8) -> u8 {
    if counter + step > 255 {
        (counter + step - 255) as u8
    } else {
        (counter + step) as u8
    }
}

/// Fade time in milliseconds of the colour change after each window.
pub const COLOR_FADE_MS: u128 = 350;

/// Fade time in milliseconds of the brightness change after each window.
pub const BRIGHTNESS_FADE_MS: u128 = 200;

/// The analyser of a light show at `now`: the fresh analyser with volume
/// coefficient 1, threshold 1, volume in 10..=100, pulse above 90 after a
/// level of at most 80, pulse timeout 10 ms.
pub open spec fn capture_analyzer(now: u64) -> AnalyzerView {
    let a = initial_analyzer(now);
    AnalyzerView {
        vol_f: FilterView { k1: 1, k2: 0, ..a.vol_f },
        trsh: 1,
        vol_min: 10,
        vol_max: 100,
        pulse_trsh: 90,
        pulse_min: 80,
        pulse_tout: 10_000_000,
        ..a
    }
}

/// The analyser keeps the capture settings that tick never changes, and its
/// volume in range.
pub open spec fn show_analyzer_ok(v: AnalyzerView) -> bool {
    &&& analyzer_wf(v)
    &&& v.vol_min == 10
    &&& v.vol_max == 100
    &&& volume_in_range(v)
}

/// What the lights do after a completed window.
pub struct Reaction {
    /// Colour for every bulb.
    pub color: RGBColor,
    /// The filtered volume.
    pub volume: i32,
    /// Whether a pulse was reported.
    pub pulse: bool,
    /// Brightness for every bulb: the volume truncated to a byte.
    pub brightness: u8,
    /// Fade time of the colour change, in milliseconds.
    pub color_fade_ms: u128,
    /// Fade time of the brightness change, in milliseconds.
    pub brightness_fade_ms: u128,
}

/// The sound-driven light show: a volume analyser tuned for captured audio
/// and the position on the colour wheel.
pub struct LightShow {
    analyzer: VolAnalyzer,
    counter: u8,
}

impl View for LightShow {
    type V = (AnalyzerView, u8);

    closed spec fn view(&self) -> (AnalyzerView, u8) {
        (self.analyzer@, self.counter)
    }
}

impl LightShow {
    #[verifier::type_invariant]
    closed spec fn analyzer_ready(self) -> bool {
        show_analyzer_ok(self.analyzer@)
    }

    fn make_analyzer(now: u64) -> (a: VolAnalyzer)
        ensures
            a@ == capture_analyzer(now),
            show_analyzer_ok(a@),
    {
        let mut vol_anal = VolAnalyzer::new(now);
        vol_anal.set_vol_k(1);
        vol_anal.set_levels(1, 10, 100, 90, 80, 10_000_000);
        vol_anal
    }

    /// A show at wheel position 0 whose analyser starts at `now` with the
    /// capture settings: volume coefficient 1, threshold 1, volume in 10..=100,
    /// pulse above 90 after a level of at most 80, pulse timeout 10 ms.
    pub fn new(now: u64) -> (s: LightShow)
        ensures
            analyzer_wf(s@.0),
            s@.1 == 0,
            s@.0 == capture_analyzer(now),
    {
        LightShow { analyzer: Self::make_analyzer(now), counter: 0 }
    }

    /// Whether feeding `read` at `now` is safe (see `tick_ok`).
    pub fn sample_ok(&self, now: u64, read: i32) -> (r: bool)
        ensures
            r == tick_ok(self@.0, now, read),
    {
        proof {
            use_type_invariant(self);
        }
        self.analyzer.tick_ok_at(now, read)
    }

    /// Feeds one sample; when it completes a window, moves the wheel on (by
    /// `STEP_PULSE` after a pulse, else by `STEP_NORMAL`) and returns the
    /// colour and brightness for the bulbs.
    pub fn process_sample(&mut self, now: u64, read: i32) -> (r: Option<Reaction>)
        requires
            tick_ok(old(self)@.0, now, read),
        ensures
            show_analyzer_ok(final(self)@.0),
            ({
                let (v1, done) = spec_tick(old(self)@.0, now, read);
                &&& done == r is Some
                &&& !done ==> final(self)@ == (v1, old(self)@.1)
                &&& done ==> {
                    let step = if v1.pulse { STEP_PULSE } else { STEP_NORMAL };
                    let c = advance(old(self)@.1, step);
                    &&& final(self)@ == (AnalyzerView { pulse: false, ..v1 }, c)
                    &&& r matches Some(x) && x.color@ == wheel_color(c) && x.volume == v1.vol_f.fil
                        && x.pulse == v1.pulse && x.brightness == v1.vol_f.fil as u8
                        && 0 <= x.volume <= 100 && x.brightness == x.volume
                        && x.color_fade_ms == COLOR_FADE_MS && x.brightness_fade_ms == BRIGHTNESS_FADE_MS
                }
            }),
    {
        proof {
            use_type_invariant(&*self);
            lemma_tick_volume_in_range(old(self)@.0, now, read);
        }
        let mut analyzer = Self::make_analyzer(now);
        std::mem::swap(&mut analyzer, &mut self.analyzer);
        let done = analyzer.tick(now, read);
        if !done {
            self.analyzer = analyzer;
            return None;
        }
        let volume = analyzer.get_vol();
        let mut inc: u8 = STEP_NORMAL;
        let pulse = analyzer.get_pulse();
        if pulse {
            inc = STEP_PULSE;
        }
        self.analyzer = analyzer;
        if self.counter > 255 - inc {
            self.counter = (self.counter as u16 + inc as u16 - 255) as u8;
        } else {
            self.counter = (self.counter as u16 + inc as u16) as u8;
        }
        let mut color = RGBColor::new(255, 0, 0);
        color.wheel24bit(self.counter);
        Some(
            Reaction {
                color: color,
                volume: volume,
                pulse: pulse,
                brightness: volume as u8,
                color_fade_ms: COLOR_FADE_MS,
                brightness_fade_ms: BRIGHTNESS_FADE_MS,
            },
        )
    }
}

/// The wheel position after moving from `counter` by each of `steps` in turn.
pub open spec fn wheel_after(counter: u8, steps: Seq<u8>) -> u8
    decreases steps.len(),
{
    if steps.len() == 0 {
        counter
    } else {
        advance(wheel_after(counter, steps.drop_last()), steps.last())
    }
}

/// The sum of `steps`.
pub open spec fn total(steps: Seq<u8>) -> int
    decreases steps.len(),
{
    if steps.len() == 0 {
        0
    } else {
        total(steps.drop_last()) + steps.last()
    }
}

/// The wheel turns by the step modulo 255: the new position is congruent to
/// `counter + step` modulo 255; it is that sum when the sum is at most 255,
/// and the sum less 255 (a position in 1..=255) when it passes 255.
pub proof fn lemma_advance_turns(counter: u8, step: u8)
    ensures
        (advance(counter, step) as int) % 255 == (counter + step) % 255,
        counter + step <= 255 ==> advance(counter, step) == counter + step,
        counter + step > 255 ==> advance(counter, step) == counter + step - 255 && 1 <= advance(
            counter,
            step,
        ) <= 255,
{
    if counter + step > 255 {
        assert((counter + step - 255) % 255 == (counter + step) % 255) by (nonlinear_arith)
            requires
                counter + step > 255,
        ;
    }
}

/// Over any run of windows the wheel position is congruent to the start
/// plus the sum of the steps, modulo 255: the wheel keeps turning and never
/// sticks.  From position 0, `n` plain windows put it at `2 * n` modulo 255
/// (255 itself standing for 0 only when reached exactly).
pub proof fn lemma_wheel_after_turns(counter: u8, steps: Seq<u8>)
    ensures
        (wheel_after(counter, steps) as int) % 255 == (counter + total(steps)) % 255,
    decreases steps.len(),
{
    if steps.len() > 0 {
        let p = steps.drop_last();
        lemma_wheel_after_turns(counter, p);
        let w = wheel_after(counter, p);
        lemma_advance_turns(w, steps.last());
        let a = w as int;
        let b = steps.last() as int;
        let t = counter + total(p);
        assert((a + b) % 255 == (t + b) % 255) by (nonlinear_arith)
            requires
                a % 255 == t % 255,
        ;
        assert(((advance(w, steps.last()) as int) % 255) == (a + b) % 255);
    }
}

} // verus!
