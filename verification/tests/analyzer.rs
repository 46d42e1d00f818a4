use music_lights::analyzer::VolAnalyzer;
use music_lights::capture::LightShow;

#[test]
fn map_rescales() {
    assert_eq!(VolAnalyzer::map(50, 0, 100, 10, 100), 55);
    assert_eq!(VolAnalyzer::map(0, 0, 100, 10, 100), 10);
    assert_eq!(VolAnalyzer::map(100, 0, 100, 10, 100), 100);
    assert_eq!(VolAnalyzer::map(200, 100, 300, 0, 1000), 500);
}

#[test]
fn map_divides_toward_zero() {
    assert_eq!(VolAnalyzer::map(-7, 0, 2, 0, 1), -3);
    assert_eq!(VolAnalyzer::map(7, 0, 2, 0, 1), 3);
}

#[test]
fn map_falls_back_on_overflow() {
    // empty source range: the quotient falls back to i32::MAX, then the sum overflows
    assert_eq!(VolAnalyzer::map(5, 3, 3, 10, 20), i32::MAX);
    assert_eq!(VolAnalyzer::map(5, 3, 3, -10, 20), i32::MAX - 10);
    // product overflow
    assert_eq!(VolAnalyzer::map(i32::MAX, 0, 1, 0, 2), i32::MAX);
    // difference underflow: value - from_min becomes i32::MIN
    assert_eq!(VolAnalyzer::map(i32::MIN, 1, 2, 0, 1), i32::MIN);
}

#[test]
fn constrain_clamps() {
    assert_eq!(VolAnalyzer::constrain(5, 10, 100), 10);
    assert_eq!(VolAnalyzer::constrain(500, 10, 100), 100);
    assert_eq!(VolAnalyzer::constrain(50, 10, 100), 50);
    // an empty range gives the lower bound first
    assert_eq!(VolAnalyzer::constrain(5, 10, 0), 10);
}

#[test]
fn fresh_analyzer() {
    let mut a = VolAnalyzer::new(0);
    assert_eq!(a.get_vol(), 0);
    assert_eq!(a.get_min(), 0);
    assert_eq!(a.get_max(), 0);
    assert!(!a.get_pulse());
    assert_eq!(a._volMin, 0);
    assert_eq!(a._volMax, 100);
    assert_eq!(a._pulseTrsh, 80);
}

#[test]
fn window_completes_after_twenty_samples() {
    let mut a = VolAnalyzer::new(0);
    let mut done = Vec::new();
    for i in 1..=40u64 {
        let now = i * 100_000;
        assert!(a.tick_ok_at(now, 50));
        done.push(a.tick(now, 50));
    }
    for (i, d) in done.iter().enumerate() {
        assert_eq!(*d, i == 19 || i == 39);
    }
}

#[test]
fn samples_inside_the_period_are_skipped() {
    let mut a = VolAnalyzer::new(0);
    for _ in 0..100 {
        assert!(!a.tick(50_000, 7));
    }
    a.setDt(0);
    let mut count = 0;
    for _ in 0..20 {
        if a.tick(50_000, 7) {
            count += 1;
        }
    }
    assert_eq!(count, 1);
}

#[test]
fn clock_before_timer_is_refused() {
    let a = VolAnalyzer::new(1_000_000);
    assert!(!a.tick_ok_at(999_999, 0));
    assert!(a.tick_ok_at(1_000_000, 0));
}

#[test]
fn light_show_moves_the_wheel_each_window() {
    let mut show = LightShow::new(0);
    let mut reactions = Vec::new();
    for i in 1..=40u64 {
        let now = i * 100_000;
        assert!(show.sample_ok(now, 1000));
        if let Some(r) = show.process_sample(now, 1000) {
            reactions.push(r);
        }
    }
    assert_eq!(reactions.len(), 2);
    // wheel position 2, then 4
    assert_eq!(reactions[0].color.get24Bit(), 249 * 65536 + 6 * 256);
    assert_eq!(reactions[1].color.get24Bit(), 243 * 65536 + 12 * 256);
    assert!(!reactions[0].pulse);
    assert_eq!(reactions[0].brightness, reactions[0].volume as u8);
    for r in &reactions {
        assert!(0 <= r.volume && r.volume <= 100);
        assert_eq!(r.brightness as i32, r.volume);
        assert_eq!(r.color_fade_ms, 350);
        assert_eq!(r.brightness_fade_ms, 200);
    }
}

#[test]
fn every_twentieth_sampled_tick_completes_a_window() {
    let mut a = VolAnalyzer::new(0);
    for i in 1..=200u64 {
        let done = a.tick(i * 100_000, (i as i32) * 37 % 500);
        assert_eq!(done, i % 20 == 0);
    }
}

#[test]
fn volume_stays_in_range_over_many_ticks() {
    let mut a = VolAnalyzer::new(0);
    a._volMin = 10;
    a._volMax = 60;
    a.set_vol_k(31);
    for i in 1..=2000u64 {
        let now = i * 100_000;
        let read = ((i * 7919) % 1000) as i32;
        assert!(a.tick_ok_at(now, read));
        a.tick(now, read);
        let v = a.get_vol();
        assert!(0 <= v && v <= 60);
    }
}
