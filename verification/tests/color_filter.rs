use music_lights::color::RGBColor;
use music_lights::filter::{FastFilterVA, FF_PASS_MAX, FF_PASS_MIN};

fn packed(r: u32, g: u32, b: u32) -> u32 {
    r * 65536 + g * 256 + b
}

#[test]
fn packs_channels_as_rrggbb() {
    assert_eq!(RGBColor::new(1, 2, 3).get24Bit(), 0x010203);
    assert_eq!(RGBColor::new(255, 255, 255).get24Bit(), 0xFFFFFF);
    assert_eq!(RGBColor::new(0, 0, 0).get24Bit(), 0);
}

#[test]
fn wheel_thirds() {
    let mut c = RGBColor::new(1, 1, 1);
    c.wheel24bit(0);
    assert_eq!(c.get24Bit(), packed(255, 0, 0));
    c.wheel24bit(2);
    assert_eq!(c.get24Bit(), packed(249, 6, 0));
    c.wheel24bit(85);
    assert_eq!(c.get24Bit(), packed(0, 255, 0));
    c.wheel24bit(86);
    assert_eq!(c.get24Bit(), packed(0, 252, 3));
    c.wheel24bit(170);
    assert_eq!(c.get24Bit(), packed(0, 0, 255));
    c.wheel24bit(171);
    assert_eq!(c.get24Bit(), packed(3, 0, 252));
    c.wheel24bit(255);
    assert_eq!(c.get24Bit(), packed(255, 0, 0));
}

#[test]
fn wheel_channels_sum_to_255() {
    for pos in 0..=255u8 {
        let mut c = RGBColor::new(0, 0, 0);
        c.wheel24bit(pos);
        let v = c.get24Bit();
        assert_eq!((v >> 16) + ((v >> 8) & 0xff) + (v & 0xff), 255);
    }
}

#[test]
fn filter_defaults() {
    let f = FastFilterVA::new(None, None);
    assert_eq!(f.get_fil(), 0);
    assert_eq!(f.get_raw(), 0);
}

#[test]
fn filter_blends_by_k_over_32() {
    let mut f = FastFilterVA::new(None, None);
    f.set_raw(100);
    f.compute_now();
    // (20 * 0 + 12 * 100) >> 5
    assert_eq!(f.get_fil(), 37);
    f.compute_now();
    // (20 * 37 + 12 * 100) >> 5 = 1940 >> 5
    assert_eq!(f.get_fil(), 60);
}

#[test]
fn filter_pass_modes_use_half_coefficient() {
    let mut f = FastFilterVA::new(Some(20), None);
    f.set_pass(FF_PASS_MAX);
    f.set_raw(100);
    f.compute_now();
    // rising in max mode: k = 10, (10 * 0 + 22 * 100) >> 5
    assert_eq!(f.get_fil(), 68);

    let mut g = FastFilterVA::new(Some(20), None);
    g.set_pass(FF_PASS_MIN);
    g.set_raw(100);
    g.compute_now();
    // rising in min mode: k = 20
    assert_eq!(g.get_fil(), 37);
    g.set_raw(0);
    g.compute_now();
    // falling in min mode: k = 10, (10 * 37 + 22 * 0) >> 5 = 370 >> 5
    assert_eq!(g.get_fil(), 11);
}

#[test]
fn filter_rounds_down_on_negative_values() {
    let mut f = FastFilterVA::new(None, None);
    f.set_raw(-1);
    f.compute_now();
    // (12 * -1) >> 5 = -1
    assert_eq!(f.get_fil(), -1);
}

#[test]
fn filter_fixed_point() {
    let mut f = FastFilterVA::new(Some(7), None);
    f.set_fil(-12345);
    f.set_raw(-12345);
    f.compute_now();
    assert_eq!(f.get_fil(), -12345);
}

#[test]
fn filter_stays_between_inputs() {
    let mut f = FastFilterVA::new(Some(31), None);
    f.set_fil(1000);
    f.set_raw(-500);
    f.compute_now();
    let v = f.get_fil();
    assert!(-500 <= v && v <= 1000);
}

#[test]
fn filter_timer() {
    let mut f = FastFilterVA::new(None, Some(20));
    f.set_raw(100);
    f.compute(10);
    assert_eq!(f.get_fil(), 0);
    f.compute(20);
    assert_eq!(f.get_fil(), 37);
    f.compute(39);
    assert_eq!(f.get_fil(), 37);
    f.compute(40);
    assert_eq!(f.get_fil(), 60);
}

#[test]
fn filter_without_period_computes_every_call() {
    let mut f = FastFilterVA::new(None, Some(0));
    f.set_raw(100);
    f.compute(0);
    f.compute(0);
    assert_eq!(f.get_fil(), 60);
}
