use starfield::celestial::CelestialObject;
use starfield::fx::FX_ONE;
use starfield::screen::ScreenDetails;
use starfield::star::{sin_fx, Star, STAR_MAX_SPEED_FX, STAR_MIN_SPEED_FX, TAU_FX};

fn test_screen() -> ScreenDetails {
    ScreenDetails { width: 100, height: 100 }
}

fn plain_star(x: i64, y: i64, speed: i64, depth: i64) -> Star {
    Star {
        x,
        y,
        speed,
        twinkle_phase: 0,
        twinkle_speed: 1_000_000,
        can_twinkle: false,
        depth,
        color: (255, 255, 255),
        size: 2,
    }
}

// A star at (50, 50) with speed 10 and depth 1: one update of a whole
// second drifts the star left by speed * depth * dt, landing exactly on
// x = 40, and damps the stored speed by 0.999^60 (about 0.9417);
// nothing else changes and no recycle fires.
#[test]
fn star_one_second_update() {
    let screen = test_screen();
    let mut s = plain_star(50 * FX_ONE, 50 * FX_ONE, 10 * FX_ONE, FX_ONE);
    s.update(FX_ONE, 0, &screen);
    assert_eq!(s.x, 40 * FX_ONE);
    assert_eq!(s.speed, 9_417_330);
    assert_eq!(s.y, 50 * FX_ONE);
    assert_eq!(s.depth, FX_ONE);
    assert_eq!(s.size, 2);
    assert_eq!(s.color, (255, 255, 255));
}

// A zero delta leaves the position alone entirely.
#[test]
fn star_zero_dt_holds_still() {
    let screen = test_screen();
    let mut s = plain_star(50 * FX_ONE, 50 * FX_ONE, 10 * FX_ONE, FX_ONE);
    s.update(0, 0, &screen);
    assert_eq!(s.x, 50 * FX_ONE);
    assert_eq!(s.speed, 10 * FX_ONE);
}

// The x coordinate strictly decreases between recycles for a positive
// delta that moves the star at all.
#[test]
fn star_x_strictly_decreases() {
    let screen = test_screen();
    let mut s = plain_star(90 * FX_ONE, 10 * FX_ONE, 20 * FX_ONE, 2 * FX_ONE);
    let mut last = s.x;
    for _ in 0..10 {
        s.update(100_000, 0, &screen);
        assert!(s.x < last, "x must fall between recycles");
        last = s.x;
    }
}

// Crossing the left edge recycles: x is reset exactly to the width, and
// the re-randomized attributes land in their documented ranges.
#[test]
fn star_recycle_exact_reset() {
    let screen = test_screen();
    let mut s = plain_star(FX_ONE, 50 * FX_ONE, 10 * FX_ONE, FX_ONE);
    // drift of roughly 9.4 pixels pushes x below zero
    s.update(FX_ONE, 0, &screen);
    assert_eq!(s.x, 100 * FX_ONE, "recycle resets x exactly to the width");
    assert!(s.y >= 0 && s.y < 100 * FX_ONE);
    assert!(s.depth >= FX_ONE / 2 && s.depth < 2 * FX_ONE);
    assert!(s.speed >= STAR_MIN_SPEED_FX && s.speed < STAR_MAX_SPEED_FX);
    assert!(s.twinkle_phase >= 0 && s.twinkle_phase < TAU_FX);
    assert!(s.size >= 1 && s.size <= 4);
}

// A star that stays right of the edge does not recycle, however often
// it is updated, and 0 <= x <= width throughout.
#[test]
fn star_stays_on_screen() {
    let screen = test_screen();
    let mut s = plain_star(95 * FX_ONE, 5 * FX_ONE, 5 * FX_ONE, FX_ONE);
    for _ in 0..200 {
        s.update(10_000, 0, &screen);
        assert!(s.x >= 0 && s.x <= 100 * FX_ONE);
        assert!(s.size >= 1 && s.size <= 4);
    }
}

// The twinkle update accumulates elapsed * twinkle_speed onto the phase
// (reduced modulo a turn), and only for stars that can twinkle.
#[test]
fn twinkle_phase_accumulates() {
    let mut s = plain_star(10 * FX_ONE, 10 * FX_ONE, 10 * FX_ONE, FX_ONE);
    s.twinkle_phase = 1_000_000;
    s.twinkle_speed = 1_000_000;
    s.can_twinkle = true;
    s.update_twinkle(2 * FX_ONE);
    assert_eq!(s.twinkle_phase, 3_000_000);
    // a second identical call accumulates again rather than replacing
    s.update_twinkle(2 * FX_ONE);
    assert_eq!(s.twinkle_phase, 5_000_000);
    // reduction modulo one turn keeps the phase in range
    s.update_twinkle(2 * FX_ONE);
    assert_eq!(s.twinkle_phase, 7_000_000 % TAU_FX);
}

#[test]
fn twinkle_phase_fixed_without_flag() {
    let mut s = plain_star(10 * FX_ONE, 10 * FX_ONE, 10 * FX_ONE, FX_ONE);
    s.twinkle_phase = 123_456;
    s.can_twinkle = false;
    s.update_twinkle(5 * FX_ONE);
    assert_eq!(s.twinkle_phase, 123_456);
}

// The sine approximation hits the cardinal points closely.
#[test]
fn sine_cardinal_points() {
    assert_eq!(sin_fx(0), 0);
    assert!(sin_fx(1_570_796) > 990_000, "sin(pi/2) is close to one");
    assert!(sin_fx(3_141_592).abs() < 20_000, "sin(pi) is close to zero");
    assert!(sin_fx(4_712_388) < -990_000, "sin(3 pi / 2) is close to minus one");
}

// A freshly created star lands inside every documented range.
#[test]
fn new_star_in_ranges() {
    let screen = ScreenDetails { width: 1920, height: 1080 };
    for _ in 0..50 {
        let s = Star::new(&screen);
        assert!(s.x >= 0 && s.x <= 1920 * FX_ONE);
        assert!(s.y >= 0 && s.y <= 1080 * FX_ONE);
        assert!(s.speed >= STAR_MIN_SPEED_FX && s.speed < STAR_MAX_SPEED_FX);
        assert!(s.depth >= FX_ONE / 2 && s.depth < 4 * FX_ONE);
        assert!(s.twinkle_phase >= 0 && s.twinkle_phase < TAU_FX);
        assert!(s.size >= 1 && s.size <= 4);
        assert!(s.is_alive(&screen), "stars are always alive");
    }
}
