use starfield::celestial::CelestialObject;
use starfield::fx::FX_ONE;
use starfield::screen::ScreenDetails;
use starfield::shooting::{ShootingStar, MAX_LIFE_FX};

fn test_screen() -> ScreenDetails {
    ScreenDetails { width: 1920, height: 1080 }
}

// Spawning at (1970, 100) with velocity (-300, 20): one whole second
// pushes the spawn position on the trail, then moves x by vx, raises vy
// by gravity to 50 and moves y by the new vy, and spends one second of
// life — exactly in that order.
#[test]
fn shooting_star_one_second_update() {
    let screen = test_screen();
    let mut s = ShootingStar::new(1970 * FX_ONE, 100 * FX_ONE, -300 * FX_ONE, 20 * FX_ONE);
    s.update(FX_ONE, 0, &screen);
    assert_eq!(s.x, 1670 * FX_ONE);
    assert_eq!(s.vy, 50 * FX_ONE);
    assert_eq!(s.y, 150 * FX_ONE);
    assert_eq!(s.life, FX_ONE);
    assert_eq!(s.trail.len(), 1);
    assert_eq!(s.trail[0], (1970 * FX_ONE, 100 * FX_ONE));
}

// The trail never exceeds its bound; after 81 updates it holds exactly
// 80 samples and the oldest retained one is the second ever pushed.
#[test]
fn trail_fifo_eviction() {
    let screen = test_screen();
    let mut s = ShootingStar::new(500 * FX_ONE, 100 * FX_ONE, -100 * FX_ONE, 0);
    let mut pushed: Vec<(i64, i64)> = Vec::new();
    for _ in 0..81 {
        pushed.push((s.x, s.y));
        s.update(1_000, 0, &screen);
        assert!(s.trail.len() <= 80);
    }
    assert_eq!(s.trail.len(), 80);
    assert_eq!(s.trail[0], pushed[1], "the first sample was evicted");
    assert_eq!(s.trail[79], pushed[80], "the newest sample is last");
}

// The same FIFO eviction at whole-second steps: after 81 updates of a
// second each the trail holds 80 samples and the first sample ever
// pushed — the spawn position — has been evicted.
#[test]
fn trail_fifo_81_seconds() {
    let screen = test_screen();
    let mut s = ShootingStar::new(1970 * FX_ONE, 100 * FX_ONE, -300 * FX_ONE, 20 * FX_ONE);
    let mut pushed: Vec<(i64, i64)> = Vec::new();
    for _ in 0..81 {
        pushed.push((s.x, s.y));
        s.update(FX_ONE, 0, &screen);
        assert!(s.trail.len() <= 80);
    }
    assert_eq!(s.trail.len(), 80);
    assert_eq!(pushed[0], (1970 * FX_ONE, 100 * FX_ONE));
    assert_eq!(s.trail[0], pushed[1], "the spawn sample was evicted");
    assert_eq!(s.trail[0], (1670 * FX_ONE, 150 * FX_ONE), "the 2nd sample ever pushed remains");
}

// A very fast star (a thousand pixels per second leftward) is a
// thousand pixels out after one second: position-expired with almost
// all of its life left.
#[test]
fn dies_far_out_of_margin() {
    let screen = ScreenDetails { width: 100, height: 100 };
    let mut s = ShootingStar::new(0, 50 * FX_ONE, -1000 * FX_ONE, 0);
    assert!(s.is_alive(&screen));
    s.update(FX_ONE, 0, &screen);
    assert_eq!(s.x, -1000 * FX_ONE);
    assert!(s.life < MAX_LIFE_FX);
    assert!(!s.is_alive(&screen));
}

// Life expiry: with dt fixed at 0.1 seconds the 30th update crosses the
// three-second lifetime, and exactly then the star stops being alive.
#[test]
fn dies_of_old_age() {
    let screen = test_screen();
    let mut s = ShootingStar::new(960 * FX_ONE, 200 * FX_ONE, 0, 0);
    for k in 1..=30 {
        s.update(100_000, 0, &screen);
        if k < 30 {
            assert!(s.is_alive(&screen), "alive while life < max_life (update {k})");
        } else {
            assert_eq!(s.life, MAX_LIFE_FX);
            assert!(!s.is_alive(&screen), "dead exactly at life == max_life");
        }
    }
}

// Position expiry: a fast leftward star leaves the 200-pixel margin in
// one second and dies of position alone, with plenty of life left.
#[test]
fn dies_out_of_margin() {
    let screen = test_screen();
    let mut s = ShootingStar::new(100 * FX_ONE, 100 * FX_ONE, -400 * FX_ONE, 0);
    assert!(s.is_alive(&screen));
    s.update(FX_ONE, 0, &screen);
    assert_eq!(s.x, -300 * FX_ONE);
    assert!(s.life < MAX_LIFE_FX);
    assert!(!s.is_alive(&screen), "dead once past the left margin");
}

// The margin is honoured exactly: just inside stays alive.
#[test]
fn alive_just_inside_margin() {
    let screen = test_screen();
    let s = ShootingStar::new(-199 * FX_ONE, 100 * FX_ONE, 0, 0);
    assert!(s.is_alive(&screen));
    let s2 = ShootingStar::new(1920 * FX_ONE + 199 * FX_ONE, 100 * FX_ONE, 0, 0);
    assert!(s2.is_alive(&screen));
}

// A fresh star has no life spent and an empty trail.
#[test]
fn fresh_star_state() {
    let s = ShootingStar::new(10 * FX_ONE, 20 * FX_ONE, -250 * FX_ONE, 30 * FX_ONE);
    assert_eq!(s.life, 0);
    assert_eq!(s.max_life, MAX_LIFE_FX);
    assert!(s.trail.is_empty());
    assert_eq!(s.trail_max_len, 80);
}
