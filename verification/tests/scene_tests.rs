use starfield::celestial::update_and_draw_objects;
use starfield::frame::new_frame;
use starfield::fx::FX_ONE;
use starfield::sample::{random_chance, random_in_range, random_in_range_inclusive};
use starfield::scene::{Simulation, STAR_COUNT};
use starfield::screen::ScreenDetails;
use starfield::shooting::ShootingStar;

// One rendered frame: the buffer has the right shape, the star
// population keeps its fixed count, and a dead shooting star is culled
// while a living one is retained, in order.
#[test]
fn one_frame_end_to_end() {
    let screen = ScreenDetails { width: 200, height: 200 };
    let mut sim = Simulation::new(&screen);
    assert_eq!(sim.stars.len(), STAR_COUNT);
    assert_eq!(sim.shooting_stars.len(), 0);
    let mut frame = new_frame(&screen);
    sim.render_frame(16_000, 16_000, &mut frame, &screen);
    assert_eq!(frame.len(), 200 * 200 * 4);
    for k in (3..frame.len()).step_by(4) {
        assert_eq!(frame[k], 255, "every drawn pixel stays opaque");
    }
    assert_eq!(sim.stars.len(), STAR_COUNT, "stars are recycled, never removed");
}

// The retain policy: update, draw, then drop exactly the objects whose
// liveness predicate fails, keeping the survivors' relative order.
#[test]
fn retain_policy_culls_in_order() {
    let screen = ScreenDetails { width: 1920, height: 1080 };
    let mut objects: Vec<ShootingStar> = vec![
        ShootingStar::new(500 * FX_ONE, 100 * FX_ONE, -200 * FX_ONE, 10 * FX_ONE),
        ShootingStar::new(100 * FX_ONE, 100 * FX_ONE, -400 * FX_ONE, 10 * FX_ONE),
        ShootingStar::new(800 * FX_ONE, 200 * FX_ONE, -250 * FX_ONE, 20 * FX_ONE),
    ];
    let mut frame = new_frame(&screen);
    // one second: the middle star flies past the left margin and dies
    update_and_draw_objects(&mut objects, FX_ONE, FX_ONE, &mut frame, &screen);
    assert_eq!(objects.len(), 2);
    assert_eq!(objects[0].x, 300 * FX_ONE, "first survivor kept first");
    assert_eq!(objects[1].x, 550 * FX_ONE, "second survivor kept second");
}

// Over many frames the simulation's collections stay sound.
#[test]
fn many_frames_stay_sound() {
    let screen = ScreenDetails { width: 320, height: 240 };
    let mut sim = Simulation::new(&screen);
    let mut frame = new_frame(&screen);
    let mut elapsed: i64 = 0;
    for _ in 0..120 {
        elapsed += 16_000;
        sim.render_frame(16_000, elapsed, &mut frame, &screen);
        assert_eq!(sim.stars.len(), STAR_COUNT);
        for s in &sim.stars {
            assert!(s.x >= 0 && s.x <= 320 * FX_ONE);
            assert!(s.size >= 1 && s.size <= 4);
        }
        for s in &sim.shooting_stars {
            assert!(s.life < s.max_life);
            assert!(s.trail.len() <= 80);
        }
    }
}

// The derived samplers honour their ranges; a sample is always strictly
// inside the half-open range, so a source that handed its bound back
// unchanged would fail here.
#[test]
fn samplers_in_range() {
    for _ in 0..200 {
        let v = random_in_range(-5 * FX_ONE, 5 * FX_ONE);
        assert!(v >= -5 * FX_ONE && v < 5 * FX_ONE);
        let w = random_in_range(7, 8);
        assert_eq!(w, 7, "a one-wide range forces its low end");
        let u = random_in_range_inclusive(1, 4);
        assert!((1..=4).contains(&u));
        assert_eq!(random_in_range_inclusive(3, 3), 3);
    }
    assert!(!random_chance(0), "zero probability never fires");
    assert!(random_chance(FX_ONE), "certain probability always fires");
}
