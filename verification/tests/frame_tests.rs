use starfield::celestial::CelestialObject;
use starfield::frame::{blend_at, clear_frame, new_frame};
use starfield::fx::FX_ONE;
use starfield::screen::ScreenDetails;
use starfield::shooting::ShootingStar;
use starfield::star::Star;

fn small_screen() -> ScreenDetails {
    ScreenDetails { width: 10, height: 10 }
}

// A fresh buffer is opaque black: four bytes per pixel, colour channels
// zero, alpha fully opaque.
#[test]
fn fresh_frame_is_opaque_black() {
    let screen = small_screen();
    let frame = new_frame(&screen);
    assert_eq!(frame.len(), 10 * 10 * 4);
    for (k, byte) in frame.iter().enumerate() {
        if k % 4 == 3 {
            assert_eq!(*byte, 255);
        } else {
            assert_eq!(*byte, 0);
        }
    }
}

// Clearing recycles any buffer into the same opaque black.
#[test]
fn clear_resets_everything() {
    let screen = small_screen();
    let mut frame = new_frame(&screen);
    blend_at(&mut frame, &screen, 3, 3, 200, 100, 50, FX_ONE);
    clear_frame(&mut frame, &screen);
    assert_eq!(frame, new_frame(&screen));
}

// Blending with zero coverage leaves the buffer byte for byte unchanged.
#[test]
fn blend_zero_alpha_is_identity() {
    let screen = small_screen();
    let mut frame = new_frame(&screen);
    blend_at(&mut frame, &screen, 4, 4, 90, 60, 30, FX_ONE / 2);
    let before = frame.clone();
    blend_at(&mut frame, &screen, 4, 4, 255, 255, 255, 0);
    assert_eq!(frame, before);
}

// Blending with full coverage sets the pixel exactly to the new colour,
// fully opaque.
#[test]
fn blend_full_alpha_overwrites() {
    let screen = small_screen();
    let mut frame = new_frame(&screen);
    blend_at(&mut frame, &screen, 2, 7, 10, 20, 30, FX_ONE);
    let idx = (7 * 10 + 2) * 4;
    assert_eq!(&frame[idx..idx + 4], &[10, 20, 30, 255]);
}

// Half coverage lands exactly on the linear blend of old and new.
#[test]
fn blend_half_alpha_mixes() {
    let screen = small_screen();
    let mut frame = new_frame(&screen);
    blend_at(&mut frame, &screen, 0, 0, 200, 100, 50, FX_ONE / 2);
    assert_eq!(&frame[0..4], &[100, 50, 25, 255]);
}

// Out-of-screen pixels are skipped silently, never an error.
#[test]
fn blend_clips_out_of_bounds() {
    let screen = small_screen();
    let mut frame = new_frame(&screen);
    let before = frame.clone();
    blend_at(&mut frame, &screen, -1, 5, 255, 255, 255, FX_ONE);
    blend_at(&mut frame, &screen, 10, 5, 255, 255, 255, FX_ONE);
    blend_at(&mut frame, &screen, 5, -3, 255, 255, 255, FX_ONE);
    blend_at(&mut frame, &screen, 5, 10, 255, 255, 255, FX_ONE);
    assert_eq!(frame, before);
}

// The soft point with zero alpha leaves the buffer unchanged through
// the whole falloff path.
#[test]
fn draw_point_zero_alpha_is_identity() {
    let screen = small_screen();
    let s = ShootingStar::new(5 * FX_ONE, 5 * FX_ONE, 0, 0);
    let mut frame = new_frame(&screen);
    blend_at(&mut frame, &screen, 5, 5, 40, 80, 120, FX_ONE);
    let before = frame.clone();
    s.draw_point(&mut frame, &screen, 5 * FX_ONE, 5 * FX_ONE, 255, 255, 255, 0, 6);
    assert_eq!(frame, before);
}

// At the exact centre the falloff is one, so full alpha writes the
// colour exactly there.
#[test]
fn draw_point_full_alpha_centre() {
    let screen = small_screen();
    let s = ShootingStar::new(5 * FX_ONE, 5 * FX_ONE, 0, 0);
    let mut frame = new_frame(&screen);
    s.draw_point(&mut frame, &screen, 5 * FX_ONE, 5 * FX_ONE, 10, 20, 30, FX_ONE, 1);
    let idx = (5 * 10 + 5) * 4;
    assert_eq!(&frame[idx..idx + 4], &[10, 20, 30, 255]);
}

// A fresh shooting star (no fade yet) paints its bright head: at the
// exact centre the radial falloff is one, so the head colour lands
// there unmixed.
#[test]
fn shooting_star_head_colour() {
    let screen = small_screen();
    let s = ShootingStar::new(5 * FX_ONE, 5 * FX_ONE, 0, 0);
    let mut frame = new_frame(&screen);
    s.draw(&mut frame, &screen);
    let idx = (5 * 10 + 5) * 4;
    assert_eq!(&frame[idx..idx + 4], &[255, 255, 220, 255]);
}

// A star paints its square footprint opaquely and nothing else.
#[test]
fn star_draw_paints_footprint() {
    let screen = small_screen();
    let st = Star {
        x: 4 * FX_ONE,
        y: 4 * FX_ONE,
        speed: 10 * FX_ONE,
        twinkle_phase: 1_570_796,  // luminance near its clamp
        twinkle_speed: 1_000_000,
        can_twinkle: false,
        depth: FX_ONE,
        color: (255, 255, 255),
        size: 2,
    };
    let mut frame = new_frame(&screen);
    st.draw(&mut frame, &screen);
    let idx = (4 * 10 + 4) * 4;
    assert!(frame[idx] > 0, "the anchor pixel was painted");
    assert_eq!(frame[idx + 3], 255);
    let far = (9 * 10 + 9) * 4;
    assert_eq!(&frame[far..far + 4], &[0, 0, 0, 255], "far pixels untouched");
}
