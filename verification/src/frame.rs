//! The frame compositor: bounds-checked, alpha-blended writes into the
//! shared RGBA buffer.
//!
//! This is the only code that touches pixel bytes. A pixel outside the
//! screen is silently skipped, never an error. Alpha coverage is a
//! fixed-point fraction of one; blending is the standard linear blend
//! `old * (1 - a) + new * a` per channel, and the alpha byte of every
//! touched pixel is forced to fully opaque.

use vstd::prelude::*;
use crate::fx::FX_ONE;
use crate::screen::{ScreenDetails, SCREEN_DIM_LIMIT};

verus! {

/// Byte length of the RGBA buffer for a screen: four bytes per pixel.
pub open spec fn frame_len(screen: ScreenDetails) -> int {
    screen.width * screen.height * 4
}

/// A well-formed frame: the right length, and every alpha byte opaque.
pub open spec fn frame_wf(f: Seq<u8>, screen: ScreenDetails) -> bool {
    &&& f.len() == frame_len(screen)
    &&& forall|k: int| 0 <= k < f.len() && k % 4 == 3 ==> f[k] == 255
}

pub open spec fn in_screen(screen: ScreenDetails, px: int, py: int) -> bool {
    0 <= px < screen.width && 0 <= py < screen.height
}

/// Byte offset of a pixel's red channel inside the buffer.
pub open spec fn pixel_index(screen: ScreenDetails, px: int, py: int) -> int {
    (py * screen.width + px) * 4
}

pub proof fn lemma_pixel_index_bounds(screen: ScreenDetails, px: int, py: int)
    requires
        screen.wf(),
        in_screen(screen, px, py),
    ensures
        0 <= pixel_index(screen, px, py),
        pixel_index(screen, px, py) + 4 <= frame_len(screen),
        pixel_index(screen, px, py) % 4 == 0,
        0 <= py * screen.width + px,
        frame_len(screen) <= 0x4000_0000,
{
    assert(0 <= py * screen.width + px && py * screen.width + px < screen.width * screen.height
        && (py * screen.width + px) * 4 + 4 <= screen.width * screen.height * 4
        && ((py * screen.width + px) * 4) % 4 == 0
        && screen.width * screen.height * 4 <= 0x4000_0000) by (nonlinear_arith)
        requires
            0 <= px < screen.width,
            0 <= py < screen.height,
            screen.width <= SCREEN_DIM_LIMIT,
            screen.height <= SCREEN_DIM_LIMIT,
    ;
}

/// Distinct in-screen pixels own disjoint four-byte spans.
pub proof fn lemma_pixel_index_disjoint(screen: ScreenDetails, px1: int, py1: int, px2: int, py2: int)
    requires
        screen.wf(),
        in_screen(screen, px1, py1),
        in_screen(screen, px2, py2),
        !(px1 == px2 && py1 == py2),
    ensures
        pixel_index(screen, px1, py1) + 4 <= pixel_index(screen, px2, py2)
            || pixel_index(screen, px2, py2) + 4 <= pixel_index(screen, px1, py1),
{
    assert((py1 * screen.width + px1) * 4 + 4 <= (py2 * screen.width + px2) * 4
        || (py2 * screen.width + px2) * 4 + 4 <= (py1 * screen.width + px1) * 4) by (nonlinear_arith)
        requires
            0 <= px1 < screen.width,
            0 <= py1 < screen.height,
            0 <= px2 < screen.width,
            0 <= py2 < screen.height,
            !(px1 == px2 && py1 == py2),
    ;
}

/// The four bytes of one pixel agree between two buffers.
pub open spec fn pixel_same(f1: Seq<u8>, f2: Seq<u8>, screen: ScreenDetails, px: int, py: int) -> bool {
    let idx = pixel_index(screen, px, py);
    &&& f2[idx] == f1[idx]
    &&& f2[idx + 1] == f1[idx + 1]
    &&& f2[idx + 2] == f1[idx + 2]
    &&& f2[idx + 3] == f1[idx + 3]
}

/// One channel of the linear blend, in byte space: `old` is kept with
/// weight `1 - a` and `new` composited with weight `a`.
pub open spec fn blend_channel_spec(oldv: int, newv: int, a: int) -> int {
    (oldv * (FX_ONE - a) + newv * a) / (FX_ONE as int)
}

pub proof fn lemma_blend_channel_in_byte(oldv: int, newv: int, a: int)
    requires
        0 <= oldv <= 255,
        0 <= newv <= 255,
        0 <= a <= FX_ONE,
    ensures
        0 <= blend_channel_spec(oldv, newv, a) <= 255,
{
    assert(0 <= (oldv * (FX_ONE - a) + newv * a) / (FX_ONE as int) <= 255) by (nonlinear_arith)
        requires
            0 <= oldv <= 255,
            0 <= newv <= 255,
            0 <= a <= FX_ONE,
    ;
}

/// The buffer after blending one pixel: the three colour channels mixed,
/// the alpha byte forced opaque, everything else untouched; a pixel off
/// the screen leaves the buffer as it was.
pub open spec fn blend_at_spec(
    f: Seq<u8>,
    screen: ScreenDetails,
    px: int,
    py: int,
    r: u8,
    g: u8,
    b: u8,
    a: int,
) -> Seq<u8> {
    if in_screen(screen, px, py) {
        let idx = pixel_index(screen, px, py);
        f.update(idx, blend_channel_spec(f[idx] as int, r as int, a) as u8)
            .update(idx + 1, blend_channel_spec(f[idx + 1] as int, g as int, a) as u8)
            .update(idx + 2, blend_channel_spec(f[idx + 2] as int, b as int, a) as u8)
            .update(idx + 3, 255u8)
    } else {
        f
    }
}

/// Blending one pixel keeps the buffer well formed, keeps its length,
/// and touches no other pixel.
pub proof fn lemma_blend_at_spec_props(
    f: Seq<u8>,
    screen: ScreenDetails,
    px: int,
    py: int,
    r: u8,
    g: u8,
    b: u8,
    a: int,
)
    requires
        screen.wf(),
        frame_wf(f, screen),
    ensures
        frame_wf(blend_at_spec(f, screen, px, py, r, g, b, a), screen),
        blend_at_spec(f, screen, px, py, r, g, b, a).len() == f.len(),
        forall|qx: int, qy: int|
            in_screen(screen, qx, qy) && !(qx == px && qy == py) ==> #[trigger] pixel_same(
                f, blend_at_spec(f, screen, px, py, r, g, b, a), screen, qx, qy),
{
    let out = blend_at_spec(f, screen, px, py, r, g, b, a);
    if in_screen(screen, px, py) {
        lemma_pixel_index_bounds(screen, px, py);
        let idx = pixel_index(screen, px, py);
        assert forall|k: int| 0 <= k < out.len() && k % 4 == 3 implies out[k] == 255u8 by {
            if k != idx + 3 && (k == idx || k == idx + 1 || k == idx + 2) {
                assert(idx % 4 == 0);
                assert(k % 4 != 3);
            }
        }
        assert forall|qx: int, qy: int|
            in_screen(screen, qx, qy) && !(qx == px && qy == py) implies #[trigger] pixel_same(
            f, out, screen, qx, qy) by {
            lemma_pixel_index_bounds(screen, qx, qy);
            lemma_pixel_index_disjoint(screen, qx, qy, px, py);
        }
    }
}

fn blend_channel(oldv: u8, newv: u8, a: i64) -> (r: u8)
    requires
        0 <= a <= FX_ONE,
    ensures
        r == blend_channel_spec(oldv as int, newv as int, a as int),
{
    proof {
        lemma_blend_channel_in_byte(oldv as int, newv as int, a as int);
        assert((oldv as int) * (FX_ONE - a) + (newv as int) * a
            == ((oldv as u64) * ((FX_ONE - a) as u64) + (newv as u64) * (a as u64)) as int)
            by (nonlinear_arith)
            requires
                0 <= a <= FX_ONE,
        ;
    }
    let mixed: u64 = (oldv as u64) * ((FX_ONE - a) as u64) + (newv as u64) * (a as u64);
    (mixed / (FX_ONE as u64)) as u8
}

/// Blend one pixel of colour `(r, g, b)` with coverage `a` into the
/// buffer at `(px, py)`, bounds-checked.
pub fn blend_at(
    frame: &mut Vec<u8>,
    screen: &ScreenDetails,
    px: i64,
    py: i64,
    r: u8,
    g: u8,
    b: u8,
    a: i64,
)
    requires
        screen.wf(),
        frame_wf(old(frame)@, *screen),
        0 <= a <= FX_ONE,
    ensures
        final(frame)@ == blend_at_spec(old(frame)@, *screen, px as int, py as int, r, g, b, a as int),
        frame_wf(final(frame)@, *screen),
{
    if px >= 0 && px < screen.width as i64 && py >= 0 && py < screen.height as i64 {
        proof {
            lemma_pixel_index_bounds(*screen, px as int, py as int);
        }
        let idx: usize = (((py as u64) * (screen.width as u64) + (px as u64)) * 4) as usize;
        let vr = blend_channel(frame[idx], r, a);
        let vg = blend_channel(frame[idx + 1], g, a);
        let vb = blend_channel(frame[idx + 2], b, a);
        frame[idx] = vr;
        frame[idx + 1] = vg;
        frame[idx + 2] = vb;
        frame[idx + 3] = 255;
        proof {
            assert(frame@ =~= blend_at_spec(
                old(frame)@, *screen, px as int, py as int, r, g, b, a as int));
            assert forall|k: int| 0 <= k < frame@.len() && k % 4 == 3 implies frame@[k] == 255u8 by {
                let i = pixel_index(*screen, px as int, py as int);
                if k != i + 3 && (k == i || k == i + 1 || k == i + 2) {
                    assert(i % 4 == 0);
                    assert(k % 4 != 3);
                }
            }
        }
    }
}

/// A fresh buffer for one frame: opaque black, four bytes per pixel.
pub fn new_frame(screen: &ScreenDetails) -> (frame: Vec<u8>)
    requires
        screen.wf(),
    ensures
        frame_wf(frame@, *screen),
        forall|k: int| 0 <= k < frame@.len() && k % 4 != 3 ==> frame@[k] == 0u8,
{
    let mut frame: Vec<u8> = Vec::new();
    clear_frame(&mut frame, screen);
    frame
}

/// Reset the buffer to opaque black, as the first step of every frame.
pub fn clear_frame(frame: &mut Vec<u8>, screen: &ScreenDetails)
    requires
        screen.wf(),
    ensures
        frame_wf(final(frame)@, *screen),
        forall|k: int| 0 <= k < final(frame)@.len() && k % 4 != 3 ==> final(frame)@[k] == 0u8,
{
    frame.clear();
    proof {
        assert(screen.width * screen.height <= 0x1000_0000
            && screen.width * screen.height * 4 <= 0x4000_0000) by (nonlinear_arith)
            requires
                screen.width <= SCREEN_DIM_LIMIT,
                screen.height <= SCREEN_DIM_LIMIT,
        ;
    }
    let pixels: usize = (screen.width as usize) * (screen.height as usize);
    let mut i: usize = 0;
    while i < pixels
        invariant
            i <= pixels,
            pixels == screen.width * screen.height,
            frame@.len() == 4 * i,
            forall|k: int| 0 <= k < frame@.len() ==> frame@[k] == (if k % 4 == 3 { 255u8 } else { 0u8 }),
        decreases pixels - i,
    {
        frame.push(0);
        frame.push(0);
        frame.push(0);
        frame.push(255);
        proof {
            assert forall|k: int| 0 <= k < frame@.len()
                implies frame@[k] == (if k % 4 == 3 { 255u8 } else { 0u8 }) by {
                if k >= 4 * i {
                    assert((4 * (i as int)) % 4 == 0 && (4 * (i as int) + 1) % 4 == 1
                        && (4 * (i as int) + 2) % 4 == 2 && (4 * (i as int) + 3) % 4 == 3)
                        by (nonlinear_arith);
                }
            }
        }
        i = i + 1;
    }
    proof {
        assert(frame@.len() == frame_len(*screen)) by (nonlinear_arith)
            requires
                frame@.len() == 4 * (screen.width * screen.height),
        ;
    }
}

/// Drawing with zero coverage leaves a well-formed buffer byte for byte
/// unchanged: the colour channels keep their old value exactly, and the
/// alpha byte was already opaque.
pub proof fn lemma_blend_zero_alpha(
    f: Seq<u8>,
    screen: ScreenDetails,
    px: int,
    py: int,
    r: u8,
    g: u8,
    b: u8,
)
    requires
        screen.wf(),
        frame_wf(f, screen),
    ensures
        blend_at_spec(f, screen, px, py, r, g, b, 0) == f,
{
    if in_screen(screen, px, py) {
        lemma_pixel_index_bounds(screen, px, py);
        let idx = pixel_index(screen, px, py);
        assert forall|oldv: int| 0 <= oldv <= 255 implies blend_channel_spec(oldv, r as int, 0) == oldv
            && blend_channel_spec(oldv, g as int, 0) == oldv
            && blend_channel_spec(oldv, b as int, 0) == oldv by {
            assert((oldv * (FX_ONE - 0) + r * 0) / (FX_ONE as int) == oldv) by (nonlinear_arith)
                requires 0 <= oldv <= 255,
            ;
            assert((oldv * (FX_ONE - 0) + g * 0) / (FX_ONE as int) == oldv) by (nonlinear_arith)
                requires 0 <= oldv <= 255,
            ;
            assert((oldv * (FX_ONE - 0) + b * 0) / (FX_ONE as int) == oldv) by (nonlinear_arith)
                requires 0 <= oldv <= 255,
            ;
        }
        assert((idx + 3) % 4 == 3);
        assert(f[idx + 3] == 255u8);
        assert(blend_at_spec(f, screen, px, py, r, g, b, 0) =~= f);
    }
}

/// Drawing with full coverage sets the pixel exactly to the new colour,
/// fully opaque.
pub proof fn lemma_blend_full_alpha(
    f: Seq<u8>,
    screen: ScreenDetails,
    px: int,
    py: int,
    r: u8,
    g: u8,
    b: u8,
)
    requires
        screen.wf(),
        frame_wf(f, screen),
        in_screen(screen, px, py),
    ensures
        ({
            let out = blend_at_spec(f, screen, px, py, r, g, b, FX_ONE as int);
            let idx = pixel_index(screen, px, py);
            &&& out[idx] == r
            &&& out[idx + 1] == g
            &&& out[idx + 2] == b
            &&& out[idx + 3] == 255u8
            &&& forall|k: int| 0 <= k < f.len() && !(idx <= k < idx + 4) ==> out[k] == f[k]
        }),
{
    lemma_pixel_index_bounds(screen, px, py);
    assert forall|oldv: int, newv: int| 0 <= oldv <= 255 && 0 <= newv <= 255
        implies blend_channel_spec(oldv, newv, FX_ONE as int) == newv by {
        assert((oldv * (FX_ONE - FX_ONE) + newv * (FX_ONE as int)) / (FX_ONE as int) == newv)
            by (nonlinear_arith)
            requires 0 <= newv <= 255,
        ;
    }
}

} // verus!
