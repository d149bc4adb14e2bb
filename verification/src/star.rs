//! Background stars: long-lived, self-recycling point lights with
//! twinkle and parallax-like depth.

use vstd::prelude::*;
use crate::celestial::{CelestialObject, DT_LIMIT, ELAPSED_LIMIT};
use crate::frame::{blend_at, frame_wf, in_screen, lemma_blend_full_alpha,
    lemma_pixel_index_bounds, lemma_pixel_index_disjoint, pixel_index, pixel_same};
use crate::fx::{fx_mul, fx_mul_spec, fx_to_px, fx_to_px_spec, lemma_fx_mul_bound,
    lemma_fx_mul_nonneg, lemma_fx_mul_shrinks, FX_ONE};
use crate::sample::{random_chance, random_in_range, random_in_range_inclusive};
use crate::screen::ScreenDetails;

verus! {

/// A full turn and a half turn, in fixed-point radians.
pub const TAU_FX: i64 = 6_283_185;
pub const PI_FX: i64 = 3_141_592;

/// Speed range of a star at creation and on recycle, in fixed-point
/// pixels per second.
pub const STAR_MIN_SPEED_FX: i64 = 5_000_000;
pub const STAR_MAX_SPEED_FX: i64 = 25_000_000;

/// Twinkle speed range, in fixed-point radians per second.
pub const TWINKLE_MIN_FX: i64 = 500_000;
pub const TWINKLE_MAX_FX: i64 = 3_140_000;

/// Square footprint range, in pixels.
pub const STAR_MIN_SIZE: u32 = 1;
pub const STAR_MAX_SIZE: u32 = 4;

/// One damping step against the sixty-hertz reference: 0.999 in fixed
/// point.
pub const DAMP_FX: i64 = 999_000;

/// The fixed five-entry palette a star's base colour is drawn from.
pub open spec fn star_palette(k: int) -> (u8, u8, u8) {
    if k == 0 {
        (180u8, 200u8, 255u8)  // blue
    } else if k == 1 {
        (255u8, 255u8, 255u8)  // white
    } else if k == 2 {
        (255u8, 255u8, 200u8)  // yellow
    } else if k == 3 {
        (255u8, 220u8, 180u8)  // orange
    } else {
        (255u8, 180u8, 180u8)  // red
    }
}

pub open spec fn is_palette_color(c: (u8, u8, u8)) -> bool {
    exists|k: int| 0 <= k < 5 && c == star_palette(k)
}

#[derive(Clone, Copy)]
pub struct Star {
    pub x: i64,
    pub y: i64,
    pub speed: i64,
    pub twinkle_phase: i64,
    pub twinkle_speed: i64,
    pub can_twinkle: bool,
    pub depth: i64,
    pub color: (u8, u8, u8),
    pub size: u32,
}

/// The speed after one frame of exponential damping calibrated against
/// a sixty-hertz reference: `n` whole reference ticks of 0.999 each.
pub open spec fn damp_steps(s: int, n: nat) -> int
    decreases n,
{
    if n == 0 {
        s
    } else {
        fx_mul_spec(damp_steps(s, (n - 1) as nat), DAMP_FX as int)
    }
}

/// The damped speed for a frame delta `dt`: the fractional part of
/// `dt * 60` reference ticks is damped first by a linear interpolation
/// of one tick's factor, then each whole tick multiplies by 0.999.
pub open spec fn damped_speed(s: int, dt: int) -> int {
    let ticks = (dt * 60) / (FX_ONE as int);
    let frac = (dt * 60) % (FX_ONE as int);
    damp_steps(fx_mul_spec(s, FX_ONE - frac / 1000), ticks as nat)
}

/// The leftward drift of one frame: the incoming speed scaled by
/// parallax depth and the frame delta. The drift reads the speed before
/// damping; only the stored speed carries the damping forward.
pub open spec fn star_drift(pre: Star, dt: int) -> int {
    fx_mul_spec(fx_mul_spec(pre.speed as int, pre.depth as int), dt)
}

/// True when this frame pushes the star past the left edge, so that it
/// is reset to the right edge.
pub open spec fn star_recycles(pre: Star, dt: int) -> bool {
    pre.x - star_drift(pre, dt) < 0
}

/// How one frame of the main update relates the state before to the
/// state after: damped speed, leftward drift, and — exactly when the
/// drift crosses the left edge — a reset to the right edge with freshly
/// randomized attributes in their creation ranges.
pub open spec fn star_step(pre: Star, post: Star, dt: int, screen: ScreenDetails) -> bool {
    let sp = damped_speed(pre.speed as int, dt);
    let xm = pre.x - star_drift(pre, dt);
    &&& post.can_twinkle == pre.can_twinkle
    &&& post.color == pre.color
    &&& if xm >= 0 {
        &&& post.x == xm
        &&& post.y == pre.y
        &&& post.speed == sp
        &&& post.depth == pre.depth
        &&& post.twinkle_phase == pre.twinkle_phase
        &&& post.twinkle_speed == pre.twinkle_speed
        &&& post.size == pre.size
    } else {
        &&& post.x == screen.width_fx()
        &&& 0 <= post.y < screen.height_fx()
        &&& FX_ONE / 2 <= post.depth < 2 * FX_ONE
        &&& 0 <= post.twinkle_phase < TAU_FX
        &&& TWINKLE_MIN_FX <= post.twinkle_speed < TWINKLE_MAX_FX
        &&& STAR_MIN_SPEED_FX <= post.speed < STAR_MAX_SPEED_FX
        &&& STAR_MIN_SIZE <= post.size <= STAR_MAX_SIZE
    }
}

/// How the twinkle-phase update relates the state before to the state
/// after: a star that can twinkle accumulates `elapsed * twinkle_speed`
/// onto its phase (the phase is kept reduced modulo one turn, which the
/// sine reads it by); every other field, and a star that cannot
/// twinkle, is untouched.
pub open spec fn twinkle_step(pre: Star, post: Star, elapsed: int) -> bool {
    &&& post.x == pre.x
    &&& post.y == pre.y
    &&& post.speed == pre.speed
    &&& post.depth == pre.depth
    &&& post.twinkle_speed == pre.twinkle_speed
    &&& post.can_twinkle == pre.can_twinkle
    &&& post.color == pre.color
    &&& post.size == pre.size
    &&& if pre.can_twinkle {
        post.twinkle_phase == (pre.twinkle_phase + fx_mul_spec(pre.twinkle_speed as int, elapsed))
            % (TAU_FX as int)
    } else {
        post.twinkle_phase == pre.twinkle_phase
    }
}

/// The square footprint a star paints: side `size`, anchored at its
/// position rounded down to whole pixels.
pub open spec fn in_footprint(s: Star, qx: int, qy: int) -> bool {
    let px0 = fx_to_px_spec(s.x as int);
    let py0 = fx_to_px_spec(s.y as int);
    px0 <= qx < px0 + s.size && py0 <= qy < py0 + s.size
}

/// The star's luminance: the sine of the twinkle phase lifted to
/// `[0, 1]`, scaled to a byte, divided by the parallax depth, and
/// clamped to at most 200.
pub open spec fn star_intensity_spec(s: Star) -> int {
    let tw = (sin_approx_spec(s.twinkle_phase as int) + FX_ONE) / 2;
    let lum = (tw * 255) / (s.depth as int);
    if lum > 200 {
        200
    } else {
        lum
    }
}

/// One colour channel of a drawn star: the palette base scaled by the
/// luminance.
pub open spec fn star_channel_spec(base: u8, s: Star) -> int {
    (base * star_intensity_spec(s)) / 255
}

impl Star {
    /// The invariant: position on the screen, speed below the creation
    /// bound (damping only lowers it), depth, phase and twinkle speed in
    /// their ranges, footprint in range, colour from the palette.
    pub open spec fn wf_spec(self, screen: ScreenDetails) -> bool {
        &&& 0 <= self.x <= screen.width_fx()
        &&& 0 <= self.y <= screen.height_fx()
        &&& 0 <= self.speed < STAR_MAX_SPEED_FX
        &&& FX_ONE / 2 <= self.depth < 4 * FX_ONE
        &&& 0 <= self.twinkle_phase < TAU_FX
        &&& TWINKLE_MIN_FX <= self.twinkle_speed < TWINKLE_MAX_FX
        &&& STAR_MIN_SIZE <= self.size <= STAR_MAX_SIZE
        &&& is_palette_color(self.color)
    }

    /// A star with uniform-random position over the full screen and
    /// uniform-random attributes in their creation ranges; about 15% of
    /// stars can twinkle.
    pub fn new(screen: &ScreenDetails) -> (s: Star)
        requires
            screen.wf(),
        ensures
            s.wf_spec(*screen),
            0 <= s.x < screen.width_fx(),
            0 <= s.y < screen.height_fx(),
            STAR_MIN_SPEED_FX <= s.speed < STAR_MAX_SPEED_FX,
            FX_ONE / 2 <= s.depth < 4 * FX_ONE,
            0 <= s.twinkle_phase < TAU_FX,
            TWINKLE_MIN_FX <= s.twinkle_speed < TWINKLE_MAX_FX,
            STAR_MIN_SIZE <= s.size <= STAR_MAX_SIZE,
            is_palette_color(s.color),
    {
        let k: i64 = random_in_range(0, 5);
        let color: (u8, u8, u8) = if k == 0 {
            (180, 200, 255)
        } else if k == 1 {
            (255, 255, 255)
        } else if k == 2 {
            (255, 255, 200)
        } else if k == 3 {
            (255, 220, 180)
        } else {
            (255, 180, 180)
        };
        proof {
            if k == 0 {
                assert(color == star_palette(0));
            } else if k == 1 {
                assert(color == star_palette(1));
            } else if k == 2 {
                assert(color == star_palette(2));
            } else if k == 3 {
                assert(color == star_palette(3));
            } else {
                assert(color == star_palette(4));
            }
        }
        Star {
            x: random_in_range(0, screen.width_fx_exec()),
            y: random_in_range(0, screen.height_fx_exec()),
            speed: random_in_range(STAR_MIN_SPEED_FX, STAR_MAX_SPEED_FX),
            can_twinkle: random_chance(150_000),
            twinkle_phase: random_in_range(0, TAU_FX),
            twinkle_speed: random_in_range(TWINKLE_MIN_FX, TWINKLE_MAX_FX),
            depth: random_in_range(FX_ONE / 2, 4 * FX_ONE),
            color,
            size: random_in_range_inclusive(STAR_MIN_SIZE, STAR_MAX_SIZE),
        }
    }

    /// Advance the twinkle phase from the elapsed time; called exactly
    /// once per frame, after the main update.
    pub fn update_twinkle(&mut self, elapsed: i64)
        requires
            0 <= elapsed <= ELAPSED_LIMIT,
            0 <= old(self).twinkle_phase < TAU_FX,
            TWINKLE_MIN_FX <= old(self).twinkle_speed < TWINKLE_MAX_FX,
        ensures
            twinkle_step(*old(self), *final(self), elapsed as int),
            0 <= final(self).twinkle_phase < TAU_FX,
    {
        if self.can_twinkle {
            proof {
                assert(0 <= self.twinkle_speed * elapsed <= 3_140_000_000_000_000_000)
                    by (nonlinear_arith)
                    requires
                        0 <= self.twinkle_speed <= TWINKLE_MAX_FX,
                        0 <= elapsed <= ELAPSED_LIMIT,
                ;
            }
            let p: i64 = self.twinkle_speed * elapsed;
            let add: i64 = ((p as u64) / (FX_ONE as u64)) as i64;
            let ph: i64 = (((self.twinkle_phase + add) as u64) % (TAU_FX as u64)) as i64;
            self.twinkle_phase = ph;
        }
    }
}

/// The damped speed for one frame, as `damped_speed` states it; never
/// negative and never above the incoming speed.
fn damp_speed(speed: i64, dt: i64) -> (r: i64)
    requires
        0 <= speed <= 1_000_000_000,
        0 <= dt <= DT_LIMIT,
    ensures
        r == damped_speed(speed as int, dt as int),
        0 <= r <= speed,
{
    let t60: i64 = dt * 60;
    proof {
        assert((t60 as u64) / (FX_ONE as u64) <= 600) by (nonlinear_arith)
            requires
                0 <= t60 <= 600_000_000,
        ;
    }
    let ticks: i64 = ((t60 as u64) / (FX_ONE as u64)) as i64;
    let frac: i64 = ((t60 as u64) % (FX_ONE as u64)) as i64;
    let factor: i64 = FX_ONE - ((frac as u64) / 1000) as i64;
    proof {
        lemma_fx_mul_shrinks(speed as int, factor as int);
    }
    let mut s: i64 = fx_mul(speed, factor);
    let ghost base = s as int;
    let mut k: i64 = 0;
    while k < ticks
        invariant
            0 <= k <= ticks <= 600,
            0 <= s <= speed <= 1_000_000_000,
            s == damp_steps(base, k as nat),
        decreases ticks - k,
    {
        proof {
            lemma_fx_mul_shrinks(s as int, DAMP_FX as int);
        }
        s = fx_mul(s, DAMP_FX);
        k = k + 1;
    }
    s
}

impl CelestialObject for Star {
    open spec fn wf(&self, screen: ScreenDetails) -> bool {
        self.wf_spec(screen)
    }

    open spec fn upd_pre(&self, screen: ScreenDetails) -> bool {
        self.wf_spec(screen)
    }

    open spec fn step_ok(pre: Star, post: Star, dt: int, elapsed: int, screen: ScreenDetails) -> bool {
        star_step(pre, post, dt, screen)
    }

    /// A star is never removed from the collection; it recycles instead.
    open spec fn alive_spec(&self, screen: ScreenDetails) -> bool {
        true
    }

    /// A star paints exactly the square of side `size` anchored at its
    /// rounded position: every in-screen pixel of it holds the palette
    /// colour scaled by the luminance, fully opaque, and every other
    /// pixel is untouched.
    open spec fn draw_post(&self, pre: Seq<u8>, post: Seq<u8>, screen: ScreenDetails) -> bool {
        &&& post.len() == pre.len()
        &&& forall|qx: int, qy: int|
            in_screen(screen, qx, qy) && in_footprint(*self, qx, qy)
                ==> post[#[trigger] pixel_index(screen, qx, qy)] == star_channel_spec(
                self.color.0, *self) as u8 && post[pixel_index(screen, qx, qy) + 1]
                == star_channel_spec(self.color.1, *self) as u8 && post[pixel_index(
                screen, qx, qy) + 2] == star_channel_spec(self.color.2, *self) as u8
                && post[pixel_index(screen, qx, qy) + 3] == 255u8
        &&& forall|qx: int, qy: int|
            in_screen(screen, qx, qy) && !in_footprint(*self, qx, qy) ==> #[trigger] pixel_same(
                pre, post, screen, qx, qy)
    }

    fn update(&mut self, dt: i64, elapsed: i64, screen: &ScreenDetails) {
        proof {
            lemma_fx_mul_bound(self.speed as int, self.depth as int, STAR_MAX_SPEED_FX as int,
                4 * FX_ONE as int);
            lemma_fx_mul_nonneg(self.speed as int, self.depth as int);
        }
        let scaled: i64 = fx_mul(self.speed, self.depth);
        let sp: i64 = damp_speed(self.speed, dt);
        self.speed = sp;
        proof {
            lemma_fx_mul_bound(scaled as int, dt as int, 100_000_000, DT_LIMIT as int);
            lemma_fx_mul_nonneg(scaled as int, dt as int);
        }
        let drift: i64 = fx_mul(scaled, dt);
        self.x = self.x - drift;
        if self.x < 0 {
            self.x = screen.width_fx_exec();
            self.y = random_in_range(0, screen.height_fx_exec());
            self.depth = random_in_range(FX_ONE / 2, 2 * FX_ONE);
            self.twinkle_phase = random_in_range(0, TAU_FX);
            self.twinkle_speed = random_in_range(TWINKLE_MIN_FX, TWINKLE_MAX_FX);
            self.speed = random_in_range(STAR_MIN_SPEED_FX, STAR_MAX_SPEED_FX);
            self.size = random_in_range_inclusive(STAR_MIN_SIZE, STAR_MAX_SIZE);
        }
    }

    /// The square footprint is painted pixel by pixel with the
    /// luminance-scaled palette colour, fully opaque (full coverage
    /// reduces the blend to an overwrite); everything else is untouched.
    #[verifier::loop_isolation(false)]
    fn draw(&self, frame: &mut Vec<u8>, screen: &ScreenDetails) {
        let s: i64 = sin_fx(self.twinkle_phase);
        let tw: i64 = (s + FX_ONE) / 2;
        let lum: i64 = (((tw as u64) * 255) / (self.depth as u64)) as i64;
        let intensity: i64 = if lum > 200 {
            200
        } else {
            lum
        };
        proof {
            assert(((self.color.0 as u64) * (intensity as u64)) / 255 <= 255
                && ((self.color.1 as u64) * (intensity as u64)) / 255 <= 255
                && ((self.color.2 as u64) * (intensity as u64)) / 255 <= 255)
                by (nonlinear_arith)
                requires
                    0 <= intensity <= 200,
            ;
            assert(intensity == star_intensity_spec(*self));
        }
        let cr: u8 = (((self.color.0 as u64) * (intensity as u64)) / 255) as u8;
        let cg: u8 = (((self.color.1 as u64) * (intensity as u64)) / 255) as u8;
        let cb: u8 = (((self.color.2 as u64) * (intensity as u64)) / 255) as u8;
        proof {
            assert(cr == star_channel_spec(self.color.0, *self) as u8);
            assert(cg == star_channel_spec(self.color.1, *self) as u8);
            assert(cb == star_channel_spec(self.color.2, *self) as u8);
        }
        let px0: i64 = fx_to_px(self.x);
        let py0: i64 = fx_to_px(self.y);
        let mut dx: u32 = 0;
        while dx < self.size
            invariant
                dx <= self.size,
                frame@.len() == old(frame)@.len(),
                frame_wf(frame@, *screen),
                forall|qx: int, qy: int|
                    in_screen(*screen, qx, qy) && in_footprint(*self, qx, qy) && qx - px0 < dx
                        ==> frame@[#[trigger] pixel_index(*screen, qx, qy)] == cr && frame@[
                        pixel_index(*screen, qx, qy) + 1] == cg && frame@[pixel_index(
                        *screen, qx, qy) + 2] == cb && frame@[pixel_index(*screen, qx, qy) + 3]
                        == 255u8,
                forall|qx: int, qy: int|
                    in_screen(*screen, qx, qy) && !(in_footprint(*self, qx, qy) && qx - px0 < dx)
                        ==> #[trigger] pixel_same(old(frame)@, frame@, *screen, qx, qy),
            decreases self.size - dx,
        {
            let mut dy: u32 = 0;
            while dy < self.size
                invariant
                    dx < self.size,
                    dy <= self.size,
                    frame@.len() == old(frame)@.len(),
                    frame_wf(frame@, *screen),
                    forall|qx: int, qy: int|
                        in_screen(*screen, qx, qy) && in_footprint(*self, qx, qy) && (qx - px0 < dx
                            || (qx - px0 == dx && qy - py0 < dy)) ==> frame@[#[trigger] pixel_index(
                            *screen, qx, qy)] == cr && frame@[pixel_index(*screen, qx, qy) + 1]
                            == cg && frame@[pixel_index(*screen, qx, qy) + 2] == cb && frame@[
                            pixel_index(*screen, qx, qy) + 3] == 255u8,
                    forall|qx: int, qy: int|
                        in_screen(*screen, qx, qy) && !(in_footprint(*self, qx, qy) && (qx - px0
                            < dx || (qx - px0 == dx && qy - py0 < dy))) ==> #[trigger] pixel_same(
                            old(frame)@, frame@, *screen, qx, qy),
                decreases self.size - dy,
            {
                let ghost before = frame@;
                let tx: i64 = px0 + dx as i64;
                let ty: i64 = py0 + dy as i64;
                blend_at(frame, screen, tx, ty, cr, cg, cb, FX_ONE);
                proof {
                    if in_screen(*screen, tx as int, ty as int) {
                        lemma_blend_full_alpha(before, *screen, tx as int, ty as int, cr, cg, cb);
                        lemma_pixel_index_bounds(*screen, tx as int, ty as int);
                    }
                    assert forall|qx: int, qy: int|
                        in_screen(*screen, qx, qy) && in_footprint(*self, qx, qy) && (qx - px0 < dx
                            || (qx - px0 == dx && qy - py0 < dy + 1)) implies frame@[
                        #[trigger] pixel_index(*screen, qx, qy)] == cr && frame@[pixel_index(
                        *screen, qx, qy) + 1] == cg && frame@[pixel_index(*screen, qx, qy) + 2]
                        == cb && frame@[pixel_index(*screen, qx, qy) + 3] == 255u8 by {
                        lemma_pixel_index_bounds(*screen, qx, qy);
                        if !(qx == tx && qy == ty) && in_screen(*screen, tx as int, ty as int) {
                            lemma_pixel_index_disjoint(*screen, qx, qy, tx as int, ty as int);
                        }
                    }
                    assert forall|qx: int, qy: int|
                        in_screen(*screen, qx, qy) && !(in_footprint(*self, qx, qy) && (qx - px0
                            < dx || (qx - px0 == dx && qy - py0 < dy + 1))) implies
                        #[trigger] pixel_same(old(frame)@, frame@, *screen, qx, qy) by {
                        assert(pixel_same(old(frame)@, before, *screen, qx, qy));
                        lemma_pixel_index_bounds(*screen, qx, qy);
                        if in_screen(*screen, tx as int, ty as int) {
                            lemma_pixel_index_disjoint(*screen, qx, qy, tx as int, ty as int);
                        }
                    }
                }
                dy = dy + 1;
            }
            dx = dx + 1;
        }
    }

    fn is_alive(&self, screen: &ScreenDetails) -> (r: bool) {
        true
    }
}

/// Bhaskara's approximation `16 x (pi - x) / (5 pi^2 - 4 x (pi - x))`
/// of the sine on `[0, pi]`, in milli-radian fixed point.
pub open spec fn bhaskara_half_spec(x: int) -> int {
    let xr = x / 1000;
    let t = xr * (3142 - xr);
    ((16 * t * 1000) / (5 * 3142 * 3142 - 4 * t)) * 1000
}

/// The sine approximation of a phase in `[0, tau)`: Bhaskara's formula
/// on the first half turn, its negation on the second.
pub open spec fn sin_approx_spec(phase: int) -> int {
    if phase <= PI_FX {
        bhaskara_half_spec(phase)
    } else {
        -bhaskara_half_spec(phase - PI_FX)
    }
}

/// The sine of a phase in `[0, tau)`, by Bhaskara's rational
/// approximation on each half turn.
pub fn sin_fx(phase: i64) -> (r: i64)
    requires
        0 <= phase < TAU_FX,
    ensures
        r == sin_approx_spec(phase as int),
        -FX_ONE <= r <= FX_ONE,
{
    if phase <= PI_FX {
        sin_half_fx(phase)
    } else {
        -sin_half_fx(phase - PI_FX)
    }
}

/// Bhaskara's approximation on `[0, pi]`, computed in milli-radians to
/// keep products small.
fn sin_half_fx(x: i64) -> (r: i64)
    requires
        0 <= x <= PI_FX,
    ensures
        r == bhaskara_half_spec(x as int),
        0 <= r <= FX_ONE,
{
    let xr: i64 = x / 1000;
    let pr: i64 = 3142;
    proof {
        assert(0 <= xr * (pr - xr) <= 2_468_041) by (nonlinear_arith)
            requires
                0 <= xr <= 3141,
                pr == 3142,
        ;
    }
    let t: i64 = xr * (pr - xr);
    let num: i64 = 16 * t;
    let den: i64 = 5 * pr * pr - 4 * t;
    proof {
        assert(0 <= (num * 1000) / (den as int) <= 1000) by (nonlinear_arith)
            requires
                0 <= num <= den,
                0 < den,
        ;
    }
    let q: i64 = ((num as u64) * 1000 / (den as u64)) as i64;
    q * 1000
}

/// Damping never makes a speed negative and never raises it.
pub proof fn lemma_damp_steps_bounds(s: int, n: nat)
    requires
        0 <= s,
    ensures
        0 <= damp_steps(s, n) <= s,
    decreases n,
{
    if n > 0 {
        lemma_damp_steps_bounds(s, (n - 1) as nat);
        lemma_fx_mul_shrinks(damp_steps(s, (n - 1) as nat), DAMP_FX as int);
    }
}

/// The damped speed stays within `[0, s]` for any admitted frame delta.
pub proof fn lemma_damped_speed_bounds(s: int, dt: int)
    requires
        0 <= s,
        0 <= dt,
    ensures
        0 <= damped_speed(s, dt) <= s,
{
    let frac = (dt * 60) % (FX_ONE as int);
    vstd::arithmetic::div_mod::lemma_mod_bound(dt * 60, FX_ONE as int);
    vstd::arithmetic::div_mod::lemma_div_pos_is_pos(dt * 60, FX_ONE as int);
    assert(0 <= FX_ONE - frac / 1000 <= FX_ONE) by (nonlinear_arith)
        requires
            0 <= frac < FX_ONE,
    ;
    lemma_fx_mul_shrinks(s, FX_ONE - frac / 1000);
    lemma_damp_steps_bounds(fx_mul_spec(s, FX_ONE - frac / 1000),
        ((dt * 60) / (FX_ONE as int)) as nat);
}

/// One main update preserves the star's invariant, whether or not it
/// recycles — so the invariant holds after any number of update calls.
pub proof fn lemma_star_step_preserves_wf(pre: Star, post: Star, dt: int, screen: ScreenDetails)
    requires
        screen.wf(),
        pre.wf_spec(screen),
        star_step(pre, post, dt, screen),
        0 <= dt,
    ensures
        post.wf_spec(screen),
{
    lemma_damped_speed_bounds(pre.speed as int, dt);
    let sp = damped_speed(pre.speed as int, dt);
    lemma_fx_mul_nonneg(sp, pre.depth as int);
    lemma_fx_mul_nonneg(fx_mul_spec(sp, pre.depth as int), dt);
}

/// One whole frame of a star: the main update followed by the twinkle
/// update, through some intermediate state.
pub open spec fn star_frame_step(
    pre: Star,
    post: Star,
    dt: int,
    elapsed: int,
    screen: ScreenDetails,
) -> bool {
    exists|m: Star| star_step(pre, m, dt, screen) && twinkle_step(m, post, elapsed)
}

/// After a recycle the star stands exactly on the right edge, inside
/// the screen band, with its footprint in range.
pub proof fn lemma_star_recycle_resets(pre: Star, post: Star, dt: int, screen: ScreenDetails)
    requires
        star_step(pre, post, dt, screen),
        star_recycles(pre, dt),
    ensures
        post.x == screen.width_fx(),
        0 <= post.x <= screen.width_fx(),
        STAR_MIN_SIZE <= post.size <= STAR_MAX_SIZE,
{
}

/// Between recycles, any frame that moves the star at all moves it
/// strictly left. (A frame whose fixed-point drift truncates to zero —
/// a tiny `dt` against a slow, shallow star — holds it still.)
pub proof fn lemma_star_x_decreases(pre: Star, post: Star, dt: int, screen: ScreenDetails)
    requires
        star_step(pre, post, dt, screen),
        !star_recycles(pre, dt),
        star_drift(pre, dt) >= 1,
    ensures
        post.x < pre.x,
{
}

/// Recycling is triggered exactly when the drift would push `x` below
/// zero; it resets `x` to the width exactly, and otherwise `x` lands on
/// the drifted position.
pub proof fn lemma_star_recycle_exact(pre: Star, post: Star, dt: int, screen: ScreenDetails)
    requires
        star_step(pre, post, dt, screen),
    ensures
        star_recycles(pre, dt) <==> pre.x - star_drift(pre, dt) < 0,
        star_recycles(pre, dt) ==> post.x == screen.width_fx(),
        !star_recycles(pre, dt) ==> post.x == pre.x - star_drift(pre, dt),
{
}

} // verus!
