//! Shooting stars: short-lived, physics-driven streaks with a bounded
//! trail of past positions, self-expiring.

use vstd::prelude::*;
use crate::celestial::{CelestialObject, DT_LIMIT};
use crate::frame::{blend_at, blend_at_spec, blend_channel_spec, frame_wf, in_screen,
    lemma_blend_at_spec_props, lemma_blend_zero_alpha, lemma_pixel_index_bounds, pixel_index,
    pixel_same};
use crate::fx::{fx_div, fx_mul, fx_mul_dt, fx_mul_spec, fx_div_spec, fx_to_px, fx_to_px_spec,
    isqrt, lemma_fx_mul_bound, lemma_fx_mul_zero, lemma_sqrt_floor_unique, sqrt_floor, FX_ONE};
use crate::screen::ScreenDetails;

verus! {

/// Constant downward acceleration, in fixed-point pixels per second squared.
pub const GRAVITY_FX: i64 = 30_000_000;

/// Fixed lifetime of a shooting star, in fixed-point seconds.
pub const MAX_LIFE_FX: i64 = 3_000_000;

/// Bound on the trail history; the oldest sample is evicted beyond it.
pub const TRAIL_MAX: usize = 80;

/// How far outside the screen a shooting star may travel before it is
/// culled, in fixed-point pixels.
pub const MARGIN_FX: i64 = 200_000_000;

/// Magnitude bounds that keep the physics inside `i64`: a thousand
/// pixels per second of launch speed either way, coordinates within a
/// hundred thousand pixels or so of the origin, and life within about a
/// hundred (held) to a thousand (stored) seconds.
pub const VX_LIMIT: i64 = 1_000_000_000;
pub const VY_LIMIT: i64 = 1_000_000_000;
pub const POS_LIMIT: i64 = 400_000_000_000;
pub const UPD_POS_LIMIT: i64 = 200_000_000_000;
pub const UPD_LIFE_LIMIT: i64 = 100_000_000;
pub const LIFE_WF_LIMIT: i64 = 1_000_000_000;

/// The mathematical state of a shooting star.
pub ghost struct ShootingModel {
    pub x: int,
    pub y: int,
    pub vx: int,
    pub vy: int,
    pub life: int,
    pub max_life: int,
    pub trail: Seq<(int, int)>,
}

/// One frame of the shooting-star physics: push the current position on
/// the trail (evicting the oldest sample beyond the bound), integrate
/// the motion under gravity, and accumulate life.
pub open spec fn model_step(m: ShootingModel, dt: int) -> ShootingModel {
    let pushed = m.trail.push((m.x, m.y));
    let trail = if pushed.len() > TRAIL_MAX {
        pushed.subrange(1, pushed.len() as int)
    } else {
        pushed
    };
    let vy2 = m.vy + fx_mul_spec(GRAVITY_FX as int, dt);
    ShootingModel {
        x: m.x + fx_mul_spec(m.vx, dt),
        y: m.y + fx_mul_spec(vy2, dt),
        vx: m.vx,
        vy: vy2,
        life: m.life + dt,
        max_life: m.max_life,
        trail,
    }
}

/// The coverage a soft point of side `size` gives the pixel at offset
/// `(dx, dy)` from its centre: the point's alpha attenuated by the
/// squared radial falloff of the euclidean distance over the radius.
pub open spec fn point_alpha(alpha: int, dx: int, dy: int, size: int) -> int {
    let dist = sqrt_floor((dx * dx + dy * dy) * 1_000_000_000_000);
    let radius = size * (FX_ONE as int / 2);
    let ratio_raw = fx_div_spec(dist, radius);
    let ratio = if ratio_raw >= FX_ONE {
        FX_ONE as int
    } else {
        ratio_raw
    };
    fx_mul_spec(alpha, fx_mul_spec(FX_ONE - ratio, FX_ONE - ratio))
}

/// The buffer after the first `k` pixels of a soft point (row by row
/// over the square of side `2 * (size / 2) + 1` centred on the point's
/// rounded position) have been blended with their radial coverage.
pub open spec fn draw_point_prefix(
    f: Seq<u8>,
    screen: ScreenDetails,
    x: int,
    y: int,
    r: u8,
    g: u8,
    b: u8,
    alpha: int,
    size: int,
    k: nat,
) -> Seq<u8>
    decreases k,
{
    if k == 0 {
        f
    } else {
        let prev = draw_point_prefix(f, screen, x, y, r, g, b, alpha, size, (k - 1) as nat);
        let half = size / 2;
        let side = 2 * half + 1;
        let j = (k - 1) as int;
        let dxo = j / side;
        let dyo = j % side;
        blend_at_spec(prev, screen, fx_to_px_spec(x) - half + dxo, fx_to_px_spec(y) - half + dyo,
            r, g, b, point_alpha(alpha, dxo - half, dyo - half, size))
    }
}

/// The buffer after one whole soft point is rasterized.
pub open spec fn draw_point_spec(
    f: Seq<u8>,
    screen: ScreenDetails,
    x: int,
    y: int,
    r: u8,
    g: u8,
    b: u8,
    alpha: int,
    size: int,
) -> Seq<u8> {
    let half = size / 2;
    let side = 2 * half + 1;
    draw_point_prefix(f, screen, x, y, r, g, b, alpha, size, (side * side) as nat)
}

/// The global fade of a shooting star: one minus the spent fraction of
/// its life, clamped to `[0, 1]`.
pub open spec fn fade_alpha_spec(life: int, max_life: int) -> int {
    let d = fx_div_spec(life, max_life);
    if d >= FX_ONE {
        0
    } else {
        FX_ONE - d
    }
}

/// The trail colour ramp: warm white toward the newest sample, orange
/// and red toward the oldest, and the stroke width growing with
/// progress.
pub open spec fn trail_r_spec(p: int) -> int {
    (255 * (4 * FX_ONE + p)) / (5 * FX_ONE as int)
}

pub open spec fn trail_g_spec(p: int) -> int {
    (255 * (3 * FX_ONE + 2 * p)) / (5 * FX_ONE as int)
}

pub open spec fn trail_b_spec(p: int) -> int {
    100 + (155 * (FX_ONE - p)) / (FX_ONE as int)
}

pub open spec fn trail_width_spec(p: int) -> int {
    1 + (3 * p) / (FX_ONE as int)
}

/// The buffer after the first `k` trail samples of a shooting star are
/// drawn: sample `i` of `n` has progress `i / n` and coverage
/// `fade * progress^2`; samples below the visibility cull are skipped.
pub open spec fn draw_trail_prefix(f: Seq<u8>, screen: ScreenDetails, s: ShootingStar, k: nat) -> Seq<u8>
    decreases k,
{
    if k == 0 {
        f
    } else {
        let prev = draw_trail_prefix(f, screen, s, (k - 1) as nat);
        let n = s.trail@.len() as int;
        let i = (k - 1) as int;
        let p = fx_div_spec(i, n);
        let fade = fade_alpha_spec(s.life as int, s.max_life as int);
        let ta = fx_mul_spec(fade, fx_mul_spec(p, p));
        if ta >= 10_000 {
            draw_point_spec(prev, screen, s.trail@[i].0 as int, s.trail@[i].1 as int,
                trail_r_spec(p) as u8, trail_g_spec(p) as u8, trail_b_spec(p) as u8, ta,
                trail_width_spec(p))
        } else {
            prev
        }
    }
}

/// The buffer after a shooting star is drawn: every bright-enough trail
/// sample as one soft point, then — unless the global fade has run out —
/// the six-pixel bright head at the current position.
pub open spec fn shooting_draw_spec(f: Seq<u8>, screen: ScreenDetails, s: ShootingStar) -> Seq<u8> {
    let fade = fade_alpha_spec(s.life as int, s.max_life as int);
    let tail = draw_trail_prefix(f, screen, s, s.trail@.len());
    if fade > 10_000 {
        draw_point_spec(tail, screen, s.x as int, s.y as int, 255u8, 255u8, 220u8, fade, 6)
    } else {
        tail
    }
}

pub struct ShootingStar {
    pub x: i64,
    pub y: i64,
    pub vx: i64,
    pub vy: i64,
    pub life: i64,
    pub max_life: i64,
    pub trail: Vec<(i64, i64)>,
    pub trail_max_len: usize,
}

impl ShootingStar {
    /// The mathematical state this star holds.
    pub open spec fn model(self) -> ShootingModel {
        ShootingModel {
            x: self.x as int,
            y: self.y as int,
            vx: self.vx as int,
            vy: self.vy as int,
            life: self.life as int,
            max_life: self.max_life as int,
            trail: self.trail@.map_values(|p: (i64, i64)| (p.0 as int, p.1 as int)),
        }
    }

    /// The invariant: the fixed constants hold their values, the speeds
    /// and life stay inside the bounds that the physics maintains (the
    /// vertical speed can only have grown by gravity over the star's
    /// life), and every held coordinate is bounded.
    pub open spec fn wf_spec(self) -> bool {
        &&& self.max_life == MAX_LIFE_FX
        &&& self.trail_max_len == TRAIL_MAX
        &&& -VX_LIMIT <= self.vx <= VX_LIMIT
        &&& 0 <= self.life <= LIFE_WF_LIMIT
        &&& 0 <= self.vy <= VY_LIMIT + 30 * self.life
        &&& -POS_LIMIT <= self.x <= POS_LIMIT
        &&& -POS_LIMIT <= self.y <= POS_LIMIT
        &&& self.trail@.len() <= TRAIL_MAX
        &&& forall|i: int|
            0 <= i < self.trail@.len() ==> -POS_LIMIT <= (#[trigger] self.trail@[i]).0
                <= POS_LIMIT && -POS_LIMIT <= self.trail@[i].1 <= POS_LIMIT
    }

    /// Alive while life has not expired and the position stays inside
    /// the screen rectangle expanded by the margin on every side.
    pub open spec fn alive(self, screen: ScreenDetails) -> bool {
        &&& self.life < self.max_life
        &&& -MARGIN_FX < self.x
        &&& self.x < screen.width_fx() + MARGIN_FX
        &&& -MARGIN_FX < self.y
        &&& self.y < screen.height_fx() + MARGIN_FX
    }

    /// Spawn a star at `(x, y)` with velocity `(vx, vy)`, no life spent
    /// and an empty trail.
    pub fn new(start_x: i64, start_y: i64, vx: i64, vy: i64) -> (s: ShootingStar)
        requires
            -UPD_POS_LIMIT <= start_x <= UPD_POS_LIMIT,
            -UPD_POS_LIMIT <= start_y <= UPD_POS_LIMIT,
            -VX_LIMIT <= vx <= VX_LIMIT,
            0 <= vy <= VY_LIMIT,
        ensures
            s.x == start_x,
            s.y == start_y,
            s.vx == vx,
            s.vy == vy,
            s.life == 0,
            s.max_life == MAX_LIFE_FX,
            s.trail@ =~= Seq::<(i64, i64)>::empty(),
            s.wf_spec(),
    {
        ShootingStar {
            x: start_x,
            y: start_y,
            vx,
            vy,
            life: 0,
            max_life: MAX_LIFE_FX,
            trail: Vec::new(),
            trail_max_len: TRAIL_MAX,
        }
    }

    /// Rasterize one soft point: a square of side `2 * (size / 2) + 1`
    /// centred on the fixed-point coordinate, each pixel blended with
    /// the point colour at its radial coverage — exactly the pixel fold
    /// that `draw_point_spec` states.
    #[verifier::loop_isolation(false)]
    pub fn draw_point(
        &self,
        frame: &mut Vec<u8>,
        screen: &ScreenDetails,
        x: i64,
        y: i64,
        r: u8,
        g: u8,
        b: u8,
        alpha: i64,
        size: i64,
    )
        requires
            screen.wf(),
            frame_wf(old(frame)@, *screen),
            0 <= alpha <= FX_ONE,
            1 <= size <= 8,
            -2 * POS_LIMIT <= x <= 2 * POS_LIMIT,
            -2 * POS_LIMIT <= y <= 2 * POS_LIMIT,
        ensures
            frame_wf(final(frame)@, *screen),
            final(frame)@ == draw_point_spec(
                old(frame)@, *screen, x as int, y as int, r, g, b, alpha as int, size as int),
    {
        let cx: i64 = fx_to_px(x);
        let cy: i64 = fx_to_px(y);
        let half: i64 = size / 2;
        let side: i64 = 2 * half + 1;
        let radius_fx: i64 = size * (FX_ONE / 2);
        proof {
            assert((-half + half) * side == 0) by (nonlinear_arith);
        }
        let mut dx: i64 = -half;
        while dx <= half
            invariant
                -half <= dx <= half + 1,
                frame_wf(frame@, *screen),
                frame@ == draw_point_prefix(
                    old(frame)@, *screen, x as int, y as int, r, g, b, alpha as int, size as int,
                    ((dx + half) * side) as nat),
            decreases half + 1 - dx,
        {
            let mut dy: i64 = -half;
            while dy <= half
                invariant
                    -half <= dx <= half,
                    -half <= dy <= half + 1,
                    frame_wf(frame@, *screen),
                    frame@ == draw_point_prefix(
                        old(frame)@, *screen, x as int, y as int, r, g, b, alpha as int,
                        size as int, ((dx + half) * side + (dy + half)) as nat),
                decreases half + 1 - dy,
            {
                let px: i64 = cx + dx;
                let py: i64 = cy + dy;
                proof {
                    assert(0 <= dx * dx <= 16 && 0 <= dy * dy <= 16) by (nonlinear_arith)
                        requires
                            -4 <= dx <= 4,
                            -4 <= dy <= 4,
                    ;
                }
                let d2: i64 = dx * dx + dy * dy;
                // the euclidean distance to the centre, in fixed point:
                // sqrt(d2) * FX_ONE == sqrt(d2 * FX_ONE^2)
                let root: u64 = isqrt((d2 as u64) * 1_000_000_000_000);
                proof {
                    assert(root <= 6_000_000) by (nonlinear_arith)
                        requires
                            root * root <= 32_000_000_000_000,
                    ;
                }
                let dist_fx: i64 = root as i64;
                let ratio_raw: i64 = fx_div(dist_fx, radius_fx);
                let ratio: i64 = if ratio_raw >= FX_ONE {
                    FX_ONE
                } else {
                    ratio_raw
                };
                proof {
                    lemma_fx_mul_bound(
                        (FX_ONE - ratio) as int, (FX_ONE - ratio) as int,
                        FX_ONE as int, FX_ONE as int);
                }
                let falloff: i64 = fx_mul(FX_ONE - ratio, FX_ONE - ratio);
                proof {
                    lemma_fx_mul_bound(alpha as int, falloff as int, FX_ONE as int, FX_ONE as int);
                }
                let final_alpha: i64 = fx_mul(alpha, falloff);
                proof {
                    assert(final_alpha == point_alpha(
                        alpha as int, dx as int, dy as int, size as int));
                }
                let ghost count = ((dx + half) * side + (dy + half)) as int;
                blend_at(frame, screen, px, py, r, g, b, final_alpha);
                proof {
                    vstd::arithmetic::div_mod::lemma_fundamental_div_mod_converse(
                        count, side as int, (dx + half) as int, (dy + half) as int);
                    assert(frame@ == draw_point_prefix(
                        old(frame)@, *screen, x as int, y as int, r, g, b, alpha as int,
                        size as int, (count + 1) as nat));
                }
                dy = dy + 1;
            }
            proof {
                assert((dx + half) * side + (half + 1 + half) == (dx + 1 + half) * side)
                    by (nonlinear_arith)
                    requires
                        side == 2 * half + 1,
                ;
            }
            dx = dx + 1;
        }
        proof {
            assert((half + 1 + half) * side == side * side) by (nonlinear_arith)
                requires
                    side == 2 * half + 1,
            ;
        }
    }
}

/// A shooting star stops being alive exactly once its life reaches its
/// lifetime, or once its position leaves the screen rectangle expanded
/// by the margin — and for no other reason.
pub proof fn lemma_alive_iff(s: ShootingStar, screen: ScreenDetails)
    ensures
        !s.alive(screen) <==> (s.life >= s.max_life || s.x <= -MARGIN_FX || s.x
            >= screen.width_fx() + MARGIN_FX || s.y <= -MARGIN_FX || s.y >= screen.height_fx()
            + MARGIN_FX),
{
}

/// The trail is a FIFO history with a hard bound: one step appends the
/// current position; at the bound the oldest sample — and only it — is
/// evicted, so the sample that was second-oldest becomes oldest.
pub proof fn lemma_trail_fifo(m: ShootingModel, dt: int)
    requires
        m.trail.len() <= TRAIL_MAX,
    ensures
        model_step(m, dt).trail.len() <= TRAIL_MAX,
        m.trail.len() < TRAIL_MAX ==> model_step(m, dt).trail == m.trail.push((m.x, m.y)),
        m.trail.len() == TRAIL_MAX ==> model_step(m, dt).trail == m.trail.push(
            (m.x, m.y)).subrange(1, TRAIL_MAX + 1),
        m.trail.len() == TRAIL_MAX ==> model_step(m, dt).trail[0] == m.trail[1]
            && model_step(m, dt).trail.last() == (m.x, m.y),
{
}

/// At the exact centre of a soft point the distance is zero and the
/// falloff one, so the coverage is the point's own alpha.
pub proof fn lemma_point_alpha_centre(alpha: int, size: int)
    requires
        1 <= size,
        0 <= alpha <= FX_ONE,
    ensures
        point_alpha(alpha, 0, 0, size) == alpha,
{
    lemma_sqrt_floor_unique(0, 0);
    let radius = size * (FX_ONE as int / 2);
    assert(size * (FX_ONE as int / 2) >= 1) by (nonlinear_arith)
        requires
            size >= 1,
    ;
    assert((0 * (FX_ONE as int)) / radius == 0) by (nonlinear_arith)
        requires
            radius >= 1,
    ;
    assert(((FX_ONE as int) * (FX_ONE as int)) / (FX_ONE as int) == FX_ONE as int)
        by (nonlinear_arith);
    assert((alpha * (FX_ONE as int)) / (FX_ONE as int) == alpha && alpha * (FX_ONE as int) >= 0)
        by (nonlinear_arith)
        requires
            0 <= alpha,
    ;
}

/// At or beyond the radius the radial falloff has run out: the
/// coverage of such a pixel is zero, whatever the point's alpha.
pub proof fn lemma_point_alpha_beyond_radius(alpha: int, dx: int, dy: int, size: int)
    requires
        1 <= size,
        sqrt_floor((dx * dx + dy * dy) * 1_000_000_000_000) >= size * (FX_ONE as int / 2),
    ensures
        point_alpha(alpha, dx, dy, size) == 0,
{
    let dist = sqrt_floor((dx * dx + dy * dy) * 1_000_000_000_000);
    let radius = size * (FX_ONE as int / 2);
    assert(radius >= 1 && (dist * (FX_ONE as int)) / radius >= FX_ONE) by (nonlinear_arith)
        requires
            size >= 1,
            dist >= size * (FX_ONE as int / 2),
            radius == size * (FX_ONE as int / 2),
    ;
    lemma_fx_mul_zero(0);
    lemma_fx_mul_zero(alpha);
    assert((alpha * 0) / (FX_ONE as int) == 0) by (nonlinear_arith);
}

/// The pixel fold of a soft point keeps the buffer well formed, keeps
/// its length, and touches only pixels of the square of side
/// `2 * (size / 2) + 1` centred on the rounded position.
pub proof fn lemma_draw_point_prefix_props(
    f: Seq<u8>,
    screen: ScreenDetails,
    x: int,
    y: int,
    r: u8,
    g: u8,
    b: u8,
    alpha: int,
    size: int,
    k: nat,
)
    requires
        screen.wf(),
        frame_wf(f, screen),
        1 <= size,
        k <= (2 * (size / 2) + 1) * (2 * (size / 2) + 1),
    ensures
        frame_wf(draw_point_prefix(f, screen, x, y, r, g, b, alpha, size, k), screen),
        draw_point_prefix(f, screen, x, y, r, g, b, alpha, size, k).len() == f.len(),
        forall|qx: int, qy: int|
            in_screen(screen, qx, qy) && !(fx_to_px_spec(x) - size / 2 <= qx <= fx_to_px_spec(x)
                + size / 2 && fx_to_px_spec(y) - size / 2 <= qy <= fx_to_px_spec(y) + size / 2)
                ==> #[trigger] pixel_same(
                f, draw_point_prefix(f, screen, x, y, r, g, b, alpha, size, k), screen, qx, qy),
    decreases k,
{
    if k > 0 {
        lemma_draw_point_prefix_props(f, screen, x, y, r, g, b, alpha, size, (k - 1) as nat);
        let prev = draw_point_prefix(f, screen, x, y, r, g, b, alpha, size, (k - 1) as nat);
        let half = size / 2;
        let side = 2 * half + 1;
        let j = (k - 1) as int;
        let dxo = j / side;
        let dyo = j % side;
        vstd::arithmetic::div_mod::lemma_fundamental_div_mod(j, side);
        vstd::arithmetic::div_mod::lemma_mod_bound(j, side);
        vstd::arithmetic::div_mod::lemma_div_pos_is_pos(j, side);
        assert(dxo < side) by (nonlinear_arith)
            requires
                j == dxo * side + dyo,
                0 <= dyo < side,
                0 <= dxo,
                0 < side,
                j < side * side,
        ;
        let px = fx_to_px_spec(x) - half + dxo;
        let py = fx_to_px_spec(y) - half + dyo;
        let av = point_alpha(alpha, dxo - half, dyo - half, size);
        lemma_blend_at_spec_props(prev, screen, px, py, r, g, b, av);
        assert forall|qx: int, qy: int|
            in_screen(screen, qx, qy) && !(fx_to_px_spec(x) - size / 2 <= qx <= fx_to_px_spec(x)
                + size / 2 && fx_to_px_spec(y) - size / 2 <= qy <= fx_to_px_spec(y) + size / 2)
                implies #[trigger] pixel_same(
            f, draw_point_prefix(f, screen, x, y, r, g, b, alpha, size, k), screen, qx, qy) by {
            assert(pixel_same(f, prev, screen, qx, qy));
            assert(!(qx == px && qy == py));
            assert(pixel_same(prev, draw_point_prefix(
                f, screen, x, y, r, g, b, alpha, size, k), screen, qx, qy));
        }
    }
}

proof fn lemma_draw_point_prefix_zero(
    f: Seq<u8>,
    screen: ScreenDetails,
    x: int,
    y: int,
    r: u8,
    g: u8,
    b: u8,
    size: int,
    k: nat,
)
    requires
        screen.wf(),
        frame_wf(f, screen),
        1 <= size,
    ensures
        draw_point_prefix(f, screen, x, y, r, g, b, 0, size, k) == f,
    decreases k,
{
    if k > 0 {
        lemma_draw_point_prefix_zero(f, screen, x, y, r, g, b, size, (k - 1) as nat);
        let half = size / 2;
        let side = 2 * half + 1;
        let j = (k - 1) as int;
        let dxo = j / side;
        let dyo = j % side;
        lemma_fx_mul_zero(fx_mul_spec(
            FX_ONE - (if fx_div_spec(sqrt_floor(((dxo - half) * (dxo - half) + (dyo - half) * (
                dyo - half)) * 1_000_000_000_000), size * (FX_ONE as int / 2)) >= FX_ONE {
                FX_ONE as int
            } else {
                fx_div_spec(sqrt_floor(((dxo - half) * (dxo - half) + (dyo - half) * (dyo - half))
                    * 1_000_000_000_000), size * (FX_ONE as int / 2))
            }),
            FX_ONE - (if fx_div_spec(sqrt_floor(((dxo - half) * (dxo - half) + (dyo - half) * (
                dyo - half)) * 1_000_000_000_000), size * (FX_ONE as int / 2)) >= FX_ONE {
                FX_ONE as int
            } else {
                fx_div_spec(sqrt_floor(((dxo - half) * (dxo - half) + (dyo - half) * (dyo - half))
                    * 1_000_000_000_000), size * (FX_ONE as int / 2))
            })));
        assert(point_alpha(0, dxo - half, dyo - half, size) == 0);
        lemma_blend_zero_alpha(f, screen, fx_to_px_spec(x) - half + dxo,
            fx_to_px_spec(y) - half + dyo, r, g, b);
    }
}

/// Zero coverage draws nothing: a soft point with alpha zero leaves a
/// well-formed buffer byte for byte unchanged.
pub proof fn lemma_draw_point_zero_alpha(
    f: Seq<u8>,
    screen: ScreenDetails,
    x: int,
    y: int,
    r: u8,
    g: u8,
    b: u8,
    size: int,
)
    requires
        screen.wf(),
        frame_wf(f, screen),
        1 <= size,
    ensures
        draw_point_spec(f, screen, x, y, r, g, b, 0, size) == f,
{
    let half = size / 2;
    let side = 2 * half + 1;
    assert(side * side >= 0) by (nonlinear_arith)
        requires
            side >= 1,
    ;
    lemma_draw_point_prefix_zero(f, screen, x, y, r, g, b, size, (side * side) as nat);
}

proof fn lemma_draw_point_prefix_centre(
    f: Seq<u8>,
    screen: ScreenDetails,
    x: int,
    y: int,
    r: u8,
    g: u8,
    b: u8,
    alpha: int,
    size: int,
    k: nat,
)
    requires
        screen.wf(),
        frame_wf(f, screen),
        1 <= size <= 8,
        0 <= alpha <= FX_ONE,
        in_screen(screen, fx_to_px_spec(x), fx_to_px_spec(y)),
        k <= (2 * (size / 2) + 1) * (2 * (size / 2) + 1),
    ensures
        ({
            let half = size / 2;
            let side = 2 * half + 1;
            let lin = half * side + half;
            let out = draw_point_prefix(f, screen, x, y, r, g, b, alpha, size, k);
            let idx = pixel_index(screen, fx_to_px_spec(x), fx_to_px_spec(y));
            &&& k <= lin ==> out[idx] == f[idx] && out[idx + 1] == f[idx + 1] && out[idx + 2]
                == f[idx + 2] && out[idx + 3] == f[idx + 3]
            &&& k > lin ==> out[idx] == blend_channel_spec(f[idx] as int, r as int, alpha) as u8
                && out[idx + 1] == blend_channel_spec(f[idx + 1] as int, g as int, alpha) as u8
                && out[idx + 2] == blend_channel_spec(f[idx + 2] as int, b as int, alpha) as u8
                && out[idx + 3] == 255u8
        }),
    decreases k,
{
    let half = size / 2;
    let side = 2 * half + 1;
    let lin = half * side + half;
    let cx = fx_to_px_spec(x);
    let cy = fx_to_px_spec(y);
    let idx = pixel_index(screen, cx, cy);
    lemma_pixel_index_bounds(screen, cx, cy);
    if k > 0 {
        lemma_draw_point_prefix_centre(f, screen, x, y, r, g, b, alpha, size, (k - 1) as nat);
        lemma_draw_point_prefix_props(f, screen, x, y, r, g, b, alpha, size, (k - 1) as nat);
        let prev = draw_point_prefix(f, screen, x, y, r, g, b, alpha, size, (k - 1) as nat);
        let out = draw_point_prefix(f, screen, x, y, r, g, b, alpha, size, k);
        let j = (k - 1) as int;
        let dxo = j / side;
        let dyo = j % side;
        vstd::arithmetic::div_mod::lemma_fundamental_div_mod(j, side);
        vstd::arithmetic::div_mod::lemma_mod_bound(j, side);
        vstd::arithmetic::div_mod::lemma_div_pos_is_pos(j, side);
        let px = cx - half + dxo;
        let py = cy - half + dyo;
        if j == lin {
            vstd::arithmetic::div_mod::lemma_fundamental_div_mod_converse(j, side, half, half);
            assert(dxo == half && dyo == half);
            lemma_point_alpha_centre(alpha, size);
            assert(out == blend_at_spec(prev, screen, cx, cy, r, g, b, alpha));
        } else {
            if dxo == half && dyo == half {
                assert(j == lin) by (nonlinear_arith)
                    requires
                        j == side * dxo + dyo,
                        dxo == half,
                        dyo == half,
                        lin == half * side + half,
                ;
            }
            assert(!(px == cx && py == cy));
            lemma_blend_at_spec_props(prev, screen, px, py, r, g, b,
                point_alpha(alpha, dxo - half, dyo - half, size));
            assert(pixel_same(prev, out, screen, cx, cy));
        }
    }
}

/// At the centre pixel of a soft point the falloff is one: drawing the
/// point blends that pixel's channels with the point colour at the
/// point's own alpha and makes it opaque — with full alpha, exactly the
/// new colour.
pub proof fn lemma_draw_point_centre(
    f: Seq<u8>,
    screen: ScreenDetails,
    x: int,
    y: int,
    r: u8,
    g: u8,
    b: u8,
    alpha: int,
    size: int,
)
    requires
        screen.wf(),
        frame_wf(f, screen),
        1 <= size <= 8,
        0 <= alpha <= FX_ONE,
        in_screen(screen, fx_to_px_spec(x), fx_to_px_spec(y)),
    ensures
        ({
            let out = draw_point_spec(f, screen, x, y, r, g, b, alpha, size);
            let idx = pixel_index(screen, fx_to_px_spec(x), fx_to_px_spec(y));
            &&& out[idx] == blend_channel_spec(f[idx] as int, r as int, alpha) as u8
            &&& out[idx + 1] == blend_channel_spec(f[idx + 1] as int, g as int, alpha) as u8
            &&& out[idx + 2] == blend_channel_spec(f[idx + 2] as int, b as int, alpha) as u8
            &&& out[idx + 3] == 255u8
            &&& alpha == FX_ONE ==> out[idx] == r && out[idx + 1] == g && out[idx + 2] == b
                && out[idx + 3] == 255u8
        }),
{
    let half = size / 2;
    let side = 2 * half + 1;
    assert(half * side + half < side * side) by (nonlinear_arith)
        requires
            side == 2 * half + 1,
            0 <= half,
    ;
    lemma_draw_point_prefix_centre(f, screen, x, y, r, g, b, alpha, size, (side * side) as nat);
    if alpha == FX_ONE {
        let idx = pixel_index(screen, fx_to_px_spec(x), fx_to_px_spec(y));
        lemma_pixel_index_bounds(screen, fx_to_px_spec(x), fx_to_px_spec(y));
        assert forall|oldv: int, newv: int| 0 <= oldv <= 255 && 0 <= newv <= 255
            implies blend_channel_spec(oldv, newv, FX_ONE as int) == newv by {
            assert((oldv * (FX_ONE - FX_ONE) + newv * (FX_ONE as int)) / (FX_ONE as int) == newv)
                by (nonlinear_arith)
                requires
                    0 <= newv <= 255,
            ;
        }
    }
}

proof fn lemma_trail_prefix_fade_zero(f: Seq<u8>, screen: ScreenDetails, s: ShootingStar, k: nat)
    requires
        fade_alpha_spec(s.life as int, s.max_life as int) == 0,
    ensures
        draw_trail_prefix(f, screen, s, k) == f,
    decreases k,
{
    if k > 0 {
        lemma_trail_prefix_fade_zero(f, screen, s, (k - 1) as nat);
        let i = (k - 1) as int;
        let p = fx_div_spec(i, s.trail@.len() as int);
        lemma_fx_mul_zero(fx_mul_spec(p, p));
    }
}

/// An expired shooting star — its global fade has run out — draws
/// nothing: the buffer is byte for byte unchanged.
pub proof fn lemma_draw_expired_unchanged(f: Seq<u8>, screen: ScreenDetails, s: ShootingStar)
    requires
        fade_alpha_spec(s.life as int, s.max_life as int) == 0,
    ensures
        shooting_draw_spec(f, screen, s) == f,
{
    lemma_trail_prefix_fade_zero(f, screen, s, s.trail@.len());
}

impl CelestialObject for ShootingStar {
    open spec fn wf(&self, screen: ScreenDetails) -> bool {
        self.wf_spec()
    }

    /// Beyond the invariant, one step must start from a position and a
    /// life that a live star (or a fresh spawn) can have, so that the
    /// step stays inside machine limits.
    open spec fn upd_pre(&self, screen: ScreenDetails) -> bool {
        &&& self.wf_spec()
        &&& -UPD_POS_LIMIT <= self.x <= UPD_POS_LIMIT
        &&& -UPD_POS_LIMIT <= self.y <= UPD_POS_LIMIT
        &&& self.life <= UPD_LIFE_LIMIT
    }

    /// One frame advances the mathematical state by exactly one
    /// `model_step`; the trail bound is kept.
    open spec fn step_ok(
        pre: ShootingStar,
        post: ShootingStar,
        dt: int,
        elapsed: int,
        screen: ScreenDetails,
    ) -> bool {
        &&& post.model() == model_step(pre.model(), dt)
        &&& post.trail_max_len == pre.trail_max_len
    }

    open spec fn alive_spec(&self, screen: ScreenDetails) -> bool {
        self.alive(screen)
    }

    /// The draw produces exactly the buffer that `shooting_draw_spec`
    /// states: the visible trail samples blended oldest first, then the
    /// bright head unless the fade has run out.
    open spec fn draw_post(&self, pre: Seq<u8>, post: Seq<u8>, screen: ScreenDetails) -> bool {
        post == shooting_draw_spec(pre, screen, *self)
    }

    fn update(&mut self, dt: i64, elapsed: i64, screen: &ScreenDetails) {
        let ghost pre = *self;
        self.trail.push((self.x, self.y));
        if self.trail.len() > self.trail_max_len {
            self.trail.remove(0);
        }
        proof {
            lemma_fx_mul_bound(self.vx as int, dt as int, VX_LIMIT as int, DT_LIMIT as int);
            lemma_fx_mul_bound(GRAVITY_FX as int, dt as int, GRAVITY_FX as int, DT_LIMIT as int);
        }
        self.x = self.x + fx_mul(self.vx, dt);
        self.vy = self.vy + fx_mul(GRAVITY_FX, dt);
        proof {
            lemma_fx_mul_bound(self.vy as int, dt as int, 5_000_000_000, DT_LIMIT as int);
        }
        self.y = self.y + fx_mul_dt(self.vy, dt);
        self.life = self.life + dt;
        proof {
            assert(self.model().trail =~= model_step(pre.model(), dt as int).trail);
            assert(fx_mul_spec(GRAVITY_FX as int, dt as int) == 30 * dt);
        }
    }

    /// Draw the trail as a comet tail — older samples dimmer, thinner
    /// and redder, newer samples brighter, wider and warmer — then the
    /// bright head, all under a global fade that runs out with life.
    #[verifier::loop_isolation(false)]
    fn draw(&self, frame: &mut Vec<u8>, screen: &ScreenDetails) {
        let faded: i64 = fx_div(self.life, self.max_life);
        let alpha: i64 = if faded >= FX_ONE {
            0
        } else {
            FX_ONE - faded
        };
        proof {
            assert(alpha == fade_alpha_spec(self.life as int, self.max_life as int));
        }
        let n: usize = self.trail.len();
        let mut i: usize = 0;
        while i < n
            invariant
                i <= n,
                frame_wf(frame@, *screen),
                frame@ == draw_trail_prefix(old(frame)@, *screen, *self, i as nat),
            decreases n - i,
        {
            let p: (i64, i64) = self.trail[i];
            let progress: i64 = fx_div(i as i64, n as i64);
            proof {
                assert(fx_div_spec(i as int, n as int) < FX_ONE) by (nonlinear_arith)
                    requires
                        0 <= (i as int) < (n as int),
                ;
                lemma_fx_mul_bound(progress as int, progress as int, FX_ONE as int, FX_ONE as int);
                lemma_fx_mul_bound(
                    alpha as int, fx_mul_spec(progress as int, progress as int),
                    FX_ONE as int, FX_ONE as int);
            }
            let trail_alpha: i64 = fx_mul(alpha, fx_mul(progress, progress));
            if trail_alpha >= 10_000 {
                proof {
                    let pg = progress as int;
                    assert(0 <= 255 * (4 * FX_ONE + pg) / (5 * FX_ONE as int) <= 255
                        && 0 <= 255 * (3 * FX_ONE + 2 * pg) / (5 * FX_ONE as int) <= 255
                        && 0 <= 100 + (155 * (FX_ONE - pg)) / (FX_ONE as int) <= 255
                        && 0 <= (3 * pg) / (FX_ONE as int) <= 3) by (nonlinear_arith)
                        requires
                            0 <= pg < FX_ONE,
                    ;
                }
                // warm white at the head end, orange/red toward the tail
                let cr: u8 = ((255u64 * ((4 * FX_ONE as u64) + (progress as u64)))
                    / (5 * FX_ONE as u64)) as u8;
                let cg: u8 = ((255u64 * ((3 * FX_ONE as u64) + 2 * (progress as u64)))
                    / (5 * FX_ONE as u64)) as u8;
                let cb: u8 = (100 + (155u64 * ((FX_ONE - progress) as u64)) / (FX_ONE as u64)) as u8;
                let width: i64 = 1 + (3 * progress) / FX_ONE;
                proof {
                    assert(cr == trail_r_spec(progress as int) as u8);
                    assert(cg == trail_g_spec(progress as int) as u8);
                    assert(cb == trail_b_spec(progress as int) as u8);
                    assert(width == trail_width_spec(progress as int));
                }
                self.draw_point(frame, screen, p.0, p.1, cr, cg, cb, trail_alpha, width);
            }
            proof {
                assert(frame@ == draw_trail_prefix(old(frame)@, *screen, *self, (i + 1) as nat));
            }
            i = i + 1;
        }
        if alpha > 10_000 {
            self.draw_point(frame, screen, self.x, self.y, 255, 255, 220, alpha, 6);
        }
    }

    fn is_alive(&self, screen: &ScreenDetails) -> (r: bool) {
        self.life < self.max_life && self.x > -MARGIN_FX
            && self.x < screen.width_fx_exec() + MARGIN_FX && self.y > -MARGIN_FX
            && self.y < screen.height_fx_exec() + MARGIN_FX
    }
}

} // verus!
