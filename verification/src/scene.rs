//! The simulation orchestrator: it owns the fixed star population and
//! the varying shooting-star collection, and drives the fixed per-frame
//! protocol — clear, update and draw every star (with its twinkle
//! step), decide one spawn, then update, draw and cull the shooting
//! stars.

use vstd::prelude::*;
use crate::celestial::{retain_pass_ok, update_and_draw_objects, CelestialObject, DT_LIMIT,
    ELAPSED_LIMIT};
use crate::frame::{clear_frame, frame_wf};
use crate::fx::fx_mul;
use crate::sample::{random_chance, random_in_range};
use crate::screen::ScreenDetails;
use crate::shooting::{ShootingStar, MAX_LIFE_FX};
use crate::star::{star_frame_step, star_step, twinkle_step, Star};

verus! {

/// The fixed star population.
pub const STAR_COUNT: usize = 5000;

/// Spawn probability per second of frame delta.
pub const SPAWN_COEFF_FX: i64 = 300_000;

/// The spawn region and velocity ranges of a fresh shooting star, in
/// fixed point: off the right edge, in the upper band of the screen,
/// flying left and slightly down.
pub const SPAWN_X_OFFSET_FX: i64 = 50_000_000;
pub const SPAWN_Y_MIN_FX: i64 = 50_000_000;
pub const SPAWN_VX_MIN_FX: i64 = 200_000_000;
pub const SPAWN_VX_MAX_FX: i64 = 400_000_000;
pub const SPAWN_VY_MIN_FX: i64 = 10_000_000;
pub const SPAWN_VY_MAX_FX: i64 = 50_000_000;

/// What the spawn policy promises of a fresh shooting star.
pub open spec fn spawn_ok(s: ShootingStar, screen: ScreenDetails) -> bool {
    &&& s.x == screen.width_fx() + SPAWN_X_OFFSET_FX
    &&& SPAWN_Y_MIN_FX <= s.y < 2 * screen.height_fx() / 5
    &&& -SPAWN_VX_MAX_FX < s.vx <= -SPAWN_VX_MIN_FX
    &&& SPAWN_VY_MIN_FX <= s.vy < SPAWN_VY_MAX_FX
    &&& s.life == 0
    &&& s.max_life == MAX_LIFE_FX
    &&& s.trail@.len() == 0
    &&& s.wf_spec()
}

pub struct Simulation {
    pub stars: Vec<Star>,
    pub shooting_stars: Vec<ShootingStar>,
}

impl Simulation {
    /// The orchestrator's invariant: the star population holds its
    /// fixed count with every star well-formed, and every retained
    /// shooting star is well-formed and alive.
    pub open spec fn wf(self, screen: ScreenDetails) -> bool {
        &&& self.stars@.len() == STAR_COUNT
        &&& forall|i: int|
            0 <= i < self.stars@.len() ==> (#[trigger] self.stars@[i]).wf_spec(screen)
        &&& forall|i: int|
            0 <= i < self.shooting_stars@.len() ==> (#[trigger] self.shooting_stars@[i]).wf_spec()
                && self.shooting_stars@[i].alive(screen)
    }

    /// A fresh simulation: the full star population at uniform-random
    /// positions, and no shooting stars yet.
    pub fn new(screen: &ScreenDetails) -> (sim: Simulation)
        requires
            screen.wf(),
        ensures
            sim.wf(*screen),
            sim.stars@.len() == STAR_COUNT,
            sim.shooting_stars@.len() == 0,
    {
        let mut stars: Vec<Star> = Vec::new();
        while stars.len() < STAR_COUNT
            invariant
                stars@.len() <= STAR_COUNT,
                forall|i: int| 0 <= i < stars@.len() ==> (#[trigger] stars@[i]).wf_spec(*screen),
                screen.wf(),
            decreases STAR_COUNT - stars@.len(),
        {
            stars.push(Star::new(screen));
        }
        Simulation { stars, shooting_stars: Vec::new() }
    }

    /// Render one frame: clear the buffer to opaque black; update,
    /// twinkle and draw every star; with probability `dt` times the
    /// spawn coefficient, spawn one shooting star off the right edge;
    /// then update, draw and retain the shooting stars.
    ///
    /// The spawn band `[50, 0.4 * height)` must be non-empty, hence the
    /// demand on the height.
    #[verifier::loop_isolation(false)]
    pub fn render_frame(
        &mut self,
        dt: i64,
        elapsed: i64,
        frame: &mut Vec<u8>,
        screen: &ScreenDetails,
    )
        requires
            screen.wf(),
            screen.height >= 126,
            old(self).wf(*screen),
            0 <= dt <= DT_LIMIT,
            0 <= elapsed <= ELAPSED_LIMIT,
        ensures
            final(self).wf(*screen),
            frame_wf(final(frame)@, *screen),
            final(self).stars@.len() == STAR_COUNT,
            forall|i: int|
                0 <= i < STAR_COUNT ==> #[trigger] star_frame_step(
                    old(self).stars@[i], final(self).stars@[i], dt as int, elapsed as int,
                    *screen),
            exists|pre: Seq<ShootingStar>|
                (pre == old(self).shooting_stars@ || (pre.len() == old(
                    self).shooting_stars@.len() + 1 && pre.drop_last() == old(
                    self).shooting_stars@ && spawn_ok(pre.last(), *screen)))
                    && #[trigger] retain_pass_ok(
                    pre, final(self).shooting_stars@, dt as int, elapsed as int, *screen),
            // a zero delta has spawn probability zero, so no star appears
            dt == 0 ==> retain_pass_ok(
                old(self).shooting_stars@, final(self).shooting_stars@, 0, elapsed as int,
                *screen),
    {
        clear_frame(frame, screen);

        // stars: main update, twinkle update, draw — never removed
        let ghost orig_stars = old(self).stars@;
        let n: usize = self.stars.len();
        let mut i: usize = 0;
        while i < n
            invariant
                i <= n,
                n == STAR_COUNT,
                self.stars@.len() == n,
                self.shooting_stars@ == old(self).shooting_stars@,
                forall|j: int| i <= j < n ==> self.stars@[j] == orig_stars[j],
                forall|j: int|
                    0 <= j < i ==> #[trigger] star_frame_step(
                        orig_stars[j], self.stars@[j], dt as int, elapsed as int, *screen),
                forall|j: int| 0 <= j < i ==> (#[trigger] self.stars@[j]).wf_spec(*screen),
                frame_wf(frame@, *screen),
            decreases n - i,
        {
            let mut st: Star = self.stars[i];
            proof {
                assert(st == orig_stars[i as int]);
                assert((old(self).stars@[i as int]).wf_spec(*screen));
                assert(st.wf_spec(*screen));
            }
            st.update(dt, elapsed, screen);
            let ghost mid = st;
            st.update_twinkle(elapsed);
            st.draw(frame, screen);
            self.stars[i] = st;
            proof {
                assert(star_step(orig_stars[i as int], mid, dt as int, *screen));
                assert(twinkle_step(mid, st, elapsed as int));
                assert(star_frame_step(orig_stars[i as int], st, dt as int, elapsed as int,
                    *screen));
                assert(st.wf_spec(*screen));
            }
            i = i + 1;
        }

        let ghost stars_done = self.stars@;
        proof {
            assert forall|ii: int| 0 <= ii < STAR_COUNT implies #[trigger] star_frame_step(
                old(self).stars@[ii], stars_done[ii], dt as int, elapsed as int, *screen) by {
                assert(old(self).stars@[ii] == orig_stars[ii]);
                assert(star_frame_step(orig_stars[ii], self.stars@[ii], dt as int,
                    elapsed as int, *screen));
            }
        }

        // spawn policy: probability dt * 0.3 per frame
        let ghost old_ss = self.shooting_stars@;
        proof {
            assert(screen.width_fx() <= 16_384_000_000);
            assert(screen.height_fx() <= 16_384_000_000);
        }
        let p: i64 = fx_mul(dt, SPAWN_COEFF_FX);
        if random_chance(p) {
            let sx: i64 = screen.width_fx_exec() + SPAWN_X_OFFSET_FX;
            let hf: i64 = screen.height_fx_exec();
            let y_max: i64 = (((hf as u64) * 2) / 5) as i64;
            let sy: i64 = random_in_range(SPAWN_Y_MIN_FX, y_max);
            let vx: i64 = -random_in_range(SPAWN_VX_MIN_FX, SPAWN_VX_MAX_FX);
            let vy: i64 = random_in_range(SPAWN_VY_MIN_FX, SPAWN_VY_MAX_FX);
            let fresh = ShootingStar::new(sx, sy, vx, vy);
            proof {
                assert(spawn_ok(fresh, *screen));
                assert(fresh.upd_pre(*screen));
            }
            self.shooting_stars.push(fresh);
            proof {
                assert(self.shooting_stars@.last() == fresh);
                assert(self.shooting_stars@.drop_last() =~= old_ss);
                assert(spawn_ok(self.shooting_stars@.last(), *screen));
                assert forall|k: int| 0 <= k < self.shooting_stars@.len() implies (
                    #[trigger] self.shooting_stars@[k]).upd_pre(*screen) by {
                    if k < old_ss.len() {
                        assert(self.shooting_stars@[k] == old_ss[k]);
                        assert(old_ss[k].wf_spec() && old_ss[k].alive(*screen));
                    } else {
                        assert(self.shooting_stars@[k] == fresh);
                    }
                }
            }
        }

        // update, draw and cull the shooting stars
        let ghost pre_seq = self.shooting_stars@;
        proof {
            assert forall|k: int| 0 <= k < pre_seq.len() implies (#[trigger] pre_seq[
                k]).upd_pre(*screen) by {
                if pre_seq.len() == old_ss.len() {
                    assert(pre_seq[k] == old_ss[k]);
                    assert(old_ss[k].wf_spec() && old_ss[k].alive(*screen));
                }
            }
        }
        update_and_draw_objects(&mut self.shooting_stars, dt, elapsed, frame, screen);
        proof {
            if pre_seq.len() == old_ss.len() + 1 {
                assert(pre_seq.drop_last() =~= old_ss);
                assert(spawn_ok(pre_seq.last(), *screen));
            } else {
                assert(pre_seq == old_ss);
            }
            assert(retain_pass_ok(pre_seq, self.shooting_stars@, dt as int, elapsed as int,
                *screen));
            assert(self.stars@ == stars_done);
            assert forall|ii: int| 0 <= ii < STAR_COUNT implies #[trigger] star_frame_step(
                old(self).stars@[ii], self.stars@[ii], dt as int, elapsed as int, *screen) by {
                assert(self.stars@[ii] == stars_done[ii]);
                assert(star_frame_step(old(self).stars@[ii], stars_done[ii], dt as int,
                    elapsed as int, *screen));
            }
        }
    }
}

} // verus!
