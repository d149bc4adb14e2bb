//! The celestial-object capability contract, and the per-frame
//! update / draw / retain policy that the orchestrator applies to a
//! homogeneous collection of such objects.

use vstd::prelude::*;
use crate::frame::frame_wf;
use crate::screen::ScreenDetails;

verus! {

/// Largest frame delta admitted, in fixed-point seconds (ten seconds).
pub const DT_LIMIT: i64 = 10_000_000;

/// Largest elapsed time admitted, in fixed-point seconds (about eleven
/// and a half days of wall clock).
pub const ELAPSED_LIMIT: i64 = 1_000_000_000_000;

/// An animated object of the scene: it can advance by one frame, paint
/// itself into the shared buffer, and report whether it should stay in
/// the live collection.
pub trait CelestialObject: Sized {
    /// The object's internal invariant.
    spec fn wf(&self, screen: ScreenDetails) -> bool;

    /// What `update` asks of the object beyond `wf`: bounds that keep a
    /// single frame step inside machine limits.
    spec fn upd_pre(&self, screen: ScreenDetails) -> bool;

    /// How one frame relates the state before `update` to the state
    /// after it.
    spec fn step_ok(pre: Self, post: Self, dt: int, elapsed: int, screen: ScreenDetails) -> bool;

    /// Whether the object stays in the live collection.
    spec fn alive_spec(&self, screen: ScreenDetails) -> bool;

    /// What `draw` does to the buffer: how the buffer after the call
    /// relates to the buffer before it.
    spec fn draw_post(&self, pre: Seq<u8>, post: Seq<u8>, screen: ScreenDetails) -> bool;

    /// Advance the object by one frame of `dt` seconds, `elapsed` seconds
    /// after simulation start; mutates nothing but `self`.
    fn update(&mut self, dt: i64, elapsed: i64, screen: &ScreenDetails)
        requires
            screen.wf(),
            0 <= dt <= DT_LIMIT,
            0 <= elapsed <= ELAPSED_LIMIT,
            old(self).upd_pre(*screen),
        ensures
            Self::step_ok(*old(self), *final(self), dt as int, elapsed as int, *screen),
            final(self).wf(*screen),
    ;

    /// Rasterize the object into the buffer; out-of-screen pixels are
    /// silently clipped.
    fn draw(&self, frame: &mut Vec<u8>, screen: &ScreenDetails)
        requires
            screen.wf(),
            frame_wf(old(frame)@, *screen),
            self.wf(*screen),
        ensures
            frame_wf(final(frame)@, *screen),
            self.draw_post(old(frame)@, final(frame)@, *screen),
    ;

    /// Pure liveness predicate.
    fn is_alive(&self, screen: &ScreenDetails) -> (r: bool)
        requires
            screen.wf(),
            self.wf(*screen),
        ensures
            r == self.alive_spec(*screen),
    ;
}

/// One retain pass over a collection: some pointwise-updated sequence
/// `u` of the input exists whose living members, in their incoming
/// order, are exactly the output.
pub open spec fn retain_pass_ok<T: CelestialObject>(
    pre: Seq<T>,
    post: Seq<T>,
    dt: int,
    elapsed: int,
    screen: ScreenDetails,
) -> bool {
    exists|u: Seq<T>|
        {
            &&& u.len() == pre.len()
            &&& forall|i: int|
                0 <= i < u.len() ==> #[trigger] T::step_ok(pre[i], u[i], dt, elapsed, screen)
            &&& forall|i: int| 0 <= i < u.len() ==> #[trigger] u[i].wf(screen)
            &&& post == u.filter(|t: T| t.alive_spec(screen))
        }
}

/// Appending one element to a sequence either appends it to the filtered
/// sequence or leaves the filtered sequence alone, by the predicate.
proof fn lemma_filter_push<T>(s: Seq<T>, pred: spec_fn(T) -> bool, x: T)
    ensures
        s.push(x).filter(pred) == if pred(x) {
            s.filter(pred).push(x)
        } else {
            s.filter(pred)
        },
{
    reveal(Seq::filter);
    assert(s.push(x).drop_last() =~= s);
}

/// Update every object, draw it, and retain only those still alive,
/// keeping the survivors' relative order.
#[verifier::loop_isolation(false)]
pub fn update_and_draw_objects<T: CelestialObject>(
    objects: &mut Vec<T>,
    dt: i64,
    elapsed: i64,
    frame: &mut Vec<u8>,
    screen: &ScreenDetails,
)
    requires
        screen.wf(),
        0 <= dt <= DT_LIMIT,
        0 <= elapsed <= ELAPSED_LIMIT,
        frame_wf(old(frame)@, *screen),
        forall|i: int|
            0 <= i < old(objects)@.len() ==> (#[trigger] old(objects)@[i]).upd_pre(*screen),
    ensures
        frame_wf(final(frame)@, *screen),
        retain_pass_ok(old(objects)@, final(objects)@, dt as int, elapsed as int, *screen),
        forall|i: int|
            0 <= i < final(objects)@.len() ==> (#[trigger] final(objects)@[i]).wf(*screen)
                && final(objects)@[i].alive_spec(*screen),
{
    let ghost orig = objects@;
    let ghost pred = |t: T| t.alive_spec(*screen);
    let mut survivors: Vec<T> = Vec::new();
    let ghost mut u: Seq<T> = Seq::empty();
    let n: usize = objects.len();
    let mut i: usize = 0;
    while i < n
        invariant
            i <= n,
            objects@ == orig.subrange(i as int, n as int),
            u.len() == i,
            forall|j: int|
                0 <= j < i ==> #[trigger] T::step_ok(
                    orig[j], u[j], dt as int, elapsed as int, *screen),
            forall|j: int| 0 <= j < i ==> (#[trigger] u[j]).wf(*screen),
            survivors@ == u.filter(pred),
            forall|j: int|
                0 <= j < survivors@.len() ==> (#[trigger] survivors@[j]).wf(*screen)
                    && survivors@[j].alive_spec(*screen),
            frame_wf(frame@, *screen),
        decreases n - i,
    {
        let mut obj = objects.remove(0);
        proof {
            assert(obj == orig[i as int]);
            assert(objects@ =~= orig.subrange(i as int + 1, n as int));
        }
        obj.update(dt, elapsed, screen);
        obj.draw(frame, screen);
        let alive = obj.is_alive(screen);
        proof {
            lemma_filter_push(u, pred, obj);
            u = u.push(obj);
        }
        if alive {
            survivors.push(obj);
        }
        i = i + 1;
    }
    *objects = survivors;
}

} // verus!
