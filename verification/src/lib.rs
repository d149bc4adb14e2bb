//! A starfield animation core: a field of twinkling, parallax-scrolling
//! background stars plus intermittently spawned shooting stars with
//! fading motion trails, composited each frame into a raw RGBA buffer.
//!
//! Every continuous quantity is fixed point (`fx`): an `i64` carrying
//! six decimal places. The per-frame contract is
//! [`scene::Simulation::render_frame`]: given a frame delta, the elapsed
//! time and the screen geometry, it mutates the buffer in place and
//! leaves it well formed; window creation, the event loop and the
//! presentation surface live outside this crate.

pub mod celestial;
pub mod frame;
pub mod fx;
pub mod sample;
pub mod scene;
pub mod screen;
pub mod shooting;
pub mod star;
