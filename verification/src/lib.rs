//! Core of a grid-based first-person ray-casting renderer.
//!
//! All geometry is carried out in fixed-point arithmetic: a value of one
//! world unit is stored as [`fixed::SCALE`] ticks of an `i64`.  The crate
//! covers the tile grid and per-axis collision resolution, the per-column
//! DDA ray caster, the perspective projector with fog, and the column
//! renderer that paints a framebuffer.  Window management, input polling
//! and trigonometry on measured angles are left to the caller, which hands
//! plain fixed-point values in and takes the finished framebuffer out.

pub mod fixed;
pub mod grid;
pub mod player;
pub mod project;
pub mod ray;
pub mod render;
