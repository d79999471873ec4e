//! Verified core of an interactive drawing surface.
//!
//! The library models a canvas of 2D objects (freehand strokes, images,
//! text, shapes) together with the pointer-driven interaction engine that
//! creates, selects, moves, resizes and rotates them, and the stroke
//! pipeline that turns raw pointer samples into smooth, width-varying ink.
//!
//! All coordinates, widths and radii are fixed-point integers in
//! thousandths of a pixel (milli-pixels), so that every geometric
//! computation is exact and provable. The embedding layer converts
//! between screen floats and milli-pixels at the boundary and owns the
//! actual rendering backend; the core only emits drawable geometry.

pub mod geometry;
pub mod state;
pub mod utils;
pub mod engine;
pub mod draw;
