//! A small verified ray-casting core.
//!
//! The library models rays, sphere and triangle primitives, and a scene
//! of primitives, over exact fixed-point integer coordinates.  Each hit
//! test carries a contract that pins down exactly which rays hit and
//! where, and the tracer is proved to implement nearest-hit resolution:
//! a linear scan that keeps the strictly nearest hit, ties going to the
//! primitive seen first.

pub mod arith;
pub mod color;
pub mod ray;
pub mod scene;
pub mod sphere;
pub mod triangle;
pub mod vec3;
