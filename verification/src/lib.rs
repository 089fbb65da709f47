//! Decision logic of a snow overlay: the byte layout of the records that the
//! GPU reads, the host-side mirror of a uniform, the host's window list, the
//! choice of a surface format, the per-display engine state and the context
//! that fans lifecycle calls out to every engine.
//!
//! Real numbers are carried as IEEE-754 bit patterns (`u32` for single
//! precision, `u64` for double precision); the library never computes on them.

pub mod layout;
pub mod records;
pub mod utils;
pub mod host;
pub mod surface;
pub mod snow;
pub mod gfx;
