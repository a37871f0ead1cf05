//! Fixed-capacity entity pools and a relocatable save format for the
//! object graphs that live in them.
//!
//! The crate models a real-time simulation's entity storage: bump-allocated
//! arenas hand out stable slots, intrusive doubly-linked lists order the
//! live entities, and a pointer directory flattens every reference into a
//! dense 1-based id so that the whole graph can be framed, compressed and
//! written out, then rebuilt byte-for-byte on load.

pub mod arena;
pub mod bullets;
pub mod bytes;
pub mod chunk;
pub mod dat;
pub mod entity;
pub mod errors;
pub mod linked;
pub mod mapping;
pub mod sprites;
pub mod units;
