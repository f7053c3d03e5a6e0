//! Protocol engine of a ground-side client for a small flying robot.
//!
//! The library holds the logic of the packet protocol: framing, typed values
//! and their little-endian codec, table-of-contents discovery and caching, the
//! parameter, log and memory subsystems, and the small command encoders.
//! Everything that moves packets over a radio is left to the caller.
pub mod bytes;
pub mod error;
pub mod value;
pub mod packet;
pub mod supervisor;
pub mod toc;
pub mod toc_cache;
pub mod trajectory;
pub mod param;
pub mod log;
pub mod memory;
pub mod memory_views;
pub mod onewire;
pub mod positioning;
pub mod commands;
pub mod connection;
pub mod console;
