//! Verified core of a WebAssembly host/guest binding generator.
//!
//! The library parses interface descriptions, parses value-type
//! declarations, and decides how every value crosses the host/guest
//! boundary (fat pointers, little-endian argument slots, big-call
//! argument buffers).
pub mod case;
pub mod fat_ptr;
pub mod memory_buffer;
pub mod num_bytes;
pub mod text;
pub mod value_type;
pub mod parser;
pub mod plan;
pub mod binding;
pub mod shared;
pub mod timers;
