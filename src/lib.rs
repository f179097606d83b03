//! RIPEMD-160 arithmetized for a lookup-based proof system.
//!
//! - `native`: RIPEMD-160 on plain integers, with its message padding.
//! - `util`, `bits`: the spread encoding, even and odd parts, bit arrays.
//! - `spread_table`: the (tag, dense, spread) lookup table of 16-bit values.
//! - `gates`: each gate's equations on cell values, with proofs that a
//!   satisfied gate fixes the correct 32-bit result.
//! - `compression`, `message_schedule`: the witness values of every gate,
//!   round by round, proved to satisfy the gates.
//! - `hasher`: hashing padded blocks through that witness generation.
pub mod constants;
pub mod native;
pub mod util;
pub mod bits;
pub mod spread_table;
pub mod gates;
pub mod compression;
pub mod message_schedule;
pub mod hasher;
