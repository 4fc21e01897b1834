//! Time-sorted 8-byte unique identifiers.
//!
//! An identifier packs a millisecond-resolution timestamp and a per-machine
//! disambiguator into a fixed 8-byte value. Identifiers sort lexicographically
//! (and as big-endian 64-bit integers) in generation order, at half the length
//! of a UUID or ULID.
//!
//! Layout, big-endian throughout:
//! - bytes 0-3: whole seconds since the reference epoch ([`EPOCH`])
//! - byte 4: milliseconds within the second, down-scaled from 0-999 to 0-255
//! - byte 5: machine identifier
//! - bytes 6-7: sequence counter (or random bytes in the dedup mode)
//!
//! [`HoraGenerator`] issues identifiers with a monotonic per-bucket sequence
//! counter; [`DedupGenerator`] issues identifiers with random low bytes and a
//! per-bucket set of already issued values.

use vstd::prelude::*;

pub mod clock;
pub mod codec;
pub mod datetime;
pub mod dedup;
pub mod generator;
pub mod id;
pub mod scale;

pub use clock::epoch_from_unix_millis;
pub use dedup::DedupGenerator;
pub use generator::HoraGenerator;
pub use id::HoraId;
pub use id::HoraParams;
pub use scale::rescale_epoch;
pub use scale::rescale_low;
pub use scale::upscale_low;

verus! {

/// The reference epoch: 2025-01-01T00:00:00Z, in milliseconds since the Unix
/// epoch. Time zero of every identifier; changing it changes the meaning of
/// every previously issued identifier.
pub const EPOCH: u64 = 1735689600000;

/// Milliseconds representable in the 32-bit seconds field of an identifier:
/// `1000 * 2^32`. Offsets are reduced modulo this span before encoding, which
/// matches truncating the seconds to 32 bits.
pub const TIME_SPAN: u64 = 0x3E8_0000_0000;

/// Failures of the stateful generators and of one-shot generation.
#[derive(Clone, Copy, Debug, PartialEq, Eq, Structural)]
pub enum HoraError {
    /// The system clock reads earlier than [`EPOCH`]; unrecoverable, never
    /// silently clamped.
    Clock,
    /// The anti-collision state for the current time bucket is exhausted:
    /// the sequence counter would wrap past 65535, or the dedup retry budget
    /// ran out.
    Capacity,
}

/// Failures of parsing an identifier from text.
#[derive(Clone, Copy, Debug, PartialEq, Eq, Structural)]
pub enum FormatError {
    /// The input is not exactly 16 characters long.
    WrongLength,
    /// The input has the right length but holds a non-hexadecimal character.
    InvalidHex,
}

} // verus!
