//! Lossy rescaling between the 0-999 milliseconds-within-second range and the
//! single identifier byte that stores it (0-255), and its approximate inverse.

use vstd::arithmetic::div_mod::{
    lemma_div_is_ordered, lemma_div_multiples_vanish, lemma_fundamental_div_mod,
    lemma_fundamental_div_mod_converse_mod,
};
use crate::TIME_SPAN;
use vstd::prelude::*;

verus! {

/// Down-scale a milliseconds value (0-999) to one byte: `floor(low * 256 / 1000)`.
pub open spec fn rescale_low_spec(low: int) -> int {
    low * 256 / 1000
}

/// Up-scale a byte (0-255) back to a milliseconds value: `floor(value * 1000 / 256)`.
pub open spec fn upscale_low_spec(value: int) -> int {
    value * 1000 / 256
}

/// Replace the milliseconds-within-second part of an offset by its down-scaled
/// byte, keeping the whole seconds: the canonical representative of the
/// offset's time bucket.
pub open spec fn rescale_epoch_spec(epoch: int) -> int {
    (epoch / 1000) * 1000 + rescale_low_spec(epoch % 1000)
}

/// The millisecond offset recovered after encoding an offset and decoding the
/// identifier again: whole seconds survive, the milliseconds pass through the
/// byte and back.
pub open spec fn round_trip_millis_spec(epoch: int) -> int {
    (epoch / 1000) * 1000 + upscale_low_spec(rescale_low_spec(epoch % 1000))
}

/// The canonical offset of some representable time bucket: a value that
/// `rescale_epoch` yields for at least one millisecond offset below the
/// format's span.
pub open spec fn is_canonical_bucket(b: u64) -> bool {
    exists|e: u64| e < TIME_SPAN && b == #[trigger] rescale_epoch_spec(e as int)
}

/// Down-scale a milliseconds-within-second value to a single byte.
///
/// The mapping is lossy: several milliseconds values share a byte. That is the
/// accepted precision trade-off of the format, not a defect.
pub fn rescale_low(value: u16) -> (r: u8)
    requires
        value < 1000,
    ensures
        r == rescale_low_spec(value as int),
{
    proof {
        lemma_div_is_ordered(value as int * 256, 999int * 256, 1000);
    }
    ((value as u32 * 256) / 1000) as u8
}

/// Up-scale an identifier byte back to a milliseconds-within-second value.
pub fn upscale_low(value: u8) -> (r: u16)
    ensures
        r == upscale_low_spec(value as int),
        r < 1000,
{
    proof {
        lemma_div_is_ordered(value as int * 1000, 255int * 1000, 256);
    }
    ((value as u32 * 1000) / 256) as u16
}

/// Round a millisecond offset down to the canonical representative of its time
/// bucket: the smallest offset whose encoded time bytes are the same.
pub fn rescale_epoch(value: u64) -> (r: u64)
    ensures
        r == rescale_epoch_spec(value as int),
        r <= value,
        r % 1000 < 256,
{
    proof {
        lemma_fundamental_div_mod(value as int, 1000);
        lemma_div_is_ordered((value as int % 1000) * 256, 999int * 256, 1000);
        lemma_div_is_ordered(
            (value as int % 1000) * 256,
            (value as int % 1000) * 1000,
            1000,
        );
        lemma_div_multiples_vanish(value as int % 1000, 1000);
        lemma_fundamental_div_mod_converse_mod(
            rescale_epoch_spec(value as int),
            1000,
            value as int / 1000,
            rescale_low_spec(value as int % 1000),
        );
    }
    let high: u64 = value / 1000;
    let low: u16 = (value % 1000) as u16;
    high * 1000 + rescale_low(low) as u64
}

/// The down-scaling is monotonic: a later millisecond never maps to an earlier
/// byte.
pub proof fn lemma_rescale_low_monotonic(a: int, b: int)
    requires
        0 <= a <= b,
    ensures
        rescale_low_spec(a) <= rescale_low_spec(b),
{
    lemma_div_is_ordered(a * 256, b * 256, 1000);
}

/// One encode/decode round trip loses at most 4 milliseconds, and never moves
/// an offset forward.
pub proof fn lemma_round_trip_bound(epoch: int)
    requires
        0 <= epoch,
    ensures
        round_trip_millis_spec(epoch) <= epoch,
        epoch - round_trip_millis_spec(epoch) <= 4,
{
    let x = epoch % 1000;
    let r = rescale_low_spec(x);
    let u = upscale_low_spec(r);
    lemma_fundamental_div_mod(epoch, 1000);
    lemma_fundamental_div_mod(x * 256, 1000);
    lemma_fundamental_div_mod(r * 1000, 256);
    assert(256 * u <= 1000 * r);
    assert(1000 * r <= 256 * x);
    assert(1000 * r > 256 * x - 1000);
    assert(256 * u > 1000 * r - 256);
    assert(u <= x);
    assert(256 * (x - u) < 1256);
    assert(x - u <= 4);
}

/// Decoded offsets are stable: a second encode/decode round trip returns the
/// first one's result unchanged, whenever the first round trip's byte survives
/// re-scaling (exactly the bytes divisible by 32).
pub proof fn lemma_round_trip_idempotent(epoch: int)
    requires
        0 <= epoch,
        rescale_low_spec(epoch % 1000) % 32 == 0,
    ensures
        round_trip_millis_spec(round_trip_millis_spec(epoch)) == round_trip_millis_spec(epoch),
{
    let x = epoch % 1000;
    let y = rescale_low_spec(x);
    lemma_fundamental_div_mod(epoch, 1000);
    lemma_fundamental_div_mod(x * 256, 1000);
    assert(0 <= y < 256) by {
        lemma_div_is_ordered(x * 256, 999int * 256, 1000);
    }
    let k = y / 32;
    lemma_fundamental_div_mod(y, 32);
    assert(y == 32 * k);
    // The up-scaling of a multiple of 32 is exact: 1000 * 32k == 256 * 125k.
    assert(y * 1000 == 256 * (125 * k));
    assert(upscale_low_spec(y) == 125 * k) by {
        lemma_div_multiples_vanish(125 * k, 256);
    }
    let u = 125 * k;
    assert(0 <= u < 1000);
    // And re-scaling that value is exact as well: 125k * 256 == 1000 * 32k.
    assert(u * 256 == 1000 * (32 * k));
    assert(rescale_low_spec(u) == y) by {
        lemma_div_multiples_vanish(32 * k, 1000);
    }
    let m1 = round_trip_millis_spec(epoch);
    assert(m1 == (epoch / 1000) * 1000 + u);
    assert(m1 / 1000 == epoch / 1000 && m1 % 1000 == u) by {
        vstd::arithmetic::div_mod::lemma_fundamental_div_mod_converse(
            m1,
            1000,
            epoch / 1000,
            u,
        );
    }
}

} // verus!
