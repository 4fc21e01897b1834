//! The identifier itself: an immutable 8-byte value, its encoder, and its
//! byte, integer and hexadecimal views.

use crate::clock::current_epoch;
use crate::codec::{
    be_value, hex_chars, is_hex_digit, lemma_be_value_8, lemma_hex_chars_parse,
    lemma_pow16_increases, lemma_pow16_values, parse_hex, pow16, u64_bytes,
};
use crate::codec::{ascii_to_string, hex_digit_val};
use crate::scale::{rescale_low, rescale_low_spec, upscale_low, upscale_low_spec};
use crate::{FormatError, HoraError, EPOCH, TIME_SPAN};
use vstd::arithmetic::div_mod::lemma_div_is_ordered;
use vstd::prelude::*;
use vstd::string::StrSliceExecFns;

verus! {

/// The ingredients of one encoding: a millisecond offset from [`EPOCH`], the
/// machine identifier for byte 5, and the value of the two low bytes.
pub struct HoraParams {
    /// Machine identifier, stored in byte 5.
    pub machine_id: u8,
    /// Milliseconds elapsed since [`EPOCH`]; must lie below [`TIME_SPAN`].
    pub epoch: u64,
    /// Sequence counter (or random bytes), stored big-endian in bytes 6-7.
    pub sequence: u16,
}

/// A time-sorted 8-byte (64-bit) unique identifier.
#[derive(Debug)]
pub struct HoraId {
    inner: [u8; 8],
}

impl View for HoraId {
    type V = Seq<u8>;

    closed spec fn view(&self) -> Seq<u8> {
        self.inner@
    }
}

/// The eight bytes encoding a millisecond offset, a machine identifier and a
/// sequence value: seconds big-endian in bytes 0-3, the down-scaled
/// milliseconds in byte 4, the machine in byte 5, the sequence big-endian in
/// bytes 6-7.
pub open spec fn spec_encode(epoch: int, machine_id: u8, sequence: u16) -> Seq<u8> {
    let high = epoch / 1000;
    seq![
        (high / 0x1000000 % 256) as u8,
        (high / 0x10000 % 256) as u8,
        (high / 0x100 % 256) as u8,
        (high % 256) as u8,
        rescale_low_spec(epoch % 1000) as u8,
        machine_id,
        (sequence / 256) as u8,
        (sequence % 256) as u8,
    ]
}

/// The millisecond instant stored in an identifier's first five bytes,
/// up-scaled and shifted back past [`EPOCH`].
pub open spec fn spec_decode_time(s: Seq<u8>) -> int {
    be_value(s, 4) * 1000 + upscale_low_spec(s[4] as int) + EPOCH
}

/// The identifier encodes some offset below [`TIME_SPAN`], with the given
/// machine byte and sequence value: all a caller can know of an encoding of
/// the clock.
pub open spec fn fresh_encoding(id: HoraId, machine_id: u8, sequence: u16) -> bool {
    exists|e: u64| e < TIME_SPAN && id@ == #[trigger] spec_encode(e as int, machine_id, sequence)
}

/// Decoding an encoded offset recovers the whole seconds and the up-scaled
/// milliseconds byte: exactly one rescale round trip, shifted past [`EPOCH`].
pub proof fn lemma_decode_of_encode(epoch: int, machine_id: u8, sequence: u16)
    requires
        0 <= epoch < TIME_SPAN,
    ensures
        spec_decode_time(spec_encode(epoch, machine_id, sequence))
            == crate::scale::round_trip_millis_spec(epoch) + EPOCH,
{
    let s = spec_encode(epoch, machine_id, sequence);
    crate::codec::lemma_be_value_4(s);
    lemma_div_is_ordered(epoch, TIME_SPAN as int - 1, 1000);
    vstd::arithmetic::div_mod::lemma_div_pos_is_pos(epoch, 1000);
    let h = (epoch / 1000) as u64;
    assert(h / 0x1000000 % 256 * 0x1000000 + h / 0x10000 % 256 * 0x10000 + h / 0x100 % 256 * 0x100
        + h % 256 == h) by (bit_vector)
        requires
            h < 0x100000000,
    ;
    vstd::arithmetic::div_mod::lemma_div_is_ordered((epoch % 1000) * 256, 999int * 256, 1000);
    vstd::arithmetic::div_mod::lemma_div_pos_is_pos((epoch % 1000) * 256, 1000);
}

/// The decoded time of an encoded offset lies within 4 milliseconds below the
/// offset, for every offset the format can hold: the loss of the one-byte
/// milliseconds field, and nothing else.
pub proof fn lemma_decode_time_bound(epoch: int, machine_id: u8, sequence: u16)
    requires
        0 <= epoch < TIME_SPAN,
    ensures
        spec_decode_time(spec_encode(epoch, machine_id, sequence)) - EPOCH <= epoch,
        epoch - (spec_decode_time(spec_encode(epoch, machine_id, sequence)) - EPOCH) <= 4,
{
    lemma_decode_of_encode(epoch, machine_id, sequence);
    crate::scale::lemma_round_trip_bound(epoch);
}

/// An identifier always holds exactly eight bytes.
pub broadcast proof fn lemma_id_len(id: HoraId)
    ensures
        #[trigger] id@.len() == 8,
{
}

impl HoraId {
    /// Quickly generate a new identifier from the current clock, without any
    /// anti-collision state.
    ///
    /// Identifiers from rapid successive calls may collide: the sequence
    /// bytes are always zero. Intended only for low-frequency use; a
    /// [`crate::HoraGenerator`] or [`crate::DedupGenerator`] guarantees
    /// uniqueness within a time bucket.
    pub fn new(machine_id: Option<u8>) -> (r: Result<HoraId, HoraError>)
        ensures
            match r {
                Ok(id) => fresh_encoding(
                    id,
                    match machine_id {
                        Some(m) => m,
                        None => 0,
                    },
                    0,
                ),
                Err(err) => err == HoraError::Clock,
            },
    {
        let epoch = match current_epoch() {
            Ok(e) => e,
            Err(err) => {
                return Err(err);
            },
        };
        let epoch = epoch % TIME_SPAN;
        let m = match machine_id {
            Some(m) => m,
            None => 0,
        };
        let id = Self::with_params(HoraParams { machine_id: m, epoch, sequence: 0 });
        proof {
            assert(fresh_encoding(id, m, 0)) by {
                assert(epoch < TIME_SPAN && id@ == spec_encode(epoch as int, m, 0));
            }
        }
        Ok(id)
    }

    /// Encode one identifier from explicit parameters.
    pub fn with_params(params: HoraParams) -> (id: HoraId)
        requires
            params.epoch < TIME_SPAN,
        ensures
            id@ == spec_encode(params.epoch as int, params.machine_id, params.sequence),
    {
        let epoch = params.epoch;
        proof {
            lemma_div_is_ordered(epoch as int, TIME_SPAN as int - 1, 1000);
        }
        let high: u32 = (epoch / 1000) as u32;
        let low: u16 = (epoch % 1000) as u16;
        let q: u16 = params.sequence;
        proof {
            assert(high >> 24 == high / 0x1000000 % 256) by (bit_vector);
            assert((high >> 16) & 0xFF == high / 0x10000 % 256) by (bit_vector);
            assert((high >> 8) & 0xFF == high / 0x100 % 256) by (bit_vector);
            assert(high & 0xFF == high % 256) by (bit_vector);
            assert(q >> 8 == q / 256 && q & 0xFF == q % 256) by (bit_vector);
        }
        let b0: u8 = (high >> 24) as u8;
        let b1: u8 = ((high >> 16) & 0xFF) as u8;
        let b2: u8 = ((high >> 8) & 0xFF) as u8;
        let b3: u8 = (high & 0xFF) as u8;
        let b4: u8 = rescale_low(low);
        let b5: u8 = params.machine_id;
        let b6: u8 = (q >> 8) as u8;
        let b7: u8 = (q & 0xFF) as u8;
        let id = HoraId { inner: [b0, b1, b2, b3, b4, b5, b6, b7] };
        proof {
            assert(id@ =~= spec_encode(epoch as int, params.machine_id, q));
        }
        id
    }

    /// The identifier's value as a big-endian unsigned 64-bit integer.
    pub fn to_u64(&self) -> (n: u64)
        ensures
            n == be_value(self@, 8),
    {
        proof {
            lemma_be_value_8(self@);
        }
        (self.inner[0] as u64) * 0x100000000000000 + (self.inner[1] as u64) * 0x1000000000000
            + (self.inner[2] as u64) * 0x10000000000 + (self.inner[3] as u64) * 0x100000000 + (
        self.inner[4] as u64) * 0x1000000 + (self.inner[5] as u64) * 0x10000 + (
        self.inner[6] as u64) * 0x100 + (self.inner[7] as u64)
    }

    /// The identifier whose bytes are the big-endian split of `num`.
    pub fn from_u64(num: u64) -> (r: Option<HoraId>)
        ensures
            r matches Some(id) && id@ == u64_bytes(num),
    {
        Some(HoraId { inner: u64_to_bytes(num) })
    }

    /// The 16-character lowercase hexadecimal rendering: two digits per byte,
    /// in byte order.
    pub fn to_string(&self) -> (r: String)
        ensures
            r@ == hex_chars(self@, 8),
            r@.len() == 16,
    {
        let mut out: Vec<u8> = Vec::new();
        let mut i: usize = 0;
        while i < 8
            invariant
                i <= 8,
                out@.len() == 2 * i,
                hex_chars(self@, i as int).len() == 2 * i,
                forall|j: int| 0 <= j < out@.len() ==> #[trigger] out@[j] < 0x80,
                forall|j: int|
                    0 <= j < out@.len() ==> (#[trigger] out@[j]) as char == hex_chars(
                        self@,
                        i as int,
                    )[j],
            decreases 8 - i,
        {
            let b = self.inner[i];
            out.push(hex_ascii(b / 16));
            out.push(hex_ascii(b % 16));
            i += 1;
            proof {
                lemma_hex_chars_parse(self@, i as int);
                assert(hex_chars(self@, i as int) == hex_chars(self@, i as int - 1) + seq![
                    crate::codec::hex_char(self@[i as int - 1] as int / 16),
                    crate::codec::hex_char(self@[i as int - 1] as int % 16),
                ]);
            }
        }
        proof {
            lemma_hex_chars_parse(self@, 8);
        }
        let r = ascii_to_string(out);
        proof {
            assert forall|j: int| 0 <= j < 16 implies r@[j] == hex_chars(self@, 8)[j] by {
                assert(out@[j] < 0x80);
                assert((out@[j] as char) == hex_chars(self@, 8)[j]);
            }
            assert(r@ =~= hex_chars(self@, 8));
        }
        r
    }

    /// Parse an identifier from exactly 16 hexadecimal characters, upper or
    /// lower case, and say why any other input is refused.
    pub fn from_hex_string(s: &str) -> (r: Result<HoraId, FormatError>)
        ensures
            match r {
                Ok(id) => s@.len() == 16 && (forall|i: int|
                    0 <= i < 16 ==> is_hex_digit(#[trigger] s@[i])) && be_value(id@, 8)
                    == parse_hex(s@, 16),
                Err(FormatError::WrongLength) => s@.len() != 16,
                Err(FormatError::InvalidHex) => s@.len() == 16 && exists|i: int|
                    0 <= i < 16 && !is_hex_digit(#[trigger] s@[i]),
            },
    {
        if s.unicode_len() != 16 {
            return Err(FormatError::WrongLength);
        }
        let mut val: u64 = 0;
        let mut i: usize = 0;
        while i < 16
            invariant
                i <= 16,
                s@.len() == 16,
                val == parse_hex(s@, i as int),
                val < pow16(i as int),
                forall|j: int| 0 <= j < i ==> is_hex_digit(#[trigger] s@[j]),
            decreases 16 - i,
        {
            let c = s.get_char(i);
            match hex_digit_val(c) {
                None => {
                    return Err(FormatError::InvalidHex);
                },
                Some(d) => {
                    proof {
                        lemma_pow16_increases(i as int, 15);
                        lemma_pow16_values();
                    }
                    val = val * 16 + (d as u64);
                },
            }
            i += 1;
        }
        let arr = u64_to_bytes(val);
        Ok(HoraId { inner: arr })
    }

    /// Parse an identifier from a string slice, folding both failure reasons
    /// into an absent result.
    pub fn from_str(s: &str) -> (r: Option<HoraId>)
        ensures
            match r {
                Some(id) => s@.len() == 16 && (forall|i: int|
                    0 <= i < 16 ==> is_hex_digit(#[trigger] s@[i])) && be_value(id@, 8)
                    == parse_hex(s@, 16),
                None => !(s@.len() == 16 && forall|i: int|
                    0 <= i < 16 ==> is_hex_digit(#[trigger] s@[i])),
            },
    {
        match Self::from_hex_string(s) {
            Ok(id) => Some(id),
            Err(_) => None,
        }
    }

    /// The identifier's raw bytes.
    pub fn as_bytes(&self) -> (r: &[u8])
        ensures
            r@ == self@,
    {
        self.inner.as_slice()
    }

    /// The millisecond instant stored in the identifier, as milliseconds
    /// since the Unix epoch: the embedded seconds, the up-scaled
    /// milliseconds byte, and [`EPOCH`] added back.
    ///
    /// Lossy relative to the instant that was encoded: the milliseconds pass
    /// through one byte, losing at most 4 milliseconds
    /// ([`crate::scale::lemma_round_trip_bound`]).
    pub fn decode_time(&self) -> (ms: u64)
        ensures
            ms == spec_decode_time(self@),
    {
        proof {
            crate::codec::lemma_be_value_4(self@);
        }
        let high: u64 = (self.inner[0] as u64) * 0x1000000 + (self.inner[1] as u64) * 0x10000 + (
        self.inner[2] as u64) * 0x100 + (self.inner[3] as u64);
        let up: u16 = upscale_low(self.inner[4]);
        high * 1000 + up as u64 + EPOCH
    }
}

/// The lowercase hexadecimal digit for a nibble, as an ASCII byte.
fn hex_ascii(n: u8) -> (r: u8)
    requires
        n < 16,
    ensures
        r < 0x80,
        r as char == crate::codec::hex_char(n as int),
{
    if n < 10 {
        0x30 + n
    } else {
        0x57 + n
    }
}

/// Split a 64-bit value into its eight big-endian bytes.
fn u64_to_bytes(num: u64) -> (arr: [u8; 8])
    ensures
        arr@ == u64_bytes(num),
        be_value(arr@, 8) == num,
{
    proof {
        assert(num >> 56 == num / 0x100000000000000 % 256) by (bit_vector);
        assert((num >> 48) & 0xFF == num / 0x1000000000000 % 256) by (bit_vector);
        assert((num >> 40) & 0xFF == num / 0x10000000000 % 256) by (bit_vector);
        assert((num >> 32) & 0xFF == num / 0x100000000 % 256) by (bit_vector);
        assert((num >> 24) & 0xFF == num / 0x1000000 % 256) by (bit_vector);
        assert((num >> 16) & 0xFF == num / 0x10000 % 256) by (bit_vector);
        assert((num >> 8) & 0xFF == num / 0x100 % 256) by (bit_vector);
        assert(num & 0xFF == num % 256) by (bit_vector);
    }
    let b0: u8 = (num >> 56) as u8;
    let b1: u8 = ((num >> 48) & 0xFF) as u8;
    let b2: u8 = ((num >> 40) & 0xFF) as u8;
    let b3: u8 = ((num >> 32) & 0xFF) as u8;
    let b4: u8 = ((num >> 24) & 0xFF) as u8;
    let b5: u8 = ((num >> 16) & 0xFF) as u8;
    let b6: u8 = ((num >> 8) & 0xFF) as u8;
    let b7: u8 = (num & 0xFF) as u8;
    let arr = [b0, b1, b2, b3, b4, b5, b6, b7];
    proof {
        assert(arr@ =~= u64_bytes(num));
        crate::codec::lemma_be_of_u64_bytes(num);
    }
    arr
}

} // verus!
