//! Calendar rendering of the instant embedded in an identifier, through the
//! chrono crate: the library computes the milliseconds, chrono turns them
//! into a datetime.

use crate::codec::{lemma_be_value_bound, pow256};
use crate::id::{spec_decode_time, HoraId};
use crate::EPOCH;
use vstd::arithmetic::div_mod::{lemma_div_is_ordered, lemma_div_pos_is_pos};
use vstd::prelude::*;

verus! {

#[verifier::external_type_specification]
#[verifier::external_body]
pub struct ExNaiveDateTime(chrono::NaiveDateTime);

/// The naive datetime that chrono builds for a count of non-leap milliseconds
/// since the Unix epoch: a function of the milliseconds alone.
pub uninterp spec fn naive_of(ms: i64) -> chrono::NaiveDateTime;

/// Relies on `chrono::DateTime::<Utc>::from_timestamp_millis`: a function of
/// its argument alone, defined for any count of non-leap milliseconds since
/// the Unix epoch within chrono's datetime range (about 262,000 years either
/// side of the common era), and `None` outside it; `naive_utc` only strips
/// the offset.
#[verifier::external_body]
fn naive_from_millis(ms: i64) -> (r: Option<chrono::NaiveDateTime>)
    ensures
        0 <= ms <= 1_000_000_000_000_000 ==> r == Some(naive_of(ms)),
{
    match chrono::DateTime::<chrono::Utc>::from_timestamp_millis(ms) {
        Some(dt) => Some(dt.naive_utc()),
        None => None,
    }
}

/// The rendered datetime depends on the identifier's time bytes alone: two
/// identifiers that agree on bytes 0-4 render the same instant, whatever
/// their machine and sequence bytes hold.
pub proof fn lemma_datetime_of_time_bytes(a: HoraId, b: HoraId)
    requires
        forall|i: int| 0 <= i < 5 ==> a@[i] == b@[i],
    ensures
        naive_of(spec_decode_time(a@) as i64) == naive_of(spec_decode_time(b@) as i64),
{
    crate::codec::lemma_be_value_prefix(a@, b@, 4);
}

impl HoraId {
    /// The embedded instant as a chrono naive datetime, to millisecond
    /// precision (lossy, as [`HoraId::decode_time`] is).
    ///
    /// The calendar value itself is chrono's business; this library proves
    /// which milliseconds are handed over, that they lie in chrono's range,
    /// and that the result depends on the identifier's first five bytes
    /// alone.
    pub fn to_datetime(&self) -> (r: chrono::NaiveDateTime)
        ensures
            r == naive_of(spec_decode_time(self@) as i64),
    {
        let ms = self.decode_time();
        proof {
            lemma_be_value_bound(self@, 4);
            crate::id::lemma_id_len(*self);
            assert(pow256(0) == 1);
            assert(pow256(1) == 256);
            assert(pow256(2) == 0x10000);
            assert(pow256(3) == 0x1000000);
            assert(pow256(4) == 0x100000000);
            lemma_div_is_ordered((self@[4] as int) * 1000, 255int * 1000, 256);
            lemma_div_pos_is_pos((self@[4] as int) * 1000, 256);
            assert(spec_decode_time(self@) <= 0xFFFFFFFFi64 * 1000 + 996 + EPOCH);
        }
        match naive_from_millis(ms as i64) {
            Some(dt) => dt,
            None => vstd::pervasive::unreached(),
        }
    }
}

} // verus!
