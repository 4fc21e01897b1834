//! The stateful generator: a monotonic per-bucket sequence counter guarantees
//! that identifiers issued on one machine within one time bucket are distinct
//! and strictly increasing.

use crate::clock::current_epoch;
use crate::codec::{be_value, lemma_be_value_8};
use crate::id::{spec_encode, HoraId, HoraParams};
use crate::scale::{is_canonical_bucket, rescale_epoch, rescale_epoch_spec, rescale_low_spec};
use crate::{HoraError, TIME_SPAN};
use vstd::arithmetic::div_mod::lemma_fundamental_div_mod;
use vstd::prelude::*;

verus! {

/// An identifier generator with a guarantee to generate time-sorted unique
/// identifiers on a single machine.
///
/// Within one time bucket the two low bytes count up; a bucket holds at most
/// 65535 identifiers, and the generator reports exhaustion rather than wrap
/// silently. Not safe for concurrent mutation: give each thread its own
/// generator, with a distinct machine identifier.
pub struct HoraGenerator {
    /// Machine identifier, stored in byte 5 of every issued identifier.
    machine_id: u8,
    /// Sequence value encoded into the last issued identifier; reset when the
    /// time bucket advances.
    sequence: u16,
    /// The time bucket of the last issued identifier (or of construction), as
    /// the canonical offset `rescale_epoch` yields.
    last_gen: u64,
}

impl HoraGenerator {
    #[verifier::type_invariant]
    spec fn wf(self) -> bool {
        self.last_gen < TIME_SPAN && self.last_gen % 1000 < 256
    }

    /// The machine identifier this generator was built with.
    pub closed spec fn machine(self) -> u8 {
        self.machine_id
    }

    /// The sequence value encoded into the last issued identifier.
    pub closed spec fn seq_value(self) -> u16 {
        self.sequence
    }

    /// The time bucket last observed, as its canonical millisecond offset.
    pub closed spec fn last_period(self) -> u64 {
        self.last_gen
    }

    /// Build a generator for one machine, reading the clock for the initial
    /// time bucket; an error if the clock is earlier than the reference epoch.
    pub fn new(machine_id: u8) -> (r: Result<HoraGenerator, HoraError>)
        ensures
            match r {
                Ok(g) => g.machine() == machine_id && g.seq_value() == 0 && is_canonical_bucket(
                    g.last_period(),
                ),
                Err(e) => e == HoraError::Clock,
            },
    {
        let epoch = match current_epoch() {
            Ok(e) => e,
            Err(e) => {
                return Err(e);
            },
        };
        let reduced = epoch % TIME_SPAN;
        let scaled = rescale_epoch(reduced);
        proof {
            assert(is_canonical_bucket(scaled)) by {
                assert(reduced < TIME_SPAN && scaled == rescale_epoch_spec(reduced as int));
            }
        }
        Ok(HoraGenerator { machine_id, sequence: 0, last_gen: scaled })
    }

    /// Generate an identifier from the current clock: an error if the clock
    /// reads earlier than the reference epoch, or if the current bucket's
    /// sequence is exhausted.
    pub fn next(&mut self) -> (r: Result<HoraId, HoraError>)
        ensures
            match r {
                Ok(id) => exists|e: u64|
                    #[trigger] generated_at(*old(self), *final(self), e, id),
                Err(err) => *final(self) == *old(self) && (err == HoraError::Clock || (err
                    == HoraError::Capacity && old(self).seq_value() == 65535)),
            },
    {
        let epoch = match current_epoch() {
            Ok(e) => e,
            Err(e) => {
                return Err(e);
            },
        };
        let epoch = epoch % TIME_SPAN;
        let r = self.next_at(epoch);
        match r {
            Ok(id) => {
                proof {
                    assert(generated_at(*old(self), *self, epoch, id));
                }
                Ok(id)
            },
            Err(e) => Err(e),
        }
    }

    /// One generation step at an explicit millisecond offset: encode the
    /// offset with the next sequence value, resetting the sequence when the
    /// offset's bucket is strictly newer than the last observed one.
    ///
    /// Fails exactly when the bucket has not advanced and the sequence is
    /// already 65535: the hard capacity limit of one bucket. The generator is
    /// then left unchanged.
    pub fn next_at(&mut self, epoch: u64) -> (r: Result<HoraId, HoraError>)
        requires
            epoch < TIME_SPAN,
        ensures
            match r {
                Ok(id) => generated_at(*old(self), *final(self), epoch, id),
                Err(e) => e == HoraError::Capacity && rescale_epoch_spec(epoch as int) <= old(
                    self,
                ).last_period() && old(self).seq_value() == 65535 && *final(self) == *old(self),
            },
    {
        proof {
            use_type_invariant(&*self);
        }
        let scaled = rescale_epoch(epoch);
        if scaled > self.last_gen {
            self.sequence = 0;
        } else if self.sequence == 65535 {
            return Err(HoraError::Capacity);
        }
        self.sequence = self.sequence + 1;
        let id = HoraId::with_params(
            HoraParams { machine_id: self.machine_id, epoch, sequence: self.sequence },
        );
        self.last_gen = scaled;
        Ok(id)
    }
}

/// What one successful generation step at offset `epoch` did: the bucket was
/// recorded, the sequence restarted at 1 on a strictly newer bucket and
/// counted up by 1 otherwise (never wrapping), and the issued identifier
/// encodes the offset, the machine and the new sequence value.
pub open spec fn generated_at(
    pre: HoraGenerator,
    post: HoraGenerator,
    epoch: u64,
    id: HoraId,
) -> bool {
    let bucket = rescale_epoch_spec(epoch as int);
    &&& epoch < TIME_SPAN
    &&& !(bucket <= pre.last_period() && pre.seq_value() == 65535)
    &&& post.machine() == pre.machine()
    &&& post.last_period() == bucket
    &&& post.seq_value() == if bucket > pre.last_period() {
        1u16
    } else {
        (pre.seq_value() + 1) as u16
    }
    &&& id@ == spec_encode(epoch as int, pre.machine(), post.seq_value())
}

/// The 64-bit value of an encoding, written out: the whole seconds in the top
/// 32 bits, then the down-scaled milliseconds, the machine and the sequence.
pub proof fn lemma_encode_value(epoch: int, machine_id: u8, sequence: u16)
    requires
        0 <= epoch < TIME_SPAN,
    ensures
        be_value(spec_encode(epoch, machine_id, sequence), 8) == (epoch / 1000) * 0x100000000
            + rescale_low_spec(epoch % 1000) * 0x1000000 + (machine_id as int) * 0x10000
            + sequence,
{
    let s = spec_encode(epoch, machine_id, sequence);
    lemma_be_value_8(s);
    vstd::arithmetic::div_mod::lemma_div_is_ordered(epoch, TIME_SPAN as int - 1, 1000);
    let h = (epoch / 1000) as u64;
    assert(h / 0x1000000 % 256 * 0x1000000 + h / 0x10000 % 256 * 0x10000 + h / 0x100 % 256 * 0x100
        + h % 256 == h) by (bit_vector)
        requires
            h < 0x100000000,
    ;
    lemma_fundamental_div_mod(sequence as int, 256);
    vstd::arithmetic::div_mod::lemma_div_is_ordered(
        (epoch % 1000) * 256,
        999int * 256,
        1000,
    );
}

/// A strictly newer time bucket makes a strictly larger identifier, whatever
/// the sequence values; within one bucket the sequence decides.
proof fn lemma_bucket_orders_value(e1: int, e2: int, m: u8, q1: u16, q2: u16)
    requires
        0 <= e1 < TIME_SPAN,
        0 <= e2 < TIME_SPAN,
        rescale_epoch_spec(e2) > rescale_epoch_spec(e1) || (rescale_epoch_spec(e2)
            == rescale_epoch_spec(e1) && q2 > q1),
    ensures
        be_value(spec_encode(e2, m, q2), 8) > be_value(spec_encode(e1, m, q1), 8),
{
    lemma_encode_value(e1, m, q1);
    lemma_encode_value(e2, m, q2);
    let h1 = e1 / 1000;
    let h2 = e2 / 1000;
    let r1 = rescale_low_spec(e1 % 1000);
    let r2 = rescale_low_spec(e2 % 1000);
    assert(0 <= r1 < 256 && 0 <= r2 < 256) by {
        vstd::arithmetic::div_mod::lemma_div_is_ordered((e1 % 1000) * 256, 999int * 256, 1000);
        vstd::arithmetic::div_mod::lemma_div_is_ordered((e2 % 1000) * 256, 999int * 256, 1000);
        vstd::arithmetic::div_mod::lemma_div_pos_is_pos((e1 % 1000) * 256, 1000);
        vstd::arithmetic::div_mod::lemma_div_pos_is_pos((e2 % 1000) * 256, 1000);
    }
    assert(0 <= h1 && 0 <= h2) by {
        vstd::arithmetic::div_mod::lemma_div_pos_is_pos(e1, 1000);
        vstd::arithmetic::div_mod::lemma_div_pos_is_pos(e2, 1000);
    }
    // A bucket value determines its seconds and its byte: compare those parts.
    if rescale_epoch_spec(e2) > rescale_epoch_spec(e1) {
        if h2 < h1 {
            assert(false);
        } else if h2 == h1 {
            assert(r2 > r1);
        }
    } else {
        assert(h2 == h1 && r2 == r1);
    }
}

/// A run of generation steps of one generator, all at one millisecond offset:
/// a single simulated time bucket. `states` holds the generator before and
/// after each step; `ids` the issued identifiers.
pub open spec fn run_in_bucket(
    states: Seq<HoraGenerator>,
    epoch: u64,
    ids: Seq<HoraId>,
) -> bool {
    &&& states.len() == ids.len() + 1
    &&& forall|i: int|
        0 <= i < ids.len() ==> #[trigger] generated_at(states[i], states[i + 1], epoch, ids[i])
}

/// Identifiers issued by two consecutive generation steps of one generator
/// grow strictly as 64-bit integers, whenever the second step's time bucket
/// is no older than the one the first step recorded: within a bucket the
/// sequence decides, across buckets the time bytes dominate. The format makes
/// no such promise when the clock jumps backwards.
pub proof fn lemma_consecutive_ids_increase(
    g0: HoraGenerator,
    g1: HoraGenerator,
    g2: HoraGenerator,
    e1: u64,
    e2: u64,
    id1: HoraId,
    id2: HoraId,
)
    requires
        generated_at(g0, g1, e1, id1),
        generated_at(g1, g2, e2, id2),
        rescale_epoch_spec(e2 as int) >= g1.last_period(),
    ensures
        be_value(id2@, 8) > be_value(id1@, 8),
{
    lemma_bucket_orders_value(
        e1 as int,
        e2 as int,
        g0.machine(),
        g1.seq_value(),
        g2.seq_value(),
    );
}

proof fn lemma_run_pair(
    states: Seq<HoraGenerator>,
    epoch: u64,
    ids: Seq<HoraId>,
    i: int,
    j: int,
)
    requires
        run_in_bucket(states, epoch, ids),
        0 <= i < j < ids.len(),
    ensures
        be_value(ids[i]@, 8) < be_value(ids[j]@, 8),
    decreases j - i,
{
    if j > i + 1 {
        lemma_run_pair(states, epoch, ids, i, j - 1);
    }
    let k = j - 1;
    assert(generated_at(states[k], states[k + 1], epoch, ids[k]));
    assert(generated_at(states[j], states[j + 1], epoch, ids[j]));
    lemma_consecutive_ids_increase(
        states[k],
        states[k + 1],
        states[j + 1],
        epoch,
        epoch,
        ids[k],
        ids[j],
    );
}

/// Identifiers issued within a single simulated time bucket are strictly
/// increasing as 64-bit integers, and therefore pairwise distinct, however
/// many are drawn; a run longer than the bucket's capacity of 65535 cannot
/// exist, since a step never wraps the sequence.
pub proof fn lemma_run_ids_strictly_increase(
    states: Seq<HoraGenerator>,
    epoch: u64,
    ids: Seq<HoraId>,
)
    requires
        run_in_bucket(states, epoch, ids),
    ensures
        forall|i: int, j: int|
            0 <= i < j < ids.len() ==> be_value(ids[i]@, 8) < be_value(ids[j]@, 8),
{
    assert forall|i: int, j: int|
        0 <= i < j < ids.len() implies be_value(ids[i]@, 8) < be_value(ids[j]@, 8) by {
        lemma_run_pair(states, epoch, ids, i, j);
    }
}

} // verus!
