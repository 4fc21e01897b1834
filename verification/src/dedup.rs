//! The randomized generator: random low bytes and a per-bucket set of already
//! issued values guarantee that identifiers issued within one time bucket are
//! distinct, without any ordering guarantee.

use crate::clock::current_epoch;
use crate::codec::be_value;
use crate::id::{spec_encode, HoraId, HoraParams};
use crate::scale::{is_canonical_bucket, rescale_epoch, rescale_epoch_spec};
use crate::{HoraError, TIME_SPAN};
use vstd::hash_set::HashSetWithView;
use vstd::prelude::*;

verus! {

broadcast use vstd::std_specs::hash::axiom_u64_obeys_hash_table_key_model;

/// How many random draws one generation attempt may make before reporting the
/// bucket as exhausted, rather than retrying forever.
pub const RETRY_LIMIT: u32 = 1000;

/// Relies on `rand::random`: two uniformly random bytes. Nothing is assumed
/// of the value; callers handle every outcome. The thread-local generator's
/// first use panics if the operating system's entropy source fails — an
/// environmental failure, like running out of memory, that no caller can
/// exclude.
#[verifier::external_body]
fn random_u16() -> u16 {
    rand::random::<u16>()
}

/// An identifier generator that disambiguates identifiers within one time
/// bucket by random low bytes, re-drawing them until the raw 8-byte value has
/// not been issued in the bucket yet.
///
/// Collision probability per draw is about 1/65536, so one draw almost always
/// suffices; after [`RETRY_LIMIT`] colliding draws a generation call fails
/// loudly rather than return a possible duplicate. Not safe for concurrent
/// mutation: give each thread its own generator, with a distinct machine
/// identifier.
pub struct DedupGenerator {
    /// Machine identifier, stored in byte 5 of every issued identifier.
    machine_id: u8,
    /// The time bucket of the last issued identifier (or of construction), as
    /// the canonical offset `rescale_epoch` yields.
    last_gen: u64,
    /// The raw values issued in the current time bucket; cleared when the
    /// bucket advances.
    recently_issued: HashSetWithView<u64>,
}

impl DedupGenerator {
    #[verifier::type_invariant]
    spec fn wf(self) -> bool {
        self.last_gen < TIME_SPAN && self.last_gen % 1000 < 256
    }

    /// The machine identifier this generator was built with.
    pub closed spec fn machine(self) -> u8 {
        self.machine_id
    }

    /// The time bucket last observed, as its canonical millisecond offset.
    pub closed spec fn last_period(self) -> u64 {
        self.last_gen
    }

    /// The raw values issued in the current time bucket.
    pub closed spec fn issued_values(self) -> Set<u64> {
        self.recently_issued@
    }

    /// Build a generator for one machine, reading the clock for the initial
    /// time bucket; an error if the clock is earlier than the reference epoch.
    pub fn new(machine_id: u8) -> (r: Result<DedupGenerator, HoraError>)
        ensures
            match r {
                Ok(g) => g.machine() == machine_id && g.issued_values() == Set::<u64>::empty()
                    && is_canonical_bucket(g.last_period()),
                Err(e) => e == HoraError::Clock,
            },
    {
        let epoch = match current_epoch() {
            Ok(e) => e,
            Err(e) => {
                return Err(e);
            },
        };
        let reduced = epoch % TIME_SPAN;
        let scaled = rescale_epoch(reduced);
        proof {
            assert(is_canonical_bucket(scaled)) by {
                assert(reduced < TIME_SPAN && scaled == rescale_epoch_spec(reduced as int));
            }
        }
        let issued = HashSetWithView::<u64>::new();
        Ok(DedupGenerator { machine_id, last_gen: scaled, recently_issued: issued })
    }

    /// Generate an identifier from the current clock: an error if the clock
    /// reads earlier than the reference epoch, or if the retry budget runs
    /// out.
    pub fn next(&mut self) -> (r: Result<HoraId, HoraError>)
        ensures
            match r {
                Ok(id) => exists|e: u64| #[trigger] dedup_issued(*old(self), *final(self), e, id),
                Err(err) => (err == HoraError::Clock && *final(self) == *old(self)) || (err
                    == HoraError::Capacity && exists|e: u64|
                    #[trigger] dedup_exhausted(*old(self), *final(self), e)),
            },
    {
        let epoch = match current_epoch() {
            Ok(e) => e,
            Err(e) => {
                return Err(e);
            },
        };
        let epoch = epoch % TIME_SPAN;
        let r = self.next_at(epoch);
        match r {
            Ok(id) => {
                proof {
                    assert(dedup_issued(*old(self), *self, epoch, id));
                }
                Ok(id)
            },
            Err(e) => {
                proof {
                    assert(dedup_exhausted(*old(self), *self, epoch));
                }
                Err(e)
            },
        }
    }

    /// One generation step at an explicit millisecond offset: clear the set
    /// of issued values when the offset's bucket is strictly newer than the
    /// last observed one, then draw random low bytes until the encoded value
    /// is absent from the set, insert it, and return it.
    ///
    /// Fails only if [`RETRY_LIMIT`] consecutive draws collide, which is
    /// possible only when the bucket has not advanced and its set already
    /// holds some value: with an empty set the first draw succeeds, whatever
    /// comes back. On failure the set and the recorded bucket keep the
    /// transition that was already made, but nothing is inserted.
    pub fn next_at(&mut self, epoch: u64) -> (r: Result<HoraId, HoraError>)
        requires
            epoch < TIME_SPAN,
        ensures
            match r {
                Ok(id) => dedup_issued(*old(self), *final(self), epoch, id),
                Err(e) => e == HoraError::Capacity && dedup_exhausted(
                    *old(self),
                    *final(self),
                    epoch,
                ),
            },
    {
        proof {
            use_type_invariant(&*self);
        }
        let scaled = rescale_epoch(epoch);
        let mut issued = HashSetWithView::<u64>::new();
        std::mem::swap(&mut issued, &mut self.recently_issued);
        if scaled > self.last_gen {
            issued.clear();
        }
        let ghost base: Set<u64> = issued@;
        self.last_gen = scaled;
        let mut attempts: u32 = 0;
        while attempts < RETRY_LIMIT
            invariant
                epoch < TIME_SPAN,
                self.machine_id == old(self).machine(),
                self.last_gen == rescale_epoch_spec(epoch as int),
                issued@ == base,
                base == (if rescale_epoch_spec(epoch as int) > old(self).last_period() {
                    Set::<u64>::empty()
                } else {
                    old(self).issued_values()
                }),
                attempts > 0 ==> base != Set::<u64>::empty(),
                self.wf(),
            decreases RETRY_LIMIT - attempts,
        {
            let rnd = random_u16();
            let id = HoraId::with_params(
                HoraParams { machine_id: self.machine_id, epoch, sequence: rnd },
            );
            let v = id.to_u64();
            if !issued.contains(&v) {
                issued.insert(v);
                std::mem::swap(&mut issued, &mut self.recently_issued);
                proof {
                    assert(exists|q: u16|
                        id@ == #[trigger] spec_encode(
                            epoch as int,
                            old(self).machine(),
                            q,
                        )) by {
                        assert(id@ == spec_encode(epoch as int, old(self).machine(), rnd));
                    }
                }
                return Ok(id);
            }
            proof {
                // The draw collided: the set distinguishes itself from empty.
                assert(base.contains(v as u64));
                assert(!Set::<u64>::empty().contains(v as u64));
            }
            attempts = attempts + 1;
        }
        std::mem::swap(&mut issued, &mut self.recently_issued);
        Err(HoraError::Capacity)
    }
}

/// What one successful generation step at offset `epoch` did: the set of
/// issued values was cleared exactly if the bucket advanced, the issued
/// identifier's raw value was not in the set, and the set now holds exactly
/// the prior values plus the issued one; the identifier encodes the offset
/// and the machine, with some pair of low bytes.
pub open spec fn dedup_issued(
    pre: DedupGenerator,
    post: DedupGenerator,
    epoch: u64,
    id: HoraId,
) -> bool {
    let bucket = rescale_epoch_spec(epoch as int);
    let base = if bucket > pre.last_period() {
        Set::<u64>::empty()
    } else {
        pre.issued_values()
    };
    &&& epoch < TIME_SPAN
    &&& post.machine() == pre.machine()
    &&& post.last_period() == bucket
    &&& !base.contains(be_value(id@, 8) as u64)
    &&& post.issued_values() == base.insert(be_value(id@, 8) as u64)
    &&& exists|q: u16| id@ == #[trigger] spec_encode(epoch as int, pre.machine(), q)
}

/// What a failed generation step at offset `epoch` did, and when it is
/// possible at all: only a bucket that has not advanced past the recorded one
/// and already holds some issued value can exhaust the retry budget (with an
/// empty set the first draw succeeds, whatever value comes back); the bucket
/// is recorded and the set is kept, with nothing inserted.
pub open spec fn dedup_exhausted(pre: DedupGenerator, post: DedupGenerator, epoch: u64) -> bool {
    let bucket = rescale_epoch_spec(epoch as int);
    &&& epoch < TIME_SPAN
    &&& bucket <= pre.last_period()
    &&& pre.issued_values() != Set::<u64>::empty()
    &&& post.machine() == pre.machine()
    &&& post.last_period() == bucket
    &&& post.issued_values() == pre.issued_values()
}

/// A run of generation steps of one generator, all at one millisecond offset:
/// a single simulated time bucket. `states` holds the generator before and
/// after each step; `ids` the issued identifiers.
pub open spec fn dedup_run(states: Seq<DedupGenerator>, epoch: u64, ids: Seq<HoraId>) -> bool {
    &&& states.len() == ids.len() + 1
    &&& forall|i: int|
        0 <= i < ids.len() ==> #[trigger] dedup_issued(states[i], states[i + 1], epoch, ids[i])
}

proof fn lemma_dedup_member(
    states: Seq<DedupGenerator>,
    epoch: u64,
    ids: Seq<HoraId>,
    k: int,
    i: int,
)
    requires
        dedup_run(states, epoch, ids),
        0 <= k < i <= ids.len(),
    ensures
        states[i].issued_values().contains(be_value(ids[k]@, 8) as u64),
    decreases i - k,
{
    let m = i - 1;
    assert(dedup_issued(states[m], states[m + 1], epoch, ids[m]));
    if i == k + 1 {
        // Step `k` inserted the value.
    } else {
        lemma_dedup_member(states, epoch, ids, k, i - 1);
        // Step `i - 1` is not the first: its bucket equals the recorded one,
        // so it kept the set and only added to it.
        let p = i - 2;
        assert(dedup_issued(states[p], states[p + 1], epoch, ids[p]));
        assert(states[m].last_period() == rescale_epoch_spec(epoch as int));
    }
}

/// Identifiers issued within a single simulated time bucket are pairwise
/// distinct as raw 8-byte values, however many are drawn: the set-backed
/// rejection admits no duplicate.
pub proof fn lemma_dedup_run_ids_distinct(
    states: Seq<DedupGenerator>,
    epoch: u64,
    ids: Seq<HoraId>,
)
    requires
        dedup_run(states, epoch, ids),
    ensures
        forall|i: int, j: int|
            0 <= i < j < ids.len() ==> be_value(ids[i]@, 8) != be_value(ids[j]@, 8),
{
    assert forall|i: int, j: int|
        0 <= i < j < ids.len() implies be_value(ids[i]@, 8) != be_value(ids[j]@, 8) by {
        lemma_dedup_member(states, epoch, ids, i, j);
        assert(dedup_issued(states[j], states[j + 1], epoch, ids[j]));
        if j >= 1 {
            let m = j - 1;
            assert(dedup_issued(states[m], states[m + 1], epoch, ids[m]));
            assert(states[j].last_period() == rescale_epoch_spec(epoch as int));
        }
        crate::codec::lemma_be_value_bound(ids[i]@, 8);
        crate::codec::lemma_be_value_bound(ids[j]@, 8);
        crate::codec::lemma_pow256_8();
    }
}

} // verus!
