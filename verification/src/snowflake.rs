//! The time-ordered distributed ID generator.
//!
//! An id is a 64-bit integer laid out as
//! `timestamp-delta (41 bits) | worker (5) | process (5) | sequence (12)`,
//! where the delta is milliseconds since a configured epoch. Within one
//! millisecond the sequence counter keeps ids strictly increasing; across
//! milliseconds the timestamp field does. The generator never silently emits
//! a duplicate or non-monotonic id: a clock that moved backwards reports
//! `ClockSkew`, and an exhausted sequence (or timestamp) field reports
//! `Exhausted`.
//!
//! The generator does not read the clock itself: each generation step takes
//! the current time in milliseconds as an argument, so the step itself is
//! verified for every possible clock reading.

use vstd::arithmetic::div_mod::lemma_fundamental_div_mod_converse;
use vstd::prelude::*;

verus! {

/// Number of distinct sequence values per millisecond (2^12).
pub const SEQUENCE_COUNT: i64 = 4096;

/// Weight of the process-id field (2^12).
pub const PROCESS_UNIT: i64 = 4096;

/// Weight of the worker-id field (2^17).
pub const WORKER_UNIT: i64 = 131072;

/// Weight of the timestamp-delta field (2^22).
pub const TIMESTAMP_UNIT: i64 = 4194304;

/// Largest timestamp delta that fits the 41-bit field (2^41 - 1).
pub const MAX_DELTA: i64 = 2199023255551;

/// Largest worker or process id (the fields are 5 bits wide).
pub const MAX_WORKER: i64 = 31;

/// Why a generation step could not produce an id. The state is left
/// untouched in either case, so a later call with a sane clock succeeds.
#[derive(Clone, Copy, Debug, PartialEq, Eq, Structural)]
pub enum IdError {
    /// The clock reading was behind the last one the generator used.
    ClockSkew,
    /// The sequence field ran out within one millisecond, or the timestamp
    /// delta no longer fits its 41-bit field.
    Exhausted,
}

/// The id value for a field assignment: the four fields packed by weight.
pub open spec fn encode(delta: int, worker: int, process: int, seq: int) -> int {
    delta * TIMESTAMP_UNIT + worker * WORKER_UNIT + process * PROCESS_UNIT + seq
}

/// The timestamp delta stored in an id.
pub open spec fn spec_delta_of(id: int) -> int {
    id / (TIMESTAMP_UNIT as int)
}

/// The worker id stored in an id.
pub open spec fn spec_worker_of(id: int) -> int {
    (id / (WORKER_UNIT as int)) % 32
}

/// The process id stored in an id.
pub open spec fn spec_process_of(id: int) -> int {
    (id / (PROCESS_UNIT as int)) % 32
}

/// The sequence counter stored in an id.
pub open spec fn spec_sequence_of(id: int) -> int {
    id % (PROCESS_UNIT as int)
}

/// The one piece of mutable state in the whole service. Callers must
/// serialize access to it (the surrounding program holds it behind a lock);
/// the generation step itself is a plain sequential function.
pub struct IdGenerator {
    /// Reference instant, in milliseconds since the Unix epoch.
    pub epoch: i64,
    /// Which worker of the deployment this generator belongs to (0..=31).
    pub worker_id: i64,
    /// Which process on that worker (0..=31).
    pub process_id: i64,
    /// Counter distinguishing ids of the same millisecond (0..=4095).
    pub sequence: i64,
    /// The clock reading the most recent id was built from, in milliseconds
    /// since the Unix epoch.
    pub last_timestamp: i64,
}

impl IdGenerator {
    /// Well-formedness: every field sits inside its bit field, and the
    /// current delta still fits 41 bits.
    pub open spec fn wf(self) -> bool {
        &&& 0 <= self.epoch
        &&& self.epoch <= self.last_timestamp
        &&& self.last_timestamp - self.epoch <= MAX_DELTA
        &&& 0 <= self.worker_id <= MAX_WORKER
        &&& 0 <= self.process_id <= MAX_WORKER
        &&& 0 <= self.sequence < SEQUENCE_COUNT
    }

    /// The id corresponding to the generator's current field values: the id
    /// most recently emitted, or a lower bound below every future id for a
    /// freshly built generator.
    pub open spec fn last_id(self) -> int {
        encode(
            self.last_timestamp - self.epoch,
            self.worker_id as int,
            self.process_id as int,
            self.sequence as int,
        )
    }

    /// What one generation step does, given the state and a clock reading:
    /// the state afterwards and the outcome.
    pub open spec fn spec_generate(pre: IdGenerator, now: i64) -> (IdGenerator, Result<
        i64,
        IdError,
    >) {
        if now < pre.last_timestamp {
            (pre, Err(IdError::ClockSkew))
        } else if now == pre.last_timestamp {
            if pre.sequence >= SEQUENCE_COUNT - 1 {
                (pre, Err(IdError::Exhausted))
            } else {
                let post = IdGenerator { sequence: (pre.sequence + 1) as i64, ..pre };
                (post, Ok(post.last_id() as i64))
            }
        } else if now - pre.epoch > MAX_DELTA {
            (pre, Err(IdError::Exhausted))
        } else {
            let post = IdGenerator { last_timestamp: now, sequence: 0, ..pre };
            (post, Ok(post.last_id() as i64))
        }
    }

    /// A fresh generator. Its state encodes an id at the epoch itself with
    /// sequence zero; every id it later emits is strictly greater.
    pub fn new(epoch: i64, worker_id: i64, process_id: i64) -> (g: IdGenerator)
        requires
            0 <= epoch,
            0 <= worker_id <= MAX_WORKER,
            0 <= process_id <= MAX_WORKER,
        ensures
            g.wf(),
            g.epoch == epoch,
            g.worker_id == worker_id,
            g.process_id == process_id,
            g.last_timestamp == epoch,
            g.sequence == 0,
    {
        IdGenerator { epoch, worker_id, process_id, sequence: 0, last_timestamp: epoch }
    }

    /// One generation step at clock reading `now_millis`.
    ///
    /// On success the returned id is exactly the packed field value of the
    /// new state, and it is strictly greater than every id the generator
    /// emitted before. On failure the state is unchanged.
    pub fn generate_at(&mut self, now_millis: i64) -> (r: Result<i64, IdError>)
        requires
            old(self).wf(),
        ensures
            (*final(self), r) == Self::spec_generate(*old(self), now_millis),
            final(self).wf(),
            r matches Err(_) ==> *final(self) == *old(self),
            r matches Ok(id) ==> {
                &&& id == final(self).last_id()
                &&& old(self).last_id() < final(self).last_id()
                &&& 0 <= id
            },
    {
        if now_millis < self.last_timestamp {
            return Err(IdError::ClockSkew);
        }
        if now_millis == self.last_timestamp {
            if self.sequence >= SEQUENCE_COUNT - 1 {
                return Err(IdError::Exhausted);
            }
            self.sequence = self.sequence + 1;
        } else {
            if now_millis - self.epoch > MAX_DELTA {
                return Err(IdError::Exhausted);
            }
            self.last_timestamp = now_millis;
            self.sequence = 0;
        }
        proof {
            lemma_encode_in_i64(
                self.last_timestamp - self.epoch,
                self.worker_id as int,
                self.process_id as int,
                self.sequence as int,
            );
            lemma_encode_strictly_increases(
                old(self).last_timestamp - old(self).epoch,
                self.last_timestamp - self.epoch,
                self.worker_id as int,
                self.process_id as int,
                old(self).sequence as int,
                self.sequence as int,
            );
        }
        let delta: i64 = self.last_timestamp - self.epoch;
        let id: i64 = delta * TIMESTAMP_UNIT + self.worker_id * WORKER_UNIT + self.process_id
            * PROCESS_UNIT + self.sequence;
        Ok(id)
    }
}

/// For in-range fields the packed id fits an `i64` and is non-negative.
pub proof fn lemma_encode_in_i64(delta: int, worker: int, process: int, seq: int)
    requires
        0 <= delta <= MAX_DELTA,
        0 <= worker <= MAX_WORKER,
        0 <= process <= MAX_WORKER,
        0 <= seq < SEQUENCE_COUNT,
    ensures
        0 <= encode(delta, worker, process, seq) <= i64::MAX,
{
}

/// Law: ids are ordered first by timestamp delta, then by sequence. A later
/// millisecond, or a later sequence value within the same millisecond, gives
/// a strictly greater id (for a fixed worker and process).
pub proof fn lemma_encode_strictly_increases(
    d1: int,
    d2: int,
    worker: int,
    process: int,
    s1: int,
    s2: int,
)
    requires
        0 <= d1,
        0 <= s1 < SEQUENCE_COUNT,
        0 <= s2 < SEQUENCE_COUNT,
        d1 < d2 || (d1 == d2 && s1 < s2),
    ensures
        encode(d1, worker, process, s1) < encode(d2, worker, process, s2),
{
}

/// Decoding by division and remainder recovers every field of a packed id.
pub proof fn lemma_encode_decode(delta: int, worker: int, process: int, seq: int)
    requires
        0 <= delta <= MAX_DELTA,
        0 <= worker <= MAX_WORKER,
        0 <= process <= MAX_WORKER,
        0 <= seq < SEQUENCE_COUNT,
    ensures
        spec_delta_of(encode(delta, worker, process, seq)) == delta,
        spec_worker_of(encode(delta, worker, process, seq)) == worker,
        spec_process_of(encode(delta, worker, process, seq)) == process,
        spec_sequence_of(encode(delta, worker, process, seq)) == seq,
{
    let id = encode(delta, worker, process, seq);
    lemma_fundamental_div_mod_converse(
        id,
        TIMESTAMP_UNIT as int,
        delta,
        worker * WORKER_UNIT + process * PROCESS_UNIT + seq,
    );
    lemma_fundamental_div_mod_converse(
        id,
        WORKER_UNIT as int,
        delta * 32 + worker,
        process * PROCESS_UNIT + seq,
    );
    lemma_fundamental_div_mod_converse(delta * 32 + worker, 32, delta, worker);
    lemma_fundamental_div_mod_converse(
        id,
        PROCESS_UNIT as int,
        delta * 1024 + worker * 32 + process,
        seq,
    );
    lemma_fundamental_div_mod_converse(
        delta * 1024 + worker * 32 + process,
        32,
        delta * 32 + worker,
        process,
    );
}

/// The instant an id was built from: its timestamp delta plus the epoch the
/// generator was configured with.
pub fn decode_timestamp(id: i64, epoch: i64) -> (t: i64)
    requires
        0 <= id,
        0 <= epoch,
        epoch + spec_delta_of(id as int) <= i64::MAX,
    ensures
        t == epoch + spec_delta_of(id as int),
{
    epoch + id / TIMESTAMP_UNIT
}

/// The worker-id field of an id.
pub fn decode_worker(id: i64) -> (w: i64)
    requires
        0 <= id,
    ensures
        w == spec_worker_of(id as int),
{
    (id / WORKER_UNIT) % 32
}

/// The process-id field of an id.
pub fn decode_process(id: i64) -> (p: i64)
    requires
        0 <= id,
    ensures
        p == spec_process_of(id as int),
{
    (id / PROCESS_UNIT) % 32
}

/// The sequence field of an id.
pub fn decode_sequence(id: i64) -> (s: i64)
    requires
        0 <= id,
    ensures
        s == spec_sequence_of(id as int),
{
    id % PROCESS_UNIT
}

/// Law (bit-layout round trip): for any successful generation step, decoding
/// the id's timestamp field and adding the configured epoch reproduces the
/// exact clock reading of the step, and the worker, process and sequence
/// fields decode to the generator's own values.
pub proof fn lemma_round_trip(pre: IdGenerator, now: i64)
    requires
        pre.wf(),
        IdGenerator::spec_generate(pre, now).1 is Ok,
    ensures
        ({
            let (post, r) = IdGenerator::spec_generate(pre, now);
            &&& spec_delta_of(r->Ok_0 as int) + pre.epoch == now
            &&& spec_worker_of(r->Ok_0 as int) == pre.worker_id
            &&& spec_process_of(r->Ok_0 as int) == pre.process_id
            &&& spec_sequence_of(r->Ok_0 as int) == post.sequence
        }),
{
    let post = IdGenerator::spec_generate(pre, now).0;
    lemma_encode_in_i64(
        post.last_timestamp - post.epoch,
        post.worker_id as int,
        post.process_id as int,
        post.sequence as int,
    );
    lemma_encode_decode(
        post.last_timestamp - post.epoch,
        post.worker_id as int,
        post.process_id as int,
        post.sequence as int,
    );
}

/// One generation step leaves the generator well formed, never changes its
/// identity fields, and on success emits an id strictly above every earlier
/// one.
pub proof fn lemma_generate_step(pre: IdGenerator, now: i64)
    requires
        pre.wf(),
    ensures
        ({
            let (post, r) = IdGenerator::spec_generate(pre, now);
            &&& post.wf()
            &&& post.epoch == pre.epoch
            &&& post.worker_id == pre.worker_id
            &&& post.process_id == pre.process_id
            &&& (r is Err ==> post == pre)
            &&& (r matches Ok(id) ==> {
                &&& id == post.last_id()
                &&& pre.last_id() < post.last_id()
                &&& 0 <= id
            })
        }),
{
    let (post, r) = IdGenerator::spec_generate(pre, now);
    if r is Ok {
        lemma_encode_in_i64(
            post.last_timestamp - post.epoch,
            post.worker_id as int,
            post.process_id as int,
            post.sequence as int,
        );
        lemma_encode_strictly_increases(
            pre.last_timestamp - pre.epoch,
            post.last_timestamp - post.epoch,
            post.worker_id as int,
            post.process_id as int,
            pre.sequence as int,
            post.sequence as int,
        );
    }
}

/// A whole run of generation steps, one per clock reading: the state after
/// the last step, and the ids of the successful steps in order.
pub open spec fn spec_generate_run(pre: IdGenerator, times: Seq<i64>) -> (IdGenerator, Seq<i64>)
    decreases times.len(),
{
    if times.len() == 0 {
        (pre, seq![])
    } else {
        let (mid, r) = IdGenerator::spec_generate(pre, times[0]);
        let (post, ids) = spec_generate_run(mid, times.skip(1));
        match r {
            Ok(id) => (post, seq![id] + ids),
            Err(_) => (post, ids),
        }
    }
}

/// Law (uniqueness and monotonicity over a run): whatever clock readings a
/// run of N generation steps sees, the ids of the successful steps are
/// strictly increasing in the order the steps happened — so all of them are
/// distinct — and every one lies strictly above the ids of any earlier run.
pub proof fn lemma_run_ids_strictly_increase(pre: IdGenerator, times: Seq<i64>)
    requires
        pre.wf(),
    ensures
        ({
            let (post, ids) = spec_generate_run(pre, times);
            &&& post.wf()
            &&& forall|k: int| 0 <= k < ids.len() ==> pre.last_id() < #[trigger] ids[k]
            &&& forall|j: int, k: int| 0 <= j < k < ids.len() ==> ids[j] < ids[k]
        }),
    decreases times.len(),
{
    if times.len() > 0 {
        let mid = IdGenerator::spec_generate(pre, times[0]).0;
        lemma_generate_step(pre, times[0]);
        lemma_run_ids_strictly_increase(mid, times.skip(1));
    }
}

/// Law (uniqueness and monotonicity): if one generation step succeeds and a
/// later step on the resulting state succeeds too, the second id is strictly
/// greater than the first; in particular the two are distinct. Chained over
/// a whole run, every sequence of successful generations yields pairwise
/// distinct, strictly increasing ids.
pub proof fn lemma_ids_strictly_increase(pre: IdGenerator, now1: i64, now2: i64)
    requires
        pre.wf(),
        IdGenerator::spec_generate(pre, now1).1 is Ok,
        IdGenerator::spec_generate(IdGenerator::spec_generate(pre, now1).0, now2).1 is Ok,
    ensures
        IdGenerator::spec_generate(pre, now1).1->Ok_0 < IdGenerator::spec_generate(
            IdGenerator::spec_generate(pre, now1).0,
            now2,
        ).1->Ok_0,
{
    let mid = IdGenerator::spec_generate(pre, now1).0;
    lemma_generate_step(pre, now1);
    lemma_generate_step(mid, now2);
}

} // verus!
