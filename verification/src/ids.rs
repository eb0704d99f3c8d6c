//! The unique-identifier generator.
//!
//! An identifier packs a millisecond timestamp, a node id and a
//! per-millisecond sequence counter into one 64-bit value, high bits
//! first, so ids issued by one generator are strictly increasing in
//! generation order. The time source is a monotonic clock with a fixed
//! epoch; a clock reading earlier than the last recorded timestamp is
//! surfaced as an error, never as a duplicate or smaller id.

use vstd::prelude::*;

use ferroid::time::{TimeSource, MonotonicClock, MASTODON_EPOCH};

verus! {

/// Largest representable millisecond timestamp (42 bits).
pub const TS_MAX: u64 = 0x3FF_FFFF_FFFF;

/// Largest representable node id (10 bits).
pub const NODE_MAX: u64 = 0x3FF;

/// Largest sequence value within one millisecond (12 bits).
pub const SEQ_MAX: u64 = 0xFFF;

/// Weight of the timestamp field: it sits above the 22 low bits.
pub const TS_UNIT: u64 = 0x40_0000;

/// Weight of the node field: it sits above the 12 low bits.
pub const NODE_UNIT: u64 = 0x1000;

/// The 64-bit identifier encoding (timestamp, node, sequence), ordered
/// lexicographically by that triple.
pub open spec fn id_code(t: int, node: int, s: int) -> int {
    t * (TS_UNIT as int) + node * (NODE_UNIT as int) + s
}

/// What one call of the generator reports: an identifier, or the advice
/// to wait for the next millisecond because the sequence range of the
/// current one is exhausted.
#[derive(Clone, Copy, Debug, PartialEq, Eq, Structural)]
pub enum IdStatus {
    Ready(u64),
    Pending,
}

/// Why id generation failed.
#[derive(Clone, Copy, Debug, PartialEq, Eq, Structural)]
pub enum IdError {
    /// The clock reading was earlier than the last recorded timestamp.
    ClockRegression,
    /// The clock reading does not fit the timestamp field.
    TimestampOutOfRange,
}

/// A snowflake-style id generator: a fixed node id plus the
/// (last timestamp, sequence) pair of the most recent issue.
pub struct IdGen {
    node_id: u64,
    last_ts: u64,
    seq: u64,
}

impl IdGen {
    /// Every field within its bit range.
    pub closed spec fn wf(&self) -> bool {
        &&& self.node_id <= NODE_MAX
        &&& self.last_ts <= TS_MAX
        &&& self.seq <= SEQ_MAX
    }

    /// The generator's node id.
    pub closed spec fn node_of(&self) -> int {
        self.node_id as int
    }

    /// The last recorded millisecond timestamp.
    pub closed spec fn ts_of(&self) -> int {
        self.last_ts as int
    }

    /// The sequence value of the most recent issue.
    pub closed spec fn seq_of(&self) -> int {
        self.seq as int
    }

    /// The code of the most recent issue; every later id exceeds it.
    pub closed spec fn last_code(&self) -> int {
        id_code(self.last_ts as int, self.node_id as int, self.seq as int)
    }
}

/// Builds a generator for one node. Node ids must be unique across
/// deployed instances for cross-node uniqueness; that is an operational
/// contract, not something the generator can check.
pub fn new_generator(node_id: u64) -> (g: IdGen)
    requires
        node_id <= NODE_MAX,
    ensures
        g.wf(),
        g.node_of() == node_id as int,
        g.ts_of() == 0,
        g.seq_of() == 0,
{
    IdGen { node_id, last_ts: 0, seq: 0 }
}

impl IdGen {
    /// One generation step against a given clock reading. Issues the next
    /// id of the current millisecond, opens a new millisecond, reports
    /// sequence exhaustion as [`IdStatus::Pending`], and fails on a clock
    /// reading earlier than the last recorded timestamp. Every issued id
    /// is the generator's new last code and strictly exceeds the code
    /// before the call.
    pub fn try_next_id(&mut self, now: u64) -> (r: Result<IdStatus, IdError>)
        requires
            old(self).wf(),
        ensures
            final(self).wf(),
            final(self).node_of() == old(self).node_of(),
            now > TS_MAX ==> r == Result::<IdStatus, IdError>::Err(IdError::TimestampOutOfRange),
            now <= TS_MAX && now < old(self).ts_of() ==> r == Result::<IdStatus, IdError>::Err(
                IdError::ClockRegression,
            ),
            now <= TS_MAX && now == old(self).ts_of() && old(self).seq_of() == SEQ_MAX ==> r
                == Result::<IdStatus, IdError>::Ok(IdStatus::Pending),
            now <= TS_MAX && now == old(self).ts_of() && old(self).seq_of() < SEQ_MAX ==> (r
                matches Ok(IdStatus::Ready(id)) && id == id_code(
                now as int,
                old(self).node_of(),
                old(self).seq_of() + 1,
            ) && final(self).ts_of() == now && final(self).seq_of() == old(self).seq_of() + 1),
            now <= TS_MAX && now > old(self).ts_of() ==> (r matches Ok(IdStatus::Ready(id)) && id
                == id_code(now as int, old(self).node_of(), 0) && final(self).ts_of() == now
                && final(self).seq_of() == 0),
            (r matches Ok(IdStatus::Ready(id)) ==> id == final(self).last_code() && final(self).last_code() > old(self).last_code()),
            !(r matches Ok(IdStatus::Ready(_))) ==> *final(self) == *old(self),
    {
        if now > TS_MAX {
            return Err(IdError::TimestampOutOfRange);
        }
        if now < self.last_ts {
            return Err(IdError::ClockRegression);
        }
        if now == self.last_ts {
            if self.seq == SEQ_MAX {
                return Ok(IdStatus::Pending);
            }
            self.seq = self.seq + 1;
        } else {
            self.last_ts = now;
            self.seq = 0;
        }
        let id = self.last_ts * TS_UNIT + self.node_id * NODE_UNIT + self.seq;
        Ok(IdStatus::Ready(id))
    }

    /// Issues the next id against the monotonic clock, waiting out at most
    /// one exhausted millisecond. On success the id is the generator's new
    /// last code and strictly exceeds the code before the call; on failure
    /// the generator is unchanged.
    pub fn next_id(&mut self) -> (r: Result<u64, IdError>)
        requires
            old(self).wf(),
        ensures
            final(self).wf(),
            final(self).node_of() == old(self).node_of(),
            (r matches Ok(id) ==> id == final(self).last_code() && final(self).last_code() > old(self).last_code()),
            r.is_err() ==> *final(self) == *old(self),
    {
        let now = monotonic_now_millis();
        match self.try_next_id(now) {
            Ok(IdStatus::Ready(id)) => Ok(id),
            Ok(IdStatus::Pending) => {
                let later = monotonic_millis_after(self.last_ts);
                match self.try_next_id(later) {
                    Ok(IdStatus::Ready(id)) => Ok(id),
                    Ok(IdStatus::Pending) => Err(IdError::ClockRegression),
                    Err(e) => Err(e),
                }
            },
            Err(e) => Err(e),
        }
    }
}

/// Issues the next chat/group id.
pub fn next_gid(g: &mut IdGen) -> (r: Result<u64, IdError>)
    requires
        old(g).wf(),
    ensures
        final(g).wf(),
        final(g).node_of() == old(g).node_of(),
        (r matches Ok(id) ==> id == final(g).last_code() && final(g).last_code() > old(g).last_code()),
        r.is_err() ==> *final(g) == *old(g),
{
    g.next_id()
}

/// Issues the next message id.
pub fn next_message_id(g: &mut IdGen) -> (r: Result<u64, IdError>)
    requires
        old(g).wf(),
    ensures
        final(g).wf(),
        final(g).node_of() == old(g).node_of(),
        (r matches Ok(id) ==> id == final(g).last_code() && final(g).last_code() > old(g).last_code()),
        r.is_err() ==> *final(g) == *old(g),
{
    g.next_id()
}

/// Issues the next attachment id.
pub fn next_attachment_id(g: &mut IdGen) -> (r: Result<u64, IdError>)
    requires
        old(g).wf(),
    ensures
        final(g).wf(),
        final(g).node_of() == old(g).node_of(),
        (r matches Ok(id) ==> id == final(g).last_code() && final(g).last_code() > old(g).last_code()),
        r.is_err() ==> *final(g) == *old(g),
{
    g.next_id()
}

/// Relies on ferroid's `MonotonicClock::with_epoch(MASTODON_EPOCH)` and
/// `TimeSource::<u64>::current_millis`: milliseconds elapsed since the
/// Unix epoch, read from a shared monotonic ticker. Nothing is promised
/// of the value; the generator handles every reading.
#[verifier::external_body]
fn monotonic_now_millis() -> u64 {
    let clock: MonotonicClock = MonotonicClock::with_epoch(MASTODON_EPOCH);
    TimeSource::<u64>::current_millis(&clock)
}

/// Relies on ferroid's `MonotonicClock::with_epoch(MASTODON_EPOCH)` and
/// `TimeSource::<u64>::current_millis`, polled until the reading exceeds
/// `prev`: the clock's shared ticker advances every millisecond and never
/// goes backward, so for a `prev` within the timestamp field the poll
/// returns, and its result is greater than `prev` by its exit condition.
/// A `prev` near the top of `u64` could make the poll spin without end,
/// so such values are excluded up front.
#[verifier::external_body]
fn monotonic_millis_after(prev: u64) -> (r: u64)
    requires
        prev <= TS_MAX,
    ensures
        r > prev,
{
    let clock: MonotonicClock = MonotonicClock::with_epoch(MASTODON_EPOCH);
    let mut now = TimeSource::<u64>::current_millis(&clock);
    while now <= prev {
        std::hint::spin_loop();
        now = TimeSource::<u64>::current_millis(&clock);
    }
    now
}

/// Law: along any chain of codes in which each entry exceeds the one
/// before it, earlier entries are smaller than all later ones.
pub proof fn lemma_code_chain(codes: Seq<int>, i: int, j: int)
    requires
        forall|x: int| 0 <= x < codes.len() - 1 ==> #[trigger] codes[x] < codes[x + 1],
        0 <= i < j < codes.len(),
    ensures
        codes[i] < codes[j],
    decreases j - i,
{
    if j == i + 1 {
    } else {
        lemma_code_chain(codes, i, j - 1);
        assert(codes[j - 1] < codes[j]);
    }
}

/// Law: ids issued in generation order are pairwise distinct and
/// strictly increasing. Each successful issue returns the generator's new
/// last code and raises it, so a run of issued ids satisfies the premise.
pub proof fn lemma_issued_ids_distinct(ids: Seq<int>)
    requires
        forall|x: int| 0 <= x < ids.len() - 1 ==> #[trigger] ids[x] < ids[x + 1],
    ensures
        forall|i: int, j: int| 0 <= i < j < ids.len() ==> ids[i] < ids[j],
        forall|i: int, j: int| 0 <= i < j < ids.len() ==> ids[i] != ids[j],
{
    assert forall|i: int, j: int| 0 <= i < j < ids.len() implies ids[i] < ids[j] by {
        lemma_code_chain(ids, i, j);
    }
}

} // verus!
