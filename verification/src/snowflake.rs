//! Unique 64-bit IDs.
//!
//! A [`Snowflake`] packs a millisecond timestamp (counted from
//! [`EPOCH_SECONDS`]), a group ID, a worker ID and a sequence number into
//! one 64-bit integer. A [`SnowflakeGenerator`] hands them out; the caller
//! supplies the current time and performs any waiting that the generator
//! asks for.
use vstd::prelude::*;

use std::time::Duration;
use std::time::SystemTime;

verus! {

/// The epoch used when generating [`Snowflake`]s, in seconds since the
/// UNIX epoch: midnight (UTC) on Dec. 15, 2018.
pub const EPOCH_SECONDS: u64 = 1_544_832_000;

/// The epoch used when generating [`Snowflake`]s, in milliseconds since
/// the UNIX epoch.
pub const EPOCH_MILLIS: u64 = 1_544_832_000_000;

/// The highest worker ID that a [`SnowflakeGenerator`] accepts.
pub const MAX_WORKER_ID: u64 = 31;

/// The highest group ID that a [`SnowflakeGenerator`] accepts.
pub const MAX_GROUP_ID: u64 = 31;

/// The mask applied to sequence numbers.
pub const SEQUENCE_MASK: u64 = 4095;

/// Bit position of the worker ID within a [`Snowflake`].
pub const WORKER_ID_SHIFT: u64 = 12;

/// Bit position of the group ID within a [`Snowflake`].
pub const GROUP_ID_SHIFT: u64 = 17;

/// Bit position of the timestamp within a [`Snowflake`].
pub const TIMESTAMP_SHIFT: u64 = 22;

#[verifier::external_type_specification]
#[verifier::external_body]
pub struct ExSystemTime(SystemTime);

/// The `Duration` that `Duration::from_millis` returns for `ms`.
pub uninterp spec fn millis_duration(ms: u64) -> Duration;

/// The point in time `SystemTime::UNIX_EPOCH + d`.
pub uninterp spec fn time_after_unix_epoch(d: Duration) -> SystemTime;

/// Calls `std::time::Duration::from_millis`, which builds the duration of
/// `ms` milliseconds; the result is named by [`millis_duration`].
#[verifier::external_body]
fn duration_from_millis(ms: u64) -> (d: Duration)
    ensures
        d == millis_duration(ms),
{
    Duration::from_millis(ms)
}

/// The largest number of milliseconds after the UNIX epoch that
/// [`Snowflake::timestamp`] ever asks for: the epoch plus the largest
/// timestamp field, below 2^42.
pub const MAX_TIMESTAMP_MILLIS: u64 = 1_544_832_000_000 + 0x3ff_ffff_ffff;

/// Adds `d` to `std::time::SystemTime::UNIX_EPOCH`; the result is named by
/// [`time_after_unix_epoch`]. The addition panics when the sum cannot be
/// represented, so `d` is held to durations built from at most
/// [`MAX_TIMESTAMP_MILLIS`] milliseconds (about 6e9 seconds), which every
/// platform's `SystemTime` represents.
#[verifier::external_body]
fn unix_epoch_plus(d: Duration) -> (t: SystemTime)
    requires
        exists|ms: u64| ms <= MAX_TIMESTAMP_MILLIS && d == #[trigger] millis_duration(ms),
    ensures
        t == time_after_unix_epoch(d),
{
    SystemTime::UNIX_EPOCH + d
}

/// The 64-bit layout of a snowflake: timestamp, group ID, worker ID and
/// sequence number or-ed together at their bit positions.
pub open spec fn pack_snowflake(timestamp: u64, group_id: u64, worker_id: u64, sequence: u64) -> u64 {
    (timestamp << 22u64) | (group_id << 17u64) | (worker_id << 12u64) | sequence
}

/// This type is used to represent unique IDs.
///
/// Snowflake instances encode a timestamp, application-specific
/// "group" and "worker" IDs, as well as a sequence number to disambiguate
/// objects made in the same millisecond.
#[derive(Debug, Copy, Clone, Hash, PartialEq, Eq, PartialOrd, Ord, Structural)]
pub struct Snowflake(u64);

impl View for Snowflake {
    type V = u64;

    closed spec fn view(&self) -> u64 {
        self.0
    }
}

/// Two snowflakes are equal exactly when their integer values are.
pub broadcast proof fn lemma_snowflake_view_injective(a: Snowflake, b: Snowflake)
    ensures
        #![trigger a@, b@]
        (a@ == b@) == (a == b),
{
}

impl Snowflake {
    /// The milliseconds since [`EPOCH_SECONDS`] recorded in this `Snowflake`.
    pub fn timestamp_millis(&self) -> (r: u64)
        ensures
            r == self@ >> 22u64,
    {
        self.0 >> TIMESTAMP_SHIFT
    }

    /// Get the time at which this `Snowflake` was generated.
    pub fn timestamp(&self) -> (t: SystemTime)
        ensures
            t == time_after_unix_epoch(millis_duration((EPOCH_MILLIS + (self@ >> 22u64)) as u64)),
    {
        let raw = self.0;
        let offset = self.timestamp_millis();
        assert(offset <= 0x3ff_ffff_ffff) by (bit_vector)
            requires
                offset == raw >> 22u64,
        ;
        let ms = EPOCH_MILLIS + offset;
        let d = duration_from_millis(ms);
        assert(ms <= MAX_TIMESTAMP_MILLIS && d == millis_duration(ms));
        unix_epoch_plus(d)
    }

    /// Get the sequence number of this `Snowflake`.
    pub fn sequence(&self) -> (r: u64)
        ensures
            r == self@ & 4095u64,
    {
        self.0 & SEQUENCE_MASK
    }

    /// Get the worker ID that generated this `Snowflake`.
    pub fn worker_id(&self) -> (r: u64)
        ensures
            r == (self@ >> 12u64) & 31u64,
    {
        (self.0 >> WORKER_ID_SHIFT) & MAX_WORKER_ID
    }

    /// Get the group ID that generated this `Snowflake`.
    pub fn group_id(&self) -> (r: u64)
        ensures
            r == (self@ >> 17u64) & 31u64,
    {
        (self.0 >> GROUP_ID_SHIFT) & MAX_GROUP_ID
    }
}

impl From<u64> for Snowflake {
    /// The snowflake with the given integer value.
    fn from(val: u64) -> (r: Snowflake)
        ensures
            r@ == val,
    {
        Snowflake(val)
    }
}

impl vstd::std_specs::convert::FromSpecImpl<u64> for Snowflake {
    open spec fn obeys_from_spec() -> bool {
        true
    }

    closed spec fn from_spec(v: u64) -> Snowflake {
        Snowflake(v)
    }
}

impl From<Snowflake> for u64 {
    /// The integer value of a snowflake.
    fn from(val: Snowflake) -> (r: u64)
        ensures
            r == val@,
    {
        val.0
    }
}

impl vstd::std_specs::convert::FromSpecImpl<Snowflake> for u64 {
    open spec fn obeys_from_spec() -> bool {
        true
    }

    closed spec fn from_spec(v: Snowflake) -> u64 {
        v.0
    }
}

impl From<i64> for Snowflake {
    /// The snowflake whose value has the same bits as `val`.
    fn from(val: i64) -> (r: Snowflake)
        ensures
            r@ == val as u64,
    {
        Snowflake(val as u64)
    }
}

impl vstd::std_specs::convert::FromSpecImpl<i64> for Snowflake {
    open spec fn obeys_from_spec() -> bool {
        true
    }

    closed spec fn from_spec(v: i64) -> Snowflake {
        Snowflake(v as u64)
    }
}

impl From<Snowflake> for i64 {
    /// The signed integer with the same bits as the snowflake.
    fn from(val: Snowflake) -> (r: i64)
        ensures
            r == val@ as i64,
    {
        val.0 as i64
    }
}

impl vstd::std_specs::convert::FromSpecImpl<Snowflake> for i64 {
    open spec fn obeys_from_spec() -> bool {
        true
    }

    closed spec fn from_spec(v: Snowflake) -> i64 {
        v.0 as i64
    }
}

/// The mathematical state of a [`SnowflakeGenerator`].
pub struct GeneratorView {
    pub last_timestamp: u64,
    pub sequence: u64,
    pub group_id: u64,
    pub worker_id: u64,
}

/// What [`SnowflakeGenerator::generate_at`] asks its caller to do.
#[derive(Debug)]
pub enum GenerateStep {
    /// Wait this many milliseconds, then ask again with the new time.
    Wait(u64),
    /// The newly generated ID.
    Ready(Snowflake),
}

/// A call at time `now` yields an ID (rather than asking to wait):
/// the clock has not gone backwards and the sequence is not used up.
pub open spec fn emits(s: GeneratorView, now: u64) -> bool {
    !(s.last_timestamp > now) && !(s.last_timestamp == now && s.sequence == SEQUENCE_MASK)
}

/// The generator state after a call at time `now`.
pub open spec fn next_state(s: GeneratorView, now: u64) -> GeneratorView {
    if !emits(s, now) {
        s
    } else if s.last_timestamp == now {
        GeneratorView { sequence: (s.sequence + 1) as u64, ..s }
    } else {
        GeneratorView { last_timestamp: now, sequence: 0, ..s }
    }
}

/// How long a call at time `now` that yields no ID asks the caller to wait.
pub open spec fn wait_millis(s: GeneratorView, now: u64) -> u64 {
    if s.last_timestamp > now {
        (s.last_timestamp - now) as u64
    } else {
        1
    }
}

/// The (timestamp, sequence) pair that identifies a generator state.
pub open spec fn key(s: GeneratorView) -> (u64, u64) {
    (s.last_timestamp, s.sequence)
}

/// Lexicographic order on (timestamp, sequence) pairs.
pub open spec fn key_lt(a: (u64, u64), b: (u64, u64)) -> bool {
    a.0 < b.0 || (a.0 == b.0 && a.1 < b.1)
}

/// The (timestamp, sequence) pairs of the IDs yielded by successive calls
/// at the times `nows`, starting from state `s`.
pub open spec fn emitted_keys(s: GeneratorView, nows: Seq<u64>) -> Seq<(u64, u64)>
    decreases nows.len(),
{
    if nows.len() == 0 {
        Seq::empty()
    } else {
        let n = next_state(s, nows[0]);
        let rest = emitted_keys(n, nows.drop_first());
        if emits(s, nows[0]) {
            seq![key(n)].add(rest)
        } else {
            rest
        }
    }
}

/// Generates [`Snowflake`] IDs.
#[derive(Debug)]
pub struct SnowflakeGenerator {
    last_timestamp: u64,
    sequence: u64,
    group_id: u64,
    worker_id: u64,
}

impl View for SnowflakeGenerator {
    type V = GeneratorView;

    closed spec fn view(&self) -> GeneratorView {
        GeneratorView {
            last_timestamp: self.last_timestamp,
            sequence: self.sequence,
            group_id: self.group_id,
            worker_id: self.worker_id,
        }
    }
}

impl SnowflakeGenerator {
    #[verifier::type_invariant]
    spec fn inv(&self) -> bool {
        &&& self.sequence <= SEQUENCE_MASK
        &&& self.group_id <= MAX_GROUP_ID
        &&& self.worker_id <= MAX_WORKER_ID
    }

    /// Creates a new `SnowflakeGenerator`.
    ///
    /// `SnowflakeGenerator` instances that are used concurrently
    /// should be created with different group and/or worker IDs to
    /// ensure that all generated IDs are unique.
    pub fn new(group_id: u64, worker_id: u64) -> (g: SnowflakeGenerator)
        requires
            group_id <= MAX_GROUP_ID,
            worker_id <= MAX_WORKER_ID,
        ensures
            g@ == (GeneratorView { last_timestamp: 0, sequence: 0, group_id, worker_id }),
    {
        SnowflakeGenerator { last_timestamp: 0, sequence: 0, group_id, worker_id }
    }

    /// One attempt to generate a new [`Snowflake`] ID at time `cur_timestamp`
    /// (milliseconds since [`EPOCH_SECONDS`]).
    ///
    /// If the clock went backwards, or all sequence numbers of this
    /// millisecond are used up, the generator asks the caller to wait and
    /// try again, and its state is left unchanged.
    pub fn generate_at(&mut self, cur_timestamp: u64) -> (r: GenerateStep)
        ensures
            old(self)@.sequence <= SEQUENCE_MASK,
            old(self)@.group_id <= MAX_GROUP_ID,
            old(self)@.worker_id <= MAX_WORKER_ID,
            final(self)@ == next_state(old(self)@, cur_timestamp),
            match r {
                GenerateStep::Ready(id) => {
                    &&& emits(old(self)@, cur_timestamp)
                    &&& id@ == pack_snowflake(
                        cur_timestamp,
                        old(self)@.group_id,
                        old(self)@.worker_id,
                        final(self)@.sequence,
                    )
                },
                GenerateStep::Wait(ms) => {
                    &&& !emits(old(self)@, cur_timestamp)
                    &&& ms == wait_millis(old(self)@, cur_timestamp)
                },
            },
    {
        proof {
            use_type_invariant(&*self);
        }
        if self.last_timestamp > cur_timestamp {
            return GenerateStep::Wait(self.last_timestamp - cur_timestamp);
        }
        if self.last_timestamp == cur_timestamp {
            let bumped: u64 = self.sequence + 1;
            let next = bumped & SEQUENCE_MASK;
            assert(bumped < 4096u64 ==> bumped & 4095u64 == bumped) by (bit_vector);
            assert(bumped == 4096u64 ==> bumped & 4095u64 == 0) by (bit_vector);
            if next == 0 {
                self.sequence = SEQUENCE_MASK;
                return GenerateStep::Wait(1);
            }
            self.sequence = next;
        } else {
            self.sequence = 0;
        }
        self.last_timestamp = cur_timestamp;
        let id = (cur_timestamp << TIMESTAMP_SHIFT) | (self.group_id << GROUP_ID_SHIFT) | (
        self.worker_id << WORKER_ID_SHIFT) | self.sequence;
        GenerateStep::Ready(Snowflake(id))
    }
}

/// A call that yields an ID moves the generator to a strictly greater
/// (timestamp, sequence) pair, at the call's time; a call that asks to wait
/// leaves the generator unchanged.
pub proof fn law_step_advances(s: GeneratorView, now: u64)
    requires
        s.sequence <= SEQUENCE_MASK,
    ensures
        emits(s, now) ==> key_lt(key(s), key(next_state(s, now))),
        emits(s, now) ==> next_state(s, now).last_timestamp == now,
        !emits(s, now) ==> next_state(s, now) == s,
        next_state(s, now).sequence <= SEQUENCE_MASK,
        next_state(s, now).group_id == s.group_id,
        next_state(s, now).worker_id == s.worker_id,
{
}

proof fn lemma_key_lt_transitive(a: (u64, u64), b: (u64, u64), c: (u64, u64))
    requires
        key_lt(a, b),
        key_lt(b, c),
    ensures
        key_lt(a, c),
{
}

/// Whatever the clock reads at each call, the IDs that one generator yields
/// carry strictly increasing (timestamp, sequence) pairs, all greater than
/// the generator's state before the first call: no pair is ever handed out
/// twice.
pub proof fn law_emitted_keys_strictly_increase(s: GeneratorView, nows: Seq<u64>)
    requires
        s.sequence <= SEQUENCE_MASK,
    ensures
        forall|i: int|
            0 <= i < emitted_keys(s, nows).len() ==> key_lt(key(s), #[trigger] emitted_keys(s, nows)[i]),
        forall|i: int, j: int|
            0 <= i < j < emitted_keys(s, nows).len() ==> key_lt(
                #[trigger] emitted_keys(s, nows)[i],
                #[trigger] emitted_keys(s, nows)[j],
            ),
    decreases nows.len(),
{
    if nows.len() > 0 {
        let n = next_state(s, nows[0]);
        law_step_advances(s, nows[0]);
        law_emitted_keys_strictly_increase(n, nows.drop_first());
        let rest = emitted_keys(n, nows.drop_first());
        if emits(s, nows[0]) {
            let all = seq![key(n)].add(rest);
            assert(emitted_keys(s, nows) == all);
            assert forall|i: int| 0 <= i < all.len() implies key_lt(key(s), #[trigger] all[i]) by {
                if i > 0 {
                    assert(all[i] == rest[i - 1]);
                    lemma_key_lt_transitive(key(s), key(n), rest[i - 1]);
                }
            }
            assert forall|i: int, j: int| 0 <= i < j < all.len() implies key_lt(
                #[trigger] all[i],
                #[trigger] all[j],
            ) by {
                assert(all[j] == rest[j - 1]);
                if i > 0 {
                    assert(all[i] == rest[i - 1]);
                }
            }
        } else {
            assert(emitted_keys(s, nows) == rest);
        }
    }
}

/// With a timestamp below 2^42, the timestamp field, the group ID, the
/// worker ID and the sequence number of a snowflake do not overlap: its
/// value is their weighted sum.
proof fn lemma_pack_is_sum(ts: u64, g: u64, w: u64, seq: u64)
    requires
        ts < 0x400_0000_0000,
        g <= MAX_GROUP_ID,
        w <= MAX_WORKER_ID,
        seq <= SEQUENCE_MASK,
    ensures
        pack_snowflake(ts, g, w, seq) == ts * 0x40_0000 + g * 0x2_0000 + w * 0x1000 + seq,
{
    assert((ts << 22u64) | (g << 17u64) | (w << 12u64) | seq == ts * 0x40_0000 + g * 0x2_0000 + w * 0x1000
        + seq) by (bit_vector)
        requires
            ts < 0x400_0000_0000,
            g <= 31,
            w <= 31,
            seq <= 4095,
    ;
}

/// For every generator (group and worker IDs within range), and as long as
/// the clock stays below 2^42 milliseconds, the packed IDs order exactly as
/// their (timestamp, sequence) pairs: so the IDs that one generator hands
/// out strictly increase and are all distinct.
pub proof fn law_packed_ids_follow_keys(g: u64, w: u64, a: (u64, u64), b: (u64, u64))
    requires
        g <= MAX_GROUP_ID,
        w <= MAX_WORKER_ID,
        a.0 < 0x400_0000_0000,
        b.0 < 0x400_0000_0000,
        a.1 <= SEQUENCE_MASK,
        b.1 <= SEQUENCE_MASK,
        key_lt(a, b),
    ensures
        pack_snowflake(a.0, g, w, a.1) < pack_snowflake(b.0, g, w, b.1),
{
    lemma_pack_is_sum(a.0, g, w, a.1);
    lemma_pack_is_sum(b.0, g, w, b.1);
    if a.0 < b.0 {
        assert(a.0 * 0x40_0000 + 0x40_0000 <= b.0 * 0x40_0000) by (nonlinear_arith)
            requires
                a.0 < b.0,
        ;
    }
}

/// A snowflake with a timestamp below 2^42 determines all four of its
/// fields: two such IDs are equal only when their timestamps, group IDs,
/// worker IDs and sequence numbers all are. So generators with different
/// group or worker IDs never hand out the same ID.
pub proof fn law_packed_fields_are_recoverable(
    ts1: u64,
    g1: u64,
    w1: u64,
    s1: u64,
    ts2: u64,
    g2: u64,
    w2: u64,
    s2: u64,
)
    requires
        ts1 < 0x400_0000_0000,
        ts2 < 0x400_0000_0000,
        g1 <= MAX_GROUP_ID,
        g2 <= MAX_GROUP_ID,
        w1 <= MAX_WORKER_ID,
        w2 <= MAX_WORKER_ID,
        s1 <= SEQUENCE_MASK,
        s2 <= SEQUENCE_MASK,
        pack_snowflake(ts1, g1, w1, s1) == pack_snowflake(ts2, g2, w2, s2),
    ensures
        ts1 == ts2,
        g1 == g2,
        w1 == w2,
        s1 == s2,
{
    assert(ts1 == ts2 && g1 == g2 && w1 == w2 && s1 == s2) by (bit_vector)
        requires
            ts1 < 0x400_0000_0000,
            ts2 < 0x400_0000_0000,
            g1 <= 31,
            g2 <= 31,
            w1 <= 31,
            w2 <= 31,
            s1 <= 4095,
            s2 <= 4095,
            (ts1 << 22u64) | (g1 << 17u64) | (w1 << 12u64) | s1 == (ts2 << 22u64) | (g2 << 17u64) | (w2
                << 12u64) | s2,
    ;
}

/// The fields of a packed snowflake read back as they were packed.
pub proof fn law_fields_read_back(ts: u64, g: u64, w: u64, seq: u64)
    requires
        ts < 0x400_0000_0000,
        g <= MAX_GROUP_ID,
        w <= MAX_WORKER_ID,
        seq <= SEQUENCE_MASK,
    ensures
        pack_snowflake(ts, g, w, seq) >> 22u64 == ts,
        (pack_snowflake(ts, g, w, seq) >> 17u64) & 31u64 == g,
        (pack_snowflake(ts, g, w, seq) >> 12u64) & 31u64 == w,
        pack_snowflake(ts, g, w, seq) & 4095u64 == seq,
{
    assert(((ts << 22u64) | (g << 17u64) | (w << 12u64) | seq) >> 22u64 == ts && (((ts << 22u64) | (g
        << 17u64) | (w << 12u64) | seq) >> 17u64) & 31u64 == g && (((ts << 22u64) | (g << 17u64) | (w
        << 12u64) | seq) >> 12u64) & 31u64 == w && ((ts << 22u64) | (g << 17u64) | (w << 12u64) | seq)
        & 4095u64 == seq) by (bit_vector)
        requires
            ts < 0x400_0000_0000,
            g <= 31,
            w <= 31,
            seq <= 4095,
    ;
}

/// What one call of the generator does, by the clock reading `now`:
/// in a later millisecond it yields the first sequence number of that
/// millisecond; in the same millisecond it yields the next sequence number
/// until they are used up, and then asks to wait one millisecond; when the
/// clock went backwards it asks to wait until the clock is back.
pub proof fn law_generator_steps(s: GeneratorView, now: u64)
    requires
        s.sequence <= SEQUENCE_MASK,
    ensures
        now > s.last_timestamp ==> emits(s, now) && next_state(s, now) == (GeneratorView {
            last_timestamp: now,
            sequence: 0,
            ..s
        }),
        now == s.last_timestamp && s.sequence < SEQUENCE_MASK ==> emits(s, now) && next_state(s, now) == (
        GeneratorView { sequence: (s.sequence + 1) as u64, ..s }),
        now == s.last_timestamp && s.sequence == SEQUENCE_MASK ==> !emits(s, now) && wait_millis(s, now) == 1
            && next_state(s, now) == s,
        now < s.last_timestamp ==> !emits(s, now) && wait_millis(s, now) == s.last_timestamp - now
            && next_state(s, now) == s,
{
}

} // verus!
