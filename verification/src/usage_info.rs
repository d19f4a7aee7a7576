//! Usage statistics for a state backend.

use crate::clock::nanos_of;
use crate::scale::{
    le_bytes, lemma_le_bytes_len, lemma_le_bytes_of_value, lemma_le_value_bound,
    lemma_le_value_of_bytes, lemma_pow256_widths, put_u32, put_u64, read_u32, read_u64, u32_at,
    u64_at,
};
use crate::StateMachineStats;
use std::time::{Duration, Instant};
use vstd::prelude::*;

verus! {

/// Measured count of operations and total bytes.
#[derive(Clone, Debug)]
pub struct UsageUnit {
    /// Number of operations.
    pub ops: u64,
    /// Number of bytes.
    pub bytes: u64,
}

impl Default for UsageUnit {
    /// Nothing counted yet.
    fn default() -> (unit: Self)
        ensures
            unit == (UsageUnit { ops: 0, bytes: 0 }),
    {
        UsageUnit { ops: 0, bytes: 0 }
    }
}

impl UsageUnit {
    /// The sixteen bytes that stand for the unit: `ops`, then `bytes`.
    pub open spec fn wire(self) -> Seq<u8> {
        le_bytes(self.ops as nat, 8) + le_bytes(self.bytes as nat, 8)
    }

    /// The unit whose sixteen bytes start at offset `at` of `bytes`, if
    /// `bytes` reaches that far.
    pub open spec fn parse_at(bytes: Seq<u8>, at: int) -> Option<UsageUnit> {
        match (u64_at(bytes, at), u64_at(bytes, at + 8)) {
            (Some(ops), Some(count)) => Some(UsageUnit { ops, bytes: count }),
            _ => None,
        }
    }

    /// The unit after `ops` more operations on `bytes` more bytes. A counter
    /// that would pass `u64::MAX` stays there.
    pub open spec fn grown(self, ops: u64, bytes: u64) -> UsageUnit {
        UsageUnit { ops: saturating_sum(self.ops, ops), bytes: saturating_sum(self.bytes, bytes) }
    }

    /// Appends the encoding of the unit to `dest`.
    pub fn encode_to(&self, dest: &mut Vec<u8>)
        ensures
            final(dest)@ == old(dest)@ + self.wire(),
    {
        put_u64(self.ops, dest);
        put_u64(self.bytes, dest);
        assert(dest@ =~= old(dest)@ + self.wire());
    }

    /// Decodes the unit that starts at offset `at` of `bytes`, or gives
    /// `None` where fewer than sixteen bytes are left from there on.
    pub fn decode_at(bytes: &[u8], at: usize) -> (found: Option<UsageUnit>)
        ensures
            found == UsageUnit::parse_at(bytes@, at as int),
    {
        let ops = match read_u64(bytes, at) {
            Some(value) => value,
            None => return None,
        };
        assert(at + 8 <= bytes.len());
        let count = match read_u64(bytes, at + 8) {
            Some(value) => value,
            None => return None,
        };
        Some(UsageUnit { ops, bytes: count })
    }

    /// Counts `ops` more operations on `bytes` more bytes.
    fn grow(&mut self, ops: u64, bytes: u64)
        ensures
            *final(self) == old(self).grown(ops, bytes),
    {
        self.ops = self.ops.saturating_add(ops);
        self.bytes = self.bytes.saturating_add(bytes);
    }
}

/// The sum of two counters, held at `u64::MAX` where it would pass it.
pub open spec fn saturating_sum(counter: u64, more: u64) -> u64 {
    if counter + more > u64::MAX {
        u64::MAX
    } else {
        (counter + more) as u64
    }
}

/// A moment in time whose default is the moment at which the default is
/// asked for, so that it can be left out of the encoding.
#[derive(Clone, Debug)]
pub struct InstantWithDefault(Instant);

impl View for InstantWithDefault {
    type V = Instant;

    closed spec fn view(&self) -> Instant {
        self.0
    }
}

impl Default for InstantWithDefault {
    /// The current reading of the clock.
    fn default() -> Self {
        InstantWithDefault(Instant::now())
    }
}

impl InstantWithDefault {
    /// Wraps a moment that the caller has taken.
    pub fn new(instant: Instant) -> (wrapped: Self)
        ensures
            wrapped@ == instant,
    {
        InstantWithDefault(instant)
    }
}

/// Number of bytes in the encoding of the statistics: seven units of sixteen
/// bytes and the four bytes of the memory reading.
pub const ENCODED_LEN: usize = 116;

/// Usage statistics for state backend.
#[derive(Clone, Debug)]
pub struct UsageInfo {
    /// Read statistics (total).
    pub reads: UsageUnit,
    /// Write statistics (total).
    pub writes: UsageUnit,
    /// Write trie nodes statistics.
    pub nodes_writes: UsageUnit,
    /// Write into cached state machine change overlay.
    pub overlay_writes: UsageUnit,
    /// Removed trie nodes statistics.
    pub removed_nodes: UsageUnit,
    /// Cache read statistics.
    pub cache_reads: UsageUnit,
    /// Modified value read statistics.
    pub modified_reads: UsageUnit,
    /// Memory used. Kept to 32 bits so that a 32-bit target can hold it.
    pub memory: u32,
    /// Moment at which current statistics has been started being collected.
    /// Not part of the encoding.
    pub started: InstantWithDefault,
    /// Timespan of the statistics. Not part of the encoding.
    pub span: Duration,
}

/// The part of the statistics that the encoding carries: every field but the
/// two that keep local time.
pub struct Persisted {
    /// Read statistics (total).
    pub reads: UsageUnit,
    /// Write statistics (total).
    pub writes: UsageUnit,
    /// Write trie nodes statistics.
    pub nodes_writes: UsageUnit,
    /// Write into cached state machine change overlay.
    pub overlay_writes: UsageUnit,
    /// Removed trie nodes statistics.
    pub removed_nodes: UsageUnit,
    /// Cache read statistics.
    pub cache_reads: UsageUnit,
    /// Modified value read statistics.
    pub modified_reads: UsageUnit,
    /// Memory used.
    pub memory: u32,
}

/// The fields of the encoding, in the order in which they are written.
#[derive(Clone, Copy, Debug, PartialEq, Eq)]
pub enum Field {
    Reads,
    Writes,
    NodesWrites,
    OverlayWrites,
    RemovedNodes,
    CacheReads,
    ModifiedReads,
    Memory,
}

/// Why a byte sequence was not taken for encoded statistics.
#[derive(Clone, Debug, PartialEq, Eq)]
pub struct DecodeError {
    /// Number of bytes in the sequence that was turned down.
    pub received: usize,
    /// The first field that the sequence is too short to hold in full, or
    /// `None` where it holds every field and goes on after the last.
    pub missing: Option<Field>,
}

/// The first field that a sequence of `len` bytes is too short to hold in
/// full, if there is one.
pub open spec fn first_missing(len: nat) -> Option<Field> {
    if len < 16 {
        Some(Field::Reads)
    } else if len < 32 {
        Some(Field::Writes)
    } else if len < 48 {
        Some(Field::NodesWrites)
    } else if len < 64 {
        Some(Field::OverlayWrites)
    } else if len < 80 {
        Some(Field::RemovedNodes)
    } else if len < 96 {
        Some(Field::CacheReads)
    } else if len < 112 {
        Some(Field::ModifiedReads)
    } else if len < 116 {
        Some(Field::Memory)
    } else {
        None
    }
}

impl Persisted {
    /// Nothing counted and no memory in use.
    pub open spec fn zero() -> Persisted {
        let none = UsageUnit { ops: 0, bytes: 0 };
        Persisted {
            reads: none,
            writes: none,
            nodes_writes: none,
            overlay_writes: none,
            removed_nodes: none,
            cache_reads: none,
            modified_reads: none,
            memory: 0,
        }
    }

    /// The bytes that stand for these fields: the seven units in the order of
    /// `Field`, then the memory reading in four bytes.
    pub open spec fn wire(self) -> Seq<u8> {
        self.reads.wire() + self.writes.wire() + self.nodes_writes.wire()
            + self.overlay_writes.wire() + self.removed_nodes.wire() + self.cache_reads.wire()
            + self.modified_reads.wire() + le_bytes(self.memory as nat, 4)
    }

    /// The fields that `bytes` stands for. Only a sequence of exactly
    /// `ENCODED_LEN` bytes stands for any.
    pub open spec fn parse(bytes: Seq<u8>) -> Option<Persisted> {
        if bytes.len() == ENCODED_LEN {
            Some(
                Persisted {
                    reads: UsageUnit::parse_at(bytes, 0).unwrap(),
                    writes: UsageUnit::parse_at(bytes, 16).unwrap(),
                    nodes_writes: UsageUnit::parse_at(bytes, 32).unwrap(),
                    overlay_writes: UsageUnit::parse_at(bytes, 48).unwrap(),
                    removed_nodes: UsageUnit::parse_at(bytes, 64).unwrap(),
                    cache_reads: UsageUnit::parse_at(bytes, 80).unwrap(),
                    modified_reads: UsageUnit::parse_at(bytes, 96).unwrap(),
                    memory: u32_at(bytes, 112).unwrap(),
                },
            )
        } else {
            None
        }
    }

    /// These fields after the counts of a state machine have been added: its
    /// modified reads and its overlay writes grow, the rest stays.
    pub open spec fn merged(self, count: StateMachineStats) -> Persisted {
        Persisted {
            modified_reads: self.modified_reads.grown(
                count.reads_modified,
                count.bytes_read_modified,
            ),
            overlay_writes: self.overlay_writes.grown(
                count.writes_overlay,
                count.bytes_writes_overlay,
            ),
            ..self
        }
    }
}

impl View for UsageInfo {
    type V = Persisted;

    open spec fn view(&self) -> Persisted {
        Persisted {
            reads: self.reads,
            writes: self.writes,
            nodes_writes: self.nodes_writes,
            overlay_writes: self.overlay_writes,
            removed_nodes: self.removed_nodes,
            cache_reads: self.cache_reads,
            modified_reads: self.modified_reads,
            memory: self.memory,
        }
    }
}

impl UsageInfo {
    /// Empty statistics.
    ///
    /// Means no data was collected. The statistics start now and span no
    /// time yet.
    pub fn empty() -> (info: Self)
        ensures
            info@ == Persisted::zero(),
            nanos_of(info.span) == 0,
    {
        UsageInfo {
            reads: UsageUnit::default(),
            writes: UsageUnit::default(),
            overlay_writes: UsageUnit::default(),
            nodes_writes: UsageUnit::default(),
            removed_nodes: UsageUnit::default(),
            cache_reads: UsageUnit::default(),
            modified_reads: UsageUnit::default(),
            memory: 0,
            started: InstantWithDefault(Instant::now()),
            span: Duration::from_nanos(0),
        }
    }

    /// Add collected state machine to this state.
    ///
    /// A counter that would pass `u64::MAX` stays there.
    pub fn include_state_machine_states(&mut self, count: &StateMachineStats)
        ensures
            final(self)@ == old(self)@.merged(*count),
            final(self).reads == old(self).reads,
            final(self).writes == old(self).writes,
            final(self).nodes_writes == old(self).nodes_writes,
            final(self).removed_nodes == old(self).removed_nodes,
            final(self).cache_reads == old(self).cache_reads,
            final(self).memory == old(self).memory,
            final(self).started == old(self).started,
            final(self).span == old(self).span,
    {
        self.modified_reads.grow(count.reads_modified, count.bytes_read_modified);
        self.overlay_writes.grow(count.writes_overlay, count.bytes_writes_overlay);
    }

    /// Encodes the statistics: `ENCODED_LEN` bytes that hold every field but
    /// `started` and `span`, and from which `decode` reads the same fields
    /// back.
    pub fn encode(&self) -> (bytes: Vec<u8>)
        ensures
            bytes@ == self@.wire(),
            bytes@.len() == ENCODED_LEN,
            Persisted::parse(bytes@) == Some(self@),
    {
        let mut bytes = Vec::with_capacity(ENCODED_LEN);
        self.reads.encode_to(&mut bytes);
        self.writes.encode_to(&mut bytes);
        self.nodes_writes.encode_to(&mut bytes);
        self.overlay_writes.encode_to(&mut bytes);
        self.removed_nodes.encode_to(&mut bytes);
        self.cache_reads.encode_to(&mut bytes);
        self.modified_reads.encode_to(&mut bytes);
        put_u32(self.memory, &mut bytes);
        proof {
            assert(bytes@ =~= self@.wire());
            lemma_decode_encode(*self);
        }
        bytes
    }

    /// Decodes statistics from exactly `ENCODED_LEN` bytes. The statistics
    /// that come out start now and span no time yet.
    ///
    /// A sequence of any other length is turned down, and the error says how
    /// long it was and where it fell short.
    pub fn decode(bytes: &[u8]) -> (decoded: Result<UsageInfo, DecodeError>)
        ensures
            match decoded {
                Ok(info) => Persisted::parse(bytes@) == Some(info@) && info@.wire() == bytes@
                    && nanos_of(info.span) == 0,
                Err(error) => Persisted::parse(bytes@) is None && error.received == bytes@.len()
                    && error.missing == first_missing(bytes@.len()),
            },
    {
        let received = bytes.len();
        let reads = match UsageUnit::decode_at(bytes, 0) {
            Some(unit) => unit,
            None => return Err(DecodeError { received, missing: Some(Field::Reads) }),
        };
        let writes = match UsageUnit::decode_at(bytes, 16) {
            Some(unit) => unit,
            None => return Err(DecodeError { received, missing: Some(Field::Writes) }),
        };
        let nodes_writes = match UsageUnit::decode_at(bytes, 32) {
            Some(unit) => unit,
            None => return Err(DecodeError { received, missing: Some(Field::NodesWrites) }),
        };
        let overlay_writes = match UsageUnit::decode_at(bytes, 48) {
            Some(unit) => unit,
            None => return Err(DecodeError { received, missing: Some(Field::OverlayWrites) }),
        };
        let removed_nodes = match UsageUnit::decode_at(bytes, 64) {
            Some(unit) => unit,
            None => return Err(DecodeError { received, missing: Some(Field::RemovedNodes) }),
        };
        let cache_reads = match UsageUnit::decode_at(bytes, 80) {
            Some(unit) => unit,
            None => return Err(DecodeError { received, missing: Some(Field::CacheReads) }),
        };
        let modified_reads = match UsageUnit::decode_at(bytes, 96) {
            Some(unit) => unit,
            None => return Err(DecodeError { received, missing: Some(Field::ModifiedReads) }),
        };
        let memory = match read_u32(bytes, 112) {
            Some(value) => value,
            None => return Err(DecodeError { received, missing: Some(Field::Memory) }),
        };
        if received != ENCODED_LEN {
            return Err(DecodeError { received, missing: None });
        }
        proof {
            lemma_encode_decode(bytes@);
        }
        Ok(
            UsageInfo {
                reads,
                writes,
                nodes_writes,
                overlay_writes,
                removed_nodes,
                cache_reads,
                modified_reads,
                memory,
                started: InstantWithDefault::default(),
                span: Duration::from_nanos(0),
            },
        )
    }
}

/// A unit takes sixteen bytes.
proof fn lemma_unit_wire_len(unit: UsageUnit)
    ensures
        unit.wire().len() == 16,
{
    lemma_le_bytes_len(unit.ops as nat, 8);
    lemma_le_bytes_len(unit.bytes as nat, 8);
}

/// A unit is read back from its bytes, whatever stands before and after
/// them.
pub proof fn lemma_unit_parse_wire(before: Seq<u8>, unit: UsageUnit, after: Seq<u8>)
    ensures
        UsageUnit::parse_at(before + unit.wire() + after, before.len() as int) == Some(unit),
{
    let all = before + unit.wire() + after;
    let at = before.len() as int;
    lemma_le_bytes_len(unit.ops as nat, 8);
    lemma_le_bytes_len(unit.bytes as nat, 8);
    assert(all.subrange(at, at + 8) =~= le_bytes(unit.ops as nat, 8));
    assert(all.subrange(at + 8, at + 16) =~= le_bytes(unit.bytes as nat, 8));
    lemma_pow256_widths();
    lemma_le_value_of_bytes(unit.ops as nat, 8);
    lemma_le_value_of_bytes(unit.bytes as nat, 8);
}

/// The sixteen bytes from which a unit is read are the bytes of that unit.
pub proof fn lemma_unit_wire_parse(bytes: Seq<u8>, at: int)
    requires
        0 <= at,
        at + 16 <= bytes.len(),
    ensures
        UsageUnit::parse_at(bytes, at).unwrap().wire() == bytes.subrange(at, at + 16),
{
    let low = bytes.subrange(at, at + 8);
    let high = bytes.subrange(at + 8, at + 16);
    lemma_pow256_widths();
    lemma_le_value_bound(low);
    lemma_le_value_bound(high);
    lemma_le_bytes_of_value(low);
    lemma_le_bytes_of_value(high);
    assert(low + high =~= bytes.subrange(at, at + 16));
}

/// Every encoding has `ENCODED_LEN` bytes.
proof fn lemma_wire_len(fields: Persisted)
    ensures
        fields.wire().len() == ENCODED_LEN,
{
    lemma_unit_wire_len(fields.reads);
    lemma_unit_wire_len(fields.writes);
    lemma_unit_wire_len(fields.nodes_writes);
    lemma_unit_wire_len(fields.overlay_writes);
    lemma_unit_wire_len(fields.removed_nodes);
    lemma_unit_wire_len(fields.cache_reads);
    lemma_unit_wire_len(fields.modified_reads);
    lemma_le_bytes_len(fields.memory as nat, 4);
}

/// Round trip: the encoding of any statistics has `ENCODED_LEN` bytes, and
/// decoding it gives back each of the eight fields that it carries. Of
/// `started` and `span` it carries nothing.
pub proof fn lemma_decode_encode(info: UsageInfo)
    ensures
        info@.wire().len() == ENCODED_LEN,
        Persisted::parse(info@.wire()) == Some(info@),
{
    let fields = info@;
    let all = fields.wire();
    let a = fields.reads.wire();
    let b = fields.writes.wire();
    let c = fields.nodes_writes.wire();
    let d = fields.overlay_writes.wire();
    let e = fields.removed_nodes.wire();
    let f = fields.cache_reads.wire();
    let g = fields.modified_reads.wire();
    let m = le_bytes(fields.memory as nat, 4);
    lemma_wire_len(fields);
    lemma_unit_wire_len(fields.reads);
    lemma_unit_wire_len(fields.writes);
    lemma_unit_wire_len(fields.nodes_writes);
    lemma_unit_wire_len(fields.overlay_writes);
    lemma_unit_wire_len(fields.removed_nodes);
    lemma_unit_wire_len(fields.cache_reads);
    lemma_unit_wire_len(fields.modified_reads);
    lemma_le_bytes_len(fields.memory as nat, 4);
    assert(all =~= Seq::<u8>::empty() + a + (b + c + d + e + f + g + m));
    lemma_unit_parse_wire(Seq::empty(), fields.reads, b + c + d + e + f + g + m);
    assert(all =~= a + b + (c + d + e + f + g + m));
    lemma_unit_parse_wire(a, fields.writes, c + d + e + f + g + m);
    assert(all =~= (a + b) + c + (d + e + f + g + m));
    lemma_unit_parse_wire(a + b, fields.nodes_writes, d + e + f + g + m);
    assert(all =~= (a + b + c) + d + (e + f + g + m));
    lemma_unit_parse_wire(a + b + c, fields.overlay_writes, e + f + g + m);
    assert(all =~= (a + b + c + d) + e + (f + g + m));
    lemma_unit_parse_wire(a + b + c + d, fields.removed_nodes, f + g + m);
    assert(all =~= (a + b + c + d + e) + f + (g + m));
    lemma_unit_parse_wire(a + b + c + d + e, fields.cache_reads, g + m);
    assert(all =~= (a + b + c + d + e + f) + g + m);
    lemma_unit_parse_wire(a + b + c + d + e + f, fields.modified_reads, m);
    assert(all.subrange(112, 116) =~= m);
    lemma_pow256_widths();
    lemma_le_value_of_bytes(fields.memory as nat, 4);
}

/// The other way round: encoding what `ENCODED_LEN` bytes were decoded to
/// gives back the bytes, so no two byte sequences stand for the same fields.
pub proof fn lemma_encode_decode(bytes: Seq<u8>)
    requires
        bytes.len() == ENCODED_LEN,
    ensures
        Persisted::parse(bytes).unwrap().wire() == bytes,
{
    let fields = Persisted::parse(bytes).unwrap();
    lemma_unit_wire_parse(bytes, 0);
    lemma_unit_wire_parse(bytes, 16);
    lemma_unit_wire_parse(bytes, 32);
    lemma_unit_wire_parse(bytes, 48);
    lemma_unit_wire_parse(bytes, 64);
    lemma_unit_wire_parse(bytes, 80);
    lemma_unit_wire_parse(bytes, 96);
    let tail = bytes.subrange(112, 116);
    lemma_pow256_widths();
    lemma_le_value_bound(tail);
    lemma_le_bytes_of_value(tail);
    assert(fields.wire() =~= bytes);
}

/// Adding the counts of two state machines one after the other comes to the
/// same as adding, in one step, counts that are the sums of theirs.
pub proof fn lemma_merge_additive(
    info: UsageInfo,
    first: StateMachineStats,
    second: StateMachineStats,
    both: StateMachineStats,
)
    requires
        both.reads_modified == first.reads_modified + second.reads_modified,
        both.bytes_read_modified == first.bytes_read_modified + second.bytes_read_modified,
        both.writes_overlay == first.writes_overlay + second.writes_overlay,
        both.bytes_writes_overlay == first.bytes_writes_overlay + second.bytes_writes_overlay,
    ensures
        info@.merged(first).merged(second) == info@.merged(both),
{
}

/// The order in which the counts of two state machines are added makes no
/// difference.
pub proof fn lemma_merge_commutes(
    info: UsageInfo,
    first: StateMachineStats,
    second: StateMachineStats,
)
    ensures
        info@.merged(first).merged(second) == info@.merged(second).merged(first),
{
}

/// Adding the counts of a state machine lowers no counter, and changes none
/// but those of the modified reads and of the overlay writes.
pub proof fn lemma_merge_grows(info: UsageInfo, count: StateMachineStats)
    ensures
        info@.merged(count).modified_reads.ops >= info.modified_reads.ops,
        info@.merged(count).modified_reads.bytes >= info.modified_reads.bytes,
        info@.merged(count).overlay_writes.ops >= info.overlay_writes.ops,
        info@.merged(count).overlay_writes.bytes >= info.overlay_writes.bytes,
        info@.merged(count).reads == info.reads,
        info@.merged(count).writes == info.writes,
        info@.merged(count).nodes_writes == info.nodes_writes,
        info@.merged(count).removed_nodes == info.removed_nodes,
        info@.merged(count).cache_reads == info.cache_reads,
        info@.merged(count).memory == info.memory,
{
}

} // verus!
