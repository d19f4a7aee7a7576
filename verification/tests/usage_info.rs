use parity_scale_codec::Encode;
use sp_stats::usage_info::ENCODED_LEN;
use sp_stats::{
    DecodeError, Field, InstantWithDefault, StateMachineStats, UsageInfo, UsageUnit,
};
use std::time::{Duration, Instant};

fn unit(ops: u64, bytes: u64) -> UsageUnit {
    UsageUnit { ops, bytes }
}

fn counts(unit: &UsageUnit) -> (u64, u64) {
    (unit.ops, unit.bytes)
}

fn stats(a: u64, b: u64, c: u64, d: u64) -> StateMachineStats {
    StateMachineStats {
        reads_modified: a,
        bytes_read_modified: b,
        writes_overlay: c,
        bytes_writes_overlay: d,
    }
}

/// Statistics in which every encoded field differs from every other.
fn sample() -> UsageInfo {
    let mut info = UsageInfo::empty();
    info.reads = unit(10, 1000);
    info.writes = unit(5, 500);
    info.nodes_writes = unit(0x0102_0304_0506_0708, 3);
    info.overlay_writes = unit(4, u64::MAX);
    info.removed_nodes = unit(6, 7);
    info.cache_reads = unit(8, 9);
    info.modified_reads = unit(11, 12);
    info.memory = 4096;
    info
}

fn persisted(info: &UsageInfo) -> [(u64, u64); 8] {
    [
        counts(&info.reads),
        counts(&info.writes),
        counts(&info.nodes_writes),
        counts(&info.overlay_writes),
        counts(&info.removed_nodes),
        counts(&info.cache_reads),
        counts(&info.modified_reads),
        (u64::from(info.memory), 0),
    ]
}

#[test]
fn default_unit_counts_nothing() {
    assert_eq!(counts(&UsageUnit::default()), (0, 0));
}

#[test]
fn empty_has_every_counter_at_zero() {
    let info = UsageInfo::empty();
    assert_eq!(persisted(&info), [(0, 0); 8]);
    assert_eq!(info.memory, 0);
    assert_eq!(info.span, Duration::ZERO);
}

#[test]
fn empty_carries_a_start() {
    let shown = format!("{:?}", UsageInfo::empty().started);
    assert!(shown.starts_with("InstantWithDefault(Instant"));
}

#[test]
fn default_instant_is_a_reading_of_the_clock() {
    let shown = format!("{:?}", InstantWithDefault::default());
    assert!(shown.starts_with("InstantWithDefault(Instant"));
}

#[test]
fn wrapped_instant_is_kept() {
    let taken = Instant::now();
    let wrapped = InstantWithDefault::new(taken);
    assert_eq!(format!("{:?}", wrapped), format!("InstantWithDefault({:?})", taken));
    assert_eq!(format!("{:?}", wrapped.clone()), format!("{:?}", wrapped));
}

#[test]
fn merge_into_empty() {
    let mut info = UsageInfo::empty();
    info.include_state_machine_states(&stats(3, 120, 2, 64));
    assert_eq!(counts(&info.modified_reads), (3, 120));
    assert_eq!(counts(&info.overlay_writes), (2, 64));
    assert_eq!(counts(&info.reads), (0, 0));
    assert_eq!(counts(&info.writes), (0, 0));
    assert_eq!(counts(&info.nodes_writes), (0, 0));
    assert_eq!(counts(&info.removed_nodes), (0, 0));
    assert_eq!(counts(&info.cache_reads), (0, 0));
    assert_eq!(info.memory, 0);
}

#[test]
fn merge_adds_to_what_is_there() {
    let mut info = sample();
    info.overlay_writes = unit(4, 40);
    info.include_state_machine_states(&stats(1, 2, 3, 4));
    assert_eq!(counts(&info.modified_reads), (12, 14));
    assert_eq!(counts(&info.overlay_writes), (7, 44));
}

#[test]
fn merge_in_two_steps_equals_merge_of_the_sums() {
    let mut stepwise = sample();
    stepwise.overlay_writes = unit(4, 40);
    stepwise.include_state_machine_states(&stats(1, 20, 300, 4000));
    stepwise.include_state_machine_states(&stats(5, 60, 700, 8000));
    let mut at_once = sample();
    at_once.overlay_writes = unit(4, 40);
    at_once.include_state_machine_states(&stats(6, 80, 1000, 12000));
    assert_eq!(persisted(&stepwise), persisted(&at_once));
    assert_eq!(counts(&stepwise.modified_reads), (17, 92));
    assert_eq!(counts(&stepwise.overlay_writes), (1004, 12040));
}

#[test]
fn merge_order_does_not_matter() {
    let mut one = sample();
    one.include_state_machine_states(&stats(1, 20, 300, 4000));
    one.include_state_machine_states(&stats(5, 60, 700, 8000));
    let mut other = sample();
    other.include_state_machine_states(&stats(5, 60, 700, 8000));
    other.include_state_machine_states(&stats(1, 20, 300, 4000));
    assert_eq!(persisted(&one), persisted(&other));
}

#[test]
fn merge_leaves_the_other_fields_alone() {
    let mut info = sample();
    let span = Duration::from_millis(1500);
    info.span = span;
    let started = format!("{:?}", info.started);
    info.include_state_machine_states(&stats(1, 2, 3, 4));
    let untouched = sample();
    assert_eq!(counts(&info.reads), counts(&untouched.reads));
    assert_eq!(counts(&info.writes), counts(&untouched.writes));
    assert_eq!(counts(&info.nodes_writes), counts(&untouched.nodes_writes));
    assert_eq!(counts(&info.removed_nodes), counts(&untouched.removed_nodes));
    assert_eq!(counts(&info.cache_reads), counts(&untouched.cache_reads));
    assert_eq!(info.memory, 4096);
    assert_eq!(info.span, span);
    assert_eq!(format!("{:?}", info.started), started);
}

#[test]
fn merge_stops_at_the_largest_count() {
    let mut info = UsageInfo::empty();
    info.modified_reads = unit(u64::MAX - 1, u64::MAX);
    info.overlay_writes = unit(u64::MAX - 5, 0);
    info.include_state_machine_states(&stats(2, 1, 5, u64::MAX));
    assert_eq!(counts(&info.modified_reads), (u64::MAX, u64::MAX));
    assert_eq!(counts(&info.overlay_writes), (u64::MAX, u64::MAX));
    info.include_state_machine_states(&stats(1, 1, 1, 1));
    assert_eq!(counts(&info.modified_reads), (u64::MAX, u64::MAX));
    assert_eq!(counts(&info.overlay_writes), (u64::MAX, u64::MAX));
}

#[test]
fn merge_of_nothing_changes_nothing() {
    let mut info = sample();
    info.include_state_machine_states(&stats(0, 0, 0, 0));
    assert_eq!(persisted(&info), persisted(&sample()));
}

#[test]
fn encode_decode_round_trip() {
    let mut info = UsageInfo::empty();
    info.reads = unit(10, 1000);
    info.writes = unit(5, 500);
    info.memory = 4096;
    let bytes = info.encode();
    let decoded = UsageInfo::decode(&bytes).unwrap();
    assert_eq!(counts(&decoded.reads), (10, 1000));
    assert_eq!(counts(&decoded.writes), (5, 500));
    assert_eq!(decoded.memory, 4096);
}

#[test]
fn round_trip_keeps_every_encoded_field() {
    let info = sample();
    let decoded = UsageInfo::decode(&info.encode()).unwrap();
    assert_eq!(persisted(&decoded), persisted(&info));
}

#[test]
fn round_trip_of_extreme_values() {
    let mut info = UsageInfo::empty();
    info.reads = unit(u64::MAX, 0);
    info.modified_reads = unit(0, u64::MAX);
    info.memory = u32::MAX;
    let decoded = UsageInfo::decode(&info.encode()).unwrap();
    assert_eq!(persisted(&decoded), persisted(&info));
}

#[test]
fn decoded_statistics_span_no_time() {
    let mut info = sample();
    info.span = Duration::from_secs(90);
    let decoded = UsageInfo::decode(&info.encode()).unwrap();
    assert_eq!(decoded.span, Duration::ZERO);
}

#[test]
fn encoding_of_empty_is_all_zero() {
    assert_eq!(UsageInfo::empty().encode(), vec![0u8; 116]);
    assert_eq!(ENCODED_LEN, 116);
}

#[test]
fn encoding_is_little_endian_in_field_order() {
    let mut expected: Vec<u8> = Vec::new();
    expected.extend_from_slice(&[10, 0, 0, 0, 0, 0, 0, 0]);
    expected.extend_from_slice(&[0xe8, 0x03, 0, 0, 0, 0, 0, 0]);
    expected.extend_from_slice(&[5, 0, 0, 0, 0, 0, 0, 0]);
    expected.extend_from_slice(&[0xf4, 0x01, 0, 0, 0, 0, 0, 0]);
    expected.extend_from_slice(&[8, 7, 6, 5, 4, 3, 2, 1]);
    expected.extend_from_slice(&[3, 0, 0, 0, 0, 0, 0, 0]);
    expected.extend_from_slice(&[4, 0, 0, 0, 0, 0, 0, 0]);
    expected.extend_from_slice(&[0xff; 8]);
    expected.extend_from_slice(&[6, 0, 0, 0, 0, 0, 0, 0]);
    expected.extend_from_slice(&[7, 0, 0, 0, 0, 0, 0, 0]);
    expected.extend_from_slice(&[8, 0, 0, 0, 0, 0, 0, 0]);
    expected.extend_from_slice(&[9, 0, 0, 0, 0, 0, 0, 0]);
    expected.extend_from_slice(&[11, 0, 0, 0, 0, 0, 0, 0]);
    expected.extend_from_slice(&[12, 0, 0, 0, 0, 0, 0, 0]);
    expected.extend_from_slice(&[0, 0x10, 0, 0]);
    assert_eq!(sample().encode(), expected);
}

#[test]
fn encoding_agrees_with_the_codec_on_a_tuple() {
    let info = sample();
    let front = (
        (info.reads.ops, info.reads.bytes),
        (info.writes.ops, info.writes.bytes),
        (info.nodes_writes.ops, info.nodes_writes.bytes),
        (info.overlay_writes.ops, info.overlay_writes.bytes),
    );
    let back = (
        (info.removed_nodes.ops, info.removed_nodes.bytes),
        (info.cache_reads.ops, info.cache_reads.bytes),
        (info.modified_reads.ops, info.modified_reads.bytes),
        info.memory,
    );
    assert_eq!(info.encode(), (front, back).encode());
}

#[test]
fn encoding_leaves_out_the_time_fields() {
    let mut early = sample();
    early.span = Duration::from_secs(1);
    let mut late = sample();
    late.started = InstantWithDefault::new(Instant::now());
    late.span = Duration::from_secs(2);
    assert_eq!(early.encode(), late.encode());
}

#[test]
fn decode_one_byte_short() {
    let mut bytes = sample().encode();
    bytes.pop();
    let error = UsageInfo::decode(&bytes).unwrap_err();
    assert_eq!(error, DecodeError { received: 115, missing: Some(Field::Memory) });
}

#[test]
fn decode_of_nothing() {
    let error = UsageInfo::decode(&[]).unwrap_err();
    assert_eq!(error, DecodeError { received: 0, missing: Some(Field::Reads) });
}

#[test]
fn decode_names_the_first_field_that_is_cut() {
    let bytes = sample().encode();
    let cut = |len: usize| UsageInfo::decode(&bytes[..len]).unwrap_err();
    assert_eq!(cut(15), DecodeError { received: 15, missing: Some(Field::Reads) });
    assert_eq!(cut(16), DecodeError { received: 16, missing: Some(Field::Writes) });
    assert_eq!(cut(31), DecodeError { received: 31, missing: Some(Field::Writes) });
    assert_eq!(cut(32), DecodeError { received: 32, missing: Some(Field::NodesWrites) });
    assert_eq!(cut(47), DecodeError { received: 47, missing: Some(Field::NodesWrites) });
    assert_eq!(cut(48), DecodeError { received: 48, missing: Some(Field::OverlayWrites) });
    assert_eq!(cut(63), DecodeError { received: 63, missing: Some(Field::OverlayWrites) });
    assert_eq!(cut(64), DecodeError { received: 64, missing: Some(Field::RemovedNodes) });
    assert_eq!(cut(79), DecodeError { received: 79, missing: Some(Field::RemovedNodes) });
    assert_eq!(cut(80), DecodeError { received: 80, missing: Some(Field::CacheReads) });
    assert_eq!(cut(95), DecodeError { received: 95, missing: Some(Field::CacheReads) });
    assert_eq!(cut(96), DecodeError { received: 96, missing: Some(Field::ModifiedReads) });
    assert_eq!(cut(111), DecodeError { received: 111, missing: Some(Field::ModifiedReads) });
    assert_eq!(cut(112), DecodeError { received: 112, missing: Some(Field::Memory) });
}

#[test]
fn decode_fails_at_every_shorter_length() {
    let bytes = sample().encode();
    for len in 0..bytes.len() {
        let error = UsageInfo::decode(&bytes[..len]).unwrap_err();
        assert_eq!(error.received, len);
        assert!(error.missing.is_some());
    }
}

#[test]
fn decode_with_bytes_left_over() {
    let mut bytes = sample().encode();
    bytes.push(0);
    let error = UsageInfo::decode(&bytes).unwrap_err();
    assert_eq!(error, DecodeError { received: 117, missing: None });
}

#[test]
fn decode_reads_little_endian() {
    let mut bytes = vec![0u8; 116];
    bytes[0] = 1;
    bytes[1] = 2;
    bytes[15] = 0x80;
    bytes[96] = 0xff;
    bytes[112] = 0x78;
    bytes[113] = 0x56;
    bytes[114] = 0x34;
    bytes[115] = 0x12;
    let info = UsageInfo::decode(&bytes).unwrap();
    assert_eq!(counts(&info.reads), (0x0201, 0x8000_0000_0000_0000));
    assert_eq!(counts(&info.modified_reads), (0xff, 0));
    assert_eq!(info.memory, 0x1234_5678);
    assert_eq!(info.encode(), bytes);
}
