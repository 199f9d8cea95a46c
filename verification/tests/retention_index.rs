use gossip_snapshot::retention::{
    build, canonical_slot_timestamp, count_slots, resolve_scope, resolve_slot, RetentionError,
    EPOCH_ANCHOR,
};
use gossip_snapshot::scope::{plan, UNBOUNDED};
use gossip_snapshot::snapshot::{SerializedResponse, SnapshotRecord};
use std::collections::{HashMap, HashSet};

fn response() -> SerializedResponse {
    SerializedResponse {
        data: vec![1, 2, 3],
        message_count: 0,
        announcement_count: 0,
        update_count: 0,
        update_count_full: 0,
        update_count_incremental: 0,
    }
}

fn records_for(reference_timestamp: u64, scopes: &[u64]) -> HashMap<u64, SnapshotRecord> {
    let mut records = HashMap::new();
    for scope in scopes {
        records.insert(*scope, SnapshotRecord::new(reference_timestamp, *scope, &response()));
    }
    records
}

#[test]
fn slot_zero_resolves_to_the_unbounded_scope() {
    let scopes = [86400, 172800, 345600, UNBOUNDED];
    for granularity in [1u64, 50, 1800, u64::MAX] {
        assert_eq!(resolve_slot(&scopes, granularity, 0), Some(UNBOUNDED));
        for reference_timestamp in [0u64, 1000, 1_700_000_000, u64::MAX] {
            assert_eq!(canonical_slot_timestamp(reference_timestamp, granularity, 0), 0);
        }
    }
    assert_eq!(resolve_slot(&[], 1800, 0), Some(UNBOUNDED));
    assert_eq!(resolve_slot(&[10, 20], 1800, 0), Some(UNBOUNDED));
}

#[test]
fn slot_sixty_at_half_hours_resolves_to_two_days() {
    let scopes = [86400, 172800, 345600, UNBOUNDED];
    assert_eq!(60 * 1800, 108000);
    assert_eq!(resolve_slot(&scopes, 1800, 60), Some(172800));
    assert_eq!(resolve_scope(&scopes, 108000), Some(172800));
}

#[test]
fn a_scope_covers_ages_up_to_itself() {
    let scopes = [86400, 172800, 345600, UNBOUNDED];
    assert_eq!(resolve_scope(&scopes, 0), Some(86400));
    assert_eq!(resolve_scope(&scopes, 86400), Some(86400));
    assert_eq!(resolve_scope(&scopes, 86401), Some(172800));
    assert_eq!(resolve_scope(&scopes, 345600), Some(345600));
    assert_eq!(resolve_scope(&scopes, 345601), Some(UNBOUNDED));
    assert_eq!(resolve_scope(&scopes, u64::MAX), Some(UNBOUNDED));
}

#[test]
fn no_scope_covers_an_age_beyond_a_list_without_sentinel() {
    assert_eq!(resolve_scope(&[100, 200], 201), None);
    assert_eq!(resolve_scope(&[], 0), None);
    assert_eq!(resolve_slot(&[100, 200], 50, 5), None);
    assert_eq!(resolve_slot(&[100, 200], 50, 4), Some(200));
}

#[test]
fn the_first_covering_scope_wins_in_list_order() {
    assert_eq!(resolve_scope(&[300, 100, 200], 150), Some(300));
    assert_eq!(resolve_scope(&[100, 300, 200], 150), Some(300));
}

#[test]
fn an_age_too_large_for_the_machine_is_covered_by_the_sentinel_only() {
    let scopes = [u64::MAX - 1, UNBOUNDED];
    assert_eq!(resolve_slot(&scopes, u64::MAX, 2), Some(UNBOUNDED));
    assert_eq!(resolve_slot(&[u64::MAX - 1], u64::MAX, 2), None);
    assert_eq!(canonical_slot_timestamp(u64::MAX, u64::MAX, 2), 0);
}

#[test]
fn slot_timestamps_step_back_by_the_granularity() {
    assert_eq!(canonical_slot_timestamp(1000, 50, 1), 950);
    assert_eq!(canonical_slot_timestamp(1000, 50, 9), 550);
    assert_eq!(canonical_slot_timestamp(1000, 50, 20), 0);
    assert_eq!(canonical_slot_timestamp(1000, 50, 21), 0);
}

#[test]
fn slots_are_counted_from_the_anchor() {
    assert_eq!(EPOCH_ANCHOR, 1640995200);
    assert_eq!(count_slots(1000, 50, 0, None), 20);
    assert_eq!(count_slots(1000, 50, 0, Some(10)), 10);
    assert_eq!(count_slots(1000, 50, 0, Some(30)), 20);
    assert_eq!(count_slots(1000, 50, 0, Some(0)), 0);
    assert_eq!(count_slots(1049, 50, 0, None), 20);
    assert_eq!(count_slots(1000, 50, 400, None), 12);
    assert_eq!(count_slots(1000, 50, 1000, None), 0);
    assert_eq!(count_slots(1000, 50, 2000, None), 0);
    assert_eq!(count_slots(1_700_000_000, 10800, EPOCH_ANCHOR, None), 5463);
}

#[test]
fn end_to_end_index_of_ten_slots() {
    let scopes = plan(100, 400).unwrap();
    assert_eq!(scopes, vec![100, 200, 400, UNBOUNDED]);
    let records = records_for(1000, &scopes);
    let index = build(1000, 50, &scopes, &records, 0, Some(10)).unwrap();
    assert_eq!(index.len(), 10);
    let file = |scope: u64| records[&scope].filename.clone();
    assert_eq!(index[0], (0, file(UNBOUNDED)));
    assert_eq!(index[1], (950, file(100)));
    assert_eq!(index[2], (900, file(100)));
    assert_eq!(index[3], (850, file(200)));
    assert_eq!(index[4], (800, file(200)));
    assert_eq!(index[5], (750, file(400)));
    assert_eq!(index[8], (600, file(400)));
    assert_eq!(index[9], (550, file(UNBOUNDED)));
    assert_eq!(index[0].1, "1000__18446744073709551615__0.blob");
    assert_eq!(index[1].1, "1000__100__900.blob");
    assert_eq!(index[4].1, "1000__200__800.blob");
    assert_eq!(index[8].1, "1000__400__600.blob");
}

#[test]
fn every_slot_has_one_entry_and_its_own_timestamp() {
    let scopes = plan(86400, 604800).unwrap();
    let reference_timestamp = EPOCH_ANCHOR + 40 * 86400;
    let records = records_for(reference_timestamp, &scopes);
    let index = build(reference_timestamp, 10800, &scopes, &records, EPOCH_ANCHOR, None).unwrap();
    assert_eq!(index.len(), 320);
    let names: HashSet<u64> = index.iter().map(|entry| entry.0).collect();
    assert_eq!(names.len(), index.len());
    assert!(!names.contains(&reference_timestamp));
    let files: HashSet<&String> = records.values().map(|record| &record.filename).collect();
    for (slot, entry) in index.iter().enumerate() {
        assert!(files.contains(&entry.1));
        if slot > 0 {
            assert_eq!(entry.0, reference_timestamp - 10800 * slot as u64);
        }
    }
}

#[test]
fn an_index_before_the_anchor_is_empty() {
    let scopes = plan(100, 400).unwrap();
    let records = records_for(1000, &scopes);
    assert_eq!(build(1000, 50, &scopes, &records, EPOCH_ANCHOR, None), Ok(vec![]));
    assert_eq!(build(1000, 50, &[], &HashMap::new(), 1000, None), Ok(vec![]));
}

#[test]
fn build_rejects_a_zero_granularity() {
    let scopes = plan(100, 400).unwrap();
    let records = records_for(1000, &scopes);
    assert_eq!(
        build(1000, 0, &scopes, &records, 0, Some(10)),
        Err(RetentionError::ZeroGranularity)
    );
}

#[test]
fn build_reports_the_first_slot_that_no_scope_covers() {
    let scopes = [100, 200, 400];
    let mut records = records_for(1000, &scopes);
    records.insert(UNBOUNDED, SnapshotRecord::new(1000, UNBOUNDED, &response()));
    assert_eq!(
        build(1000, 50, &scopes, &records, 0, Some(10)),
        Err(RetentionError::NoCoveringScope { slot: 9 })
    );
    assert!(build(1000, 50, &scopes, &records, 0, Some(9)).is_ok());
}

#[test]
fn build_reports_the_first_slot_whose_scope_has_no_record() {
    let scopes = plan(100, 400).unwrap();
    let mut records = records_for(1000, &scopes);
    records.remove(&200);
    assert_eq!(
        build(1000, 50, &scopes, &records, 0, Some(10)),
        Err(RetentionError::MissingRecord { slot: 3, scope: 200 })
    );
    let no_records = HashMap::new();
    assert_eq!(
        build(1000, 50, &scopes, &no_records, 0, Some(10)),
        Err(RetentionError::MissingRecord { slot: 0, scope: UNBOUNDED })
    );
}
