use gossip_snapshot::cycle::{Action, CycleError, GenerationCycle, Outcome, Stage};
use gossip_snapshot::naming::Directory;
use gossip_snapshot::scope::{plan, UNBOUNDED};
use gossip_snapshot::snapshot::SerializedResponse;
use std::collections::HashSet;

fn response(messages: u32) -> SerializedResponse {
    SerializedResponse {
        data: vec![0; 8],
        message_count: messages,
        announcement_count: 1,
        update_count: 2,
        update_count_full: 1,
        update_count_incremental: 1,
    }
}

fn touches_finalized(action: &Action) -> bool {
    match action {
        Action::RemoveDirectory(directory) | Action::CreateDirectory(directory) => {
            directory.is_finalized()
        }
        Action::Rename { from, to } => from.is_finalized() || to.is_finalized(),
        _ => false,
    }
}

/// Drives a cycle to rest. `fails` says of an action whether it fails.
fn drive(mut cycle: GenerationCycle, fails: &dyn Fn(&Action) -> bool) -> (Vec<Action>, Stage) {
    let mut actions = Vec::new();
    loop {
        let action = cycle.action();
        match action {
            Action::Finished | Action::Aborted => return (actions, cycle.stage()),
            _ => {}
        }
        let outcome = if fails(&action) {
            Outcome::Failed
        } else if let Action::StoreSnapshot { .. } = action {
            Outcome::Stored(response(actions.len() as u32))
        } else {
            Outcome::Done
        };
        actions.push(action);
        cycle = cycle.advance(outcome);
    }
}

fn small_cycle(upload: bool) -> GenerationCycle {
    GenerationCycle::new(1000, 50, plan(100, 400).unwrap(), 0, Some(10), upload).unwrap()
}

fn link(name: &str, target: &str) -> Action {
    Action::Link { name: String::from(name), target: String::from(target) }
}

#[test]
fn a_cycle_runs_from_purge_to_promotion() {
    let (actions, stage) = drive(small_cycle(true), &|_| false);
    assert_eq!(stage, Stage::Finished);
    let store = |scope: u64, cutoff: u32, filename: &str| Action::StoreSnapshot {
        scope,
        cutoff,
        filename: String::from(filename),
    };
    let expected = vec![
        Action::RemoveDirectory(Directory::PendingSnapshots),
        Action::RemoveDirectory(Directory::PendingSymlinks),
        Action::CreateDirectory(Directory::PendingSnapshots),
        Action::CreateDirectory(Directory::PendingSymlinks),
        store(100, 900, "1000__100__900.blob"),
        store(200, 800, "1000__200__800.blob"),
        store(400, 600, "1000__400__600.blob"),
        store(UNBOUNDED, 0, "1000__18446744073709551615__0.blob"),
        Action::Upload {
            filename: String::from("1000__18446744073709551615__0.blob"),
            timestamp: 0,
        },
        Action::StoreEmptyDelta {
            reference_timestamp: 1000,
            filename: String::from("empty_delta.lngossip"),
        },
        link("1000.bin", "../snapshots/empty_delta.lngossip"),
        link("0.bin", "../snapshots/1000__18446744073709551615__0.blob"),
        link("950.bin", "../snapshots/1000__100__900.blob"),
        link("900.bin", "../snapshots/1000__100__900.blob"),
        link("850.bin", "../snapshots/1000__200__800.blob"),
        link("800.bin", "../snapshots/1000__200__800.blob"),
        link("750.bin", "../snapshots/1000__400__600.blob"),
        link("700.bin", "../snapshots/1000__400__600.blob"),
        link("650.bin", "../snapshots/1000__400__600.blob"),
        link("600.bin", "../snapshots/1000__400__600.blob"),
        link("550.bin", "../snapshots/1000__18446744073709551615__0.blob"),
        Action::WriteUpdateTime { filename: String::from("update_time.txt") },
        Action::RemoveDirectory(Directory::FinalizedSnapshots),
        Action::RemoveDirectory(Directory::FinalizedSymlinks),
        Action::Rename { from: Directory::PendingSnapshots, to: Directory::FinalizedSnapshots },
        Action::Rename { from: Directory::PendingSymlinks, to: Directory::FinalizedSymlinks },
    ];
    assert_eq!(actions, expected);
}

#[test]
fn a_cycle_without_collector_does_not_upload() {
    let (actions, stage) = drive(small_cycle(false), &|_| false);
    assert_eq!(stage, Stage::Finished);
    assert_eq!(actions.len(), 25);
    assert!(actions.iter().all(|action| !matches!(action, Action::Upload { .. })));
}

#[test]
fn a_failing_upload_does_not_keep_a_cycle_from_finishing() {
    let (with_failure, stage) =
        drive(small_cycle(true), &|action| matches!(action, Action::Upload { .. }));
    assert_eq!(stage, Stage::Finished);
    let (without_failure, _) = drive(small_cycle(true), &|_| false);
    assert_eq!(with_failure, without_failure);
    assert_eq!(
        with_failure.last(),
        Some(&Action::Rename {
            from: Directory::PendingSymlinks,
            to: Directory::FinalizedSymlinks
        })
    );
}

#[test]
fn a_failure_before_publication_leaves_the_finalized_directories_alone() {
    let (all, _) = drive(small_cycle(true), &|_| false);
    let first_publishing = all.iter().position(touches_finalized).unwrap();
    assert_eq!(first_publishing, all.len() - 4);
    for failing in 0..first_publishing {
        if matches!(all[failing], Action::Upload { .. }) {
            continue;
        }
        let target = all[failing].clone();
        let (actions, stage) = drive(small_cycle(true), &|action| *action == target);
        assert_eq!(stage, Stage::Aborted);
        assert!(actions.len() <= failing + 1);
        assert!(actions.iter().all(|action| !touches_finalized(action)));
    }
}

#[test]
fn a_cycle_at_rest_stays_at_rest() {
    let mut cycle = small_cycle(false).advance(Outcome::Failed);
    assert!(cycle.is_aborted());
    assert!(!cycle.is_finished());
    assert_eq!(cycle.action(), Action::Aborted);
    for outcome in [Outcome::Done, Outcome::Failed, Outcome::Stored(response(0))] {
        cycle = cycle.advance(outcome);
        assert_eq!(cycle.stage(), Stage::Aborted);
    }
    let mut cycle = small_cycle(false);
    while !cycle.is_finished() {
        let outcome = match cycle.action() {
            Action::StoreSnapshot { .. } => Outcome::Stored(response(0)),
            _ => Outcome::Done,
        };
        cycle = cycle.advance(outcome);
    }
    assert_eq!(cycle.action(), Action::Finished);
    cycle = cycle.advance(Outcome::Failed);
    assert_eq!(cycle.stage(), Stage::Finished);
}

#[test]
fn a_report_of_the_wrong_kind_gives_the_cycle_up() {
    let cycle = small_cycle(false).advance(Outcome::Stored(response(0)));
    assert_eq!(cycle.stage(), Stage::Aborted);
    let mut cycle = small_cycle(false);
    for _ in 0..4 {
        cycle = cycle.advance(Outcome::Done);
    }
    assert_eq!(cycle.stage(), Stage::StoreSnapshot(0));
    assert_eq!(cycle.advance(Outcome::Done).stage(), Stage::Aborted);
}

#[test]
fn stored_snapshots_are_recorded_with_their_counts() {
    let mut cycle = small_cycle(false);
    for _ in 0..4 {
        cycle = cycle.advance(Outcome::Done);
    }
    assert!(cycle.record(100).is_none());
    cycle = cycle.advance(Outcome::Stored(response(17)));
    let record = cycle.record(100).unwrap();
    assert_eq!(record.filename, "1000__100__900.blob");
    assert_eq!(record.cutoff_timestamp, 900);
    assert_eq!(record.message_count, 17);
    assert!(cycle.record(200).is_none());
    assert_eq!(cycle.stage(), Stage::StoreSnapshot(1));
}

#[test]
fn every_pointer_leads_to_a_stored_file_and_has_its_own_name() {
    let scopes = plan(86400, 604800).unwrap();
    let reference_timestamp = 1640995200 + 30 * 86400;
    let cycle =
        GenerationCycle::new(reference_timestamp, 10800, scopes, 1640995200, None, true).unwrap();
    let (actions, stage) = drive(cycle, &|_| false);
    assert_eq!(stage, Stage::Finished);
    let mut stored = HashSet::new();
    let mut names = HashSet::new();
    let mut links = 0;
    for action in &actions {
        match action {
            Action::StoreSnapshot { filename, .. } | Action::StoreEmptyDelta { filename, .. } => {
                assert!(stored.insert(format!("../snapshots/{}", filename)));
            }
            Action::Link { name, target } => {
                links += 1;
                assert!(stored.contains(target));
                assert!(names.insert(name.clone()));
            }
            Action::WriteUpdateTime { filename } => assert!(!names.contains(filename)),
            _ => {}
        }
    }
    assert_eq!(stored.len(), 6);
    assert_eq!(links, 240 + 1);
}

#[test]
fn a_cycle_before_the_anchor_links_the_placeholder_only() {
    let cycle = GenerationCycle::new(1000, 50, vec![UNBOUNDED], 2000, None, false).unwrap();
    let (actions, stage) = drive(cycle, &|_| false);
    assert_eq!(stage, Stage::Finished);
    let links: Vec<&Action> =
        actions.iter().filter(|action| matches!(action, Action::Link { .. })).collect();
    assert_eq!(links, vec![&link("1000.bin", "../snapshots/empty_delta.lngossip")]);
}

#[test]
fn a_cycle_needs_a_granularity_and_a_scope_list() {
    let scopes = plan(100, 400).unwrap();
    assert_eq!(
        GenerationCycle::new(1000, 0, scopes.clone(), 0, None, false).err(),
        Some(CycleError::ZeroGranularity)
    );
    assert_eq!(
        GenerationCycle::new(1000, 0, vec![], 0, None, false).err(),
        Some(CycleError::ZeroGranularity)
    );
    for invalid in [vec![], vec![100, 200], vec![200, 100, UNBOUNDED], vec![UNBOUNDED, UNBOUNDED]] {
        assert_eq!(
            GenerationCycle::new(1000, 50, invalid, 0, None, false).err(),
            Some(CycleError::InvalidScopes)
        );
    }
    assert!(GenerationCycle::new(1000, 50, scopes, 0, None, false).is_ok());
}
