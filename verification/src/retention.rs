//! The retention index: which snapshot serves which client timestamp.

use crate::scope::{is_scope_list, UNBOUNDED};
use crate::snapshot::SnapshotRecord;
use std::collections::HashMap;
use vstd::prelude::*;

verus! {

broadcast use vstd::std_specs::hash::group_hash_axioms;

/// Start of the slot range: 1 January 2022, 00:00 UTC.
pub const EPOCH_ANCHOR: u64 = 1640995200;

/// Why no index could be built.
#[derive(Debug, Clone, Copy, PartialEq, Eq, Structural)]
pub enum RetentionError {
    /// The granularity is zero.
    ZeroGranularity,
    /// No scope of the list covers the age of `slot`.
    NoCoveringScope { slot: u64 },
    /// The scope that covers `slot` has no record.
    MissingRecord { slot: u64, scope: u64 },
}

/// Whether a snapshot of `scope` holds everything younger than `age`.
pub open spec fn covers(scope: u64, age: nat) -> bool {
    scope == UNBOUNDED || age <= scope
}

/// The first scope of the list that covers `age`.
pub open spec fn first_covering(scopes: Seq<u64>, age: nat) -> Option<u64>
    decreases scopes.len(),
{
    if scopes.len() == 0 {
        None
    } else if covers(scopes[0], age) {
        Some(scopes[0])
    } else {
        first_covering(scopes.skip(1), age)
    }
}

/// How many slots a generation at `reference_timestamp` has: one per whole
/// `granularity` since `epoch_anchor`, and no more than `max_slots`.
pub open spec fn slot_count(
    reference_timestamp: nat,
    granularity: nat,
    epoch_anchor: nat,
    max_slots: Option<u64>,
) -> nat
    recommends
        granularity > 0,
{
    let elapsed = if reference_timestamp >= epoch_anchor {
        (reference_timestamp - epoch_anchor) as nat
    } else {
        0
    };
    let slots = elapsed / granularity;
    match max_slots {
        Some(max) => if slots <= max {
            slots
        } else {
            max as nat
        },
        None => slots,
    }
}

/// The scope that serves `slot`: the unbounded one for slot 0, and otherwise
/// the first one that covers the slot's age, `slot * granularity`.
pub open spec fn slot_scope(scopes: Seq<u64>, granularity: nat, slot: nat) -> Option<u64> {
    if slot == 0 {
        Some(UNBOUNDED)
    } else {
        first_covering(scopes, slot * granularity)
    }
}

/// The timestamp that names `slot`: 0 for slot 0, and otherwise the instant
/// `slot * granularity` before `reference_timestamp`, or 0 where that would lie
/// before the beginning of time.
pub open spec fn slot_timestamp(reference_timestamp: nat, granularity: nat, slot: nat) -> nat {
    if slot == 0 || slot * granularity >= reference_timestamp {
        0
    } else {
        (reference_timestamp - slot * granularity) as nat
    }
}

/// The file name that the pointer of `slot` leads to, where the slot's scope
/// exists and has a record.
pub open spec fn slot_target(
    scopes: Seq<u64>,
    records: Map<u64, SnapshotRecord>,
    granularity: nat,
    slot: nat,
) -> Option<Seq<char>> {
    match slot_scope(scopes, granularity, slot) {
        Some(scope) => if records.contains_key(scope) {
            Some(records[scope]@.filename)
        } else {
            None
        },
        None => None,
    }
}

/// Whether `index` is the retention index of a generation: one entry per
/// slot, in slot order, each made of the slot's timestamp and its target.
pub open spec fn is_retention_index(
    index: Seq<(u64, String)>,
    reference_timestamp: nat,
    granularity: nat,
    scopes: Seq<u64>,
    records: Map<u64, SnapshotRecord>,
    slots: nat,
) -> bool {
    &&& index.len() == slots
    &&& forall|slot: int|
        0 <= slot < slots ==> {
            &&& (#[trigger] index[slot]).0 == slot_timestamp(
                reference_timestamp,
                granularity,
                slot as nat,
            )
            &&& slot_target(scopes, records, granularity, slot as nat) == Some(index[slot].1@)
        }
}

/// Whether every slot below `slot` has a target.
pub open spec fn targets_below(
    scopes: Seq<u64>,
    records: Map<u64, SnapshotRecord>,
    granularity: nat,
    slot: nat,
) -> bool {
    forall|earlier: nat|
        earlier < slot ==> (#[trigger] slot_target(scopes, records, granularity, earlier)) is Some
}

/// The number of slots of a generation.
pub fn count_slots(
    reference_timestamp: u64,
    granularity: u64,
    epoch_anchor: u64,
    max_slots: Option<u64>,
) -> (count: u64)
    requires
        granularity > 0,
    ensures
        count == slot_count(
            reference_timestamp as nat,
            granularity as nat,
            epoch_anchor as nat,
            max_slots,
        ),
{
    let elapsed: u64 = reference_timestamp.saturating_sub(epoch_anchor);
    let symlink_count: u64 = elapsed / granularity;
    match max_slots {
        Some(max) => if symlink_count <= max {
            symlink_count
        } else {
            max
        },
        None => symlink_count,
    }
}

/// The first scope of `scopes` that covers `age`, if any does.
pub fn resolve_scope(scopes: &[u64], age: u64) -> (found: Option<u64>)
    ensures
        found == first_covering(scopes@, age as nat),
{
    let mut k: usize = 0;
    assert(scopes@.skip(0) =~= scopes@);
    while k < scopes.len()
        invariant
            k <= scopes@.len(),
            first_covering(scopes@, age as nat) == first_covering(scopes@.skip(k as int), age as nat),
        decreases scopes@.len() - k,
    {
        let current_scope: u64 = scopes[k];
        proof {
            assert(scopes@.skip(k as int)[0] == scopes@[k as int]);
            assert(scopes@.skip(k as int).skip(1) =~= scopes@.skip(k + 1));
        }
        if age <= current_scope {
            return Some(current_scope);
        }
        k += 1;
    }
    assert(scopes@.skip(k as int).len() == 0);
    None
}

/// The scope that serves `slot`.
pub fn resolve_slot(scopes: &[u64], granularity: u64, slot: u64) -> (scope: Option<u64>)
    ensures
        scope == slot_scope(scopes@, granularity as nat, slot as nat),
{
    if slot == 0 {
        return Some(UNBOUNDED);
    }
    match slot.checked_mul(granularity) {
        Some(age) => resolve_scope(scopes, age),
        None => {
            proof {
                lemma_beyond_every_bound(scopes@, (slot * granularity) as nat);
            }
            resolve_scope(scopes, UNBOUNDED)
        },
    }
}

/// The timestamp that names `slot`.
pub fn canonical_slot_timestamp(reference_timestamp: u64, granularity: u64, slot: u64) -> (timestamp:
    u64)
    ensures
        timestamp == slot_timestamp(reference_timestamp as nat, granularity as nat, slot as nat),
{
    if slot == 0 {
        return 0;
    }
    match slot.checked_mul(granularity) {
        Some(age) => reference_timestamp.saturating_sub(age),
        None => 0,
    }
}

/// Builds the retention index of a generation: for every slot, in order, the
/// slot's timestamp and the file name of the snapshot that serves it.
///
/// The first slot that has no covering scope, or whose scope has no record,
/// ends the walk with the matching error.
pub fn build(
    reference_timestamp: u64,
    granularity: u64,
    scopes: &[u64],
    records: &HashMap<u64, SnapshotRecord>,
    epoch_anchor: u64,
    max_slots: Option<u64>,
) -> (result: Result<Vec<(u64, String)>, RetentionError>)
    ensures
        match result {
            Ok(index) => {
                &&& granularity > 0
                &&& is_retention_index(
                    index@,
                    reference_timestamp as nat,
                    granularity as nat,
                    scopes@,
                    records@,
                    slot_count(
                        reference_timestamp as nat,
                        granularity as nat,
                        epoch_anchor as nat,
                        max_slots,
                    ),
                )
            },
            Err(RetentionError::ZeroGranularity) => granularity == 0,
            Err(RetentionError::NoCoveringScope { slot }) => {
                &&& granularity > 0
                &&& slot < slot_count(
                    reference_timestamp as nat,
                    granularity as nat,
                    epoch_anchor as nat,
                    max_slots,
                )
                &&& slot_scope(scopes@, granularity as nat, slot as nat) is None
                &&& targets_below(scopes@, records@, granularity as nat, slot as nat)
            },
            Err(RetentionError::MissingRecord { slot, scope }) => {
                &&& granularity > 0
                &&& slot < slot_count(
                    reference_timestamp as nat,
                    granularity as nat,
                    epoch_anchor as nat,
                    max_slots,
                )
                &&& slot_scope(scopes@, granularity as nat, slot as nat) == Some(scope)
                &&& !records@.contains_key(scope)
                &&& targets_below(scopes@, records@, granularity as nat, slot as nat)
            },
        },
{
    if granularity == 0 {
        return Err(RetentionError::ZeroGranularity);
    }
    let symlink_count: u64 = count_slots(reference_timestamp, granularity, epoch_anchor, max_slots);
    let mut index: Vec<(u64, String)> = Vec::new();
    let mut i: u64 = 0;
    while i < symlink_count
        invariant
            granularity > 0,
            i <= symlink_count,
            symlink_count == slot_count(
                reference_timestamp as nat,
                granularity as nat,
                epoch_anchor as nat,
                max_slots,
            ),
            is_retention_index(
                index@,
                reference_timestamp as nat,
                granularity as nat,
                scopes@,
                records@,
                i as nat,
            ),
            targets_below(scopes@, records@, granularity as nat, i as nat),
        decreases symlink_count - i,
    {
        let referenced_scope: u64 = match resolve_slot(scopes, granularity, i) {
            Some(scope) => scope,
            None => {
                return Err(RetentionError::NoCoveringScope { slot: i });
            },
        };
        let record = match records.get(&referenced_scope) {
            Some(record) => record,
            None => {
                return Err(RetentionError::MissingRecord { slot: i, scope: referenced_scope });
            },
        };
        let canonical_last_sync_timestamp: u64 = canonical_slot_timestamp(
            reference_timestamp,
            granularity,
            i,
        );
        index.push((canonical_last_sync_timestamp, record.filename.clone()));
        i += 1;
    }
    Ok(index)
}

/// An age beyond every bounded scope is covered by exactly the scopes that
/// cover the largest bounded age.
pub proof fn lemma_beyond_every_bound(scopes: Seq<u64>, age: nat)
    requires
        age >= UNBOUNDED,
    ensures
        first_covering(scopes, age) == first_covering(scopes, UNBOUNDED as nat),
    decreases scopes.len(),
{
    if scopes.len() > 0 && !covers(scopes[0], age) {
        lemma_beyond_every_bound(scopes.skip(1), age);
    }
}

/// `first_covering` finds the first position that covers `age`, and finds
/// nothing only where no position does.
pub proof fn lemma_first_covering(scopes: Seq<u64>, age: nat)
    ensures
        match first_covering(scopes, age) {
            Some(scope) => exists|k: int|
                {
                    &&& 0 <= k < scopes.len()
                    &&& #[trigger] scopes[k] == scope
                    &&& covers(scope, age)
                    &&& forall|j: int| 0 <= j < k ==> !covers(#[trigger] scopes[j], age)
                },
            None => forall|j: int| 0 <= j < scopes.len() ==> !covers(#[trigger] scopes[j], age),
        },
    decreases scopes.len(),
{
    if scopes.len() > 0 && !covers(scopes[0], age) {
        let rest = scopes.skip(1);
        lemma_first_covering(rest, age);
        assert(forall|j: int| 0 <= j < rest.len() ==> rest[j] == scopes[j + 1]);
        match first_covering(rest, age) {
            Some(scope) => {
                let k = choose|k: int|
                    {
                        &&& 0 <= k < rest.len()
                        &&& #[trigger] rest[k] == scope
                        &&& covers(scope, age)
                        &&& forall|j: int| 0 <= j < k ==> !covers(#[trigger] rest[j], age)
                    };
                assert(scopes[k + 1] == scope);
                assert forall|j: int| 0 <= j < k + 1 implies !covers(#[trigger] scopes[j], age) by {
                    if j > 0 {
                        assert(scopes[j] == rest[j - 1]);
                    }
                }
            },
            None => {
                assert forall|j: int| 0 <= j < scopes.len() implies !covers(
                    #[trigger] scopes[j],
                    age,
                ) by {
                    if j > 0 {
                        assert(scopes[j] == rest[j - 1]);
                    }
                }
            },
        }
    }
}

/// In a scope list every age has a covering scope, and the one found is the
/// smallest of them: no snapshot that would do is fresher.
pub proof fn lemma_smallest_covering(scopes: Seq<u64>, age: nat)
    requires
        is_scope_list(scopes),
    ensures
        first_covering(scopes, age) is Some,
        covers(first_covering(scopes, age)->0, age),
        scopes.contains(first_covering(scopes, age)->0),
        forall|j: int|
            0 <= j < scopes.len() && covers(#[trigger] scopes[j], age) ==> first_covering(
                scopes,
                age,
            )->0 <= scopes[j],
{
    lemma_first_covering(scopes, age);
    assert(covers(scopes[scopes.len() - 1], age));
    let found = first_covering(scopes, age)->0;
    let k = choose|k: int|
        {
            &&& 0 <= k < scopes.len()
            &&& #[trigger] scopes[k] == found
            &&& covers(found, age)
            &&& forall|j: int| 0 <= j < k ==> !covers(#[trigger] scopes[j], age)
        };
    assert forall|j: int| 0 <= j < scopes.len() && covers(#[trigger] scopes[j], age) implies found
        <= scopes[j] by {
        if j < k {
            assert(!covers(scopes[j], age));
        }
    }
}

/// Slot 0 is served by the unbounded scope and named by timestamp 0, whatever
/// the reference timestamp, the granularity and the scopes.
pub proof fn lemma_slot_zero(scopes: Seq<u64>, reference_timestamp: nat, granularity: nat)
    ensures
        slot_scope(scopes, granularity, 0) == Some(UNBOUNDED),
        slot_timestamp(reference_timestamp, granularity, 0) == 0,
{
}

/// With a scope list and a record for each of its scopes, every slot has a
/// target: building the index cannot fail.
pub proof fn lemma_every_slot_has_target(
    scopes: Seq<u64>,
    records: Map<u64, SnapshotRecord>,
    granularity: nat,
    slot: nat,
)
    requires
        is_scope_list(scopes),
        forall|k: int| 0 <= k < scopes.len() ==> records.contains_key(#[trigger] scopes[k]),
    ensures
        slot_scope(scopes, granularity, slot) is Some,
        scopes.contains(slot_scope(scopes, granularity, slot)->0),
        slot_target(scopes, records, granularity, slot) == Some(
            records[slot_scope(scopes, granularity, slot)->0]@.filename,
        ),
{
    if slot == 0 {
        assert(scopes[scopes.len() - 1] == UNBOUNDED);
    } else {
        lemma_smallest_covering(scopes, slot * granularity);
    }
}

/// The slots of a generation lie within the time since the epoch anchor.
pub proof fn lemma_slots_fit(
    reference_timestamp: nat,
    granularity: nat,
    epoch_anchor: nat,
    max_slots: Option<u64>,
)
    requires
        granularity > 0,
    ensures
        slot_count(reference_timestamp, granularity, epoch_anchor, max_slots) * granularity
            <= reference_timestamp,
        slot_count(reference_timestamp, granularity, epoch_anchor, max_slots) > 0
            ==> reference_timestamp >= epoch_anchor + granularity,
        slot_count(reference_timestamp, granularity, epoch_anchor, max_slots)
            <= reference_timestamp,
{
    let elapsed = if reference_timestamp >= epoch_anchor {
        (reference_timestamp - epoch_anchor) as nat
    } else {
        0
    };
    let slots = elapsed / granularity;
    let count = slot_count(reference_timestamp, granularity, epoch_anchor, max_slots);
    assert(slots * granularity <= elapsed && (slots > 0 ==> elapsed >= granularity))
        by (nonlinear_arith)
        requires
            granularity > 0,
            slots == elapsed / granularity,
    ;
    assert(count * granularity <= slots * granularity && count <= count * granularity)
        by (nonlinear_arith)
        requires
            count <= slots,
            granularity > 0,
    ;
}

/// No two slots of a generation share a timestamp, so no two pointers of the
/// index share a name.
pub proof fn lemma_slot_timestamps_distinct(
    reference_timestamp: nat,
    granularity: nat,
    epoch_anchor: nat,
    max_slots: Option<u64>,
    first: nat,
    second: nat,
)
    requires
        granularity > 0,
        first < second < slot_count(reference_timestamp, granularity, epoch_anchor, max_slots),
    ensures
        slot_timestamp(reference_timestamp, granularity, first) != slot_timestamp(
            reference_timestamp,
            granularity,
            second,
        ),
        0 < slot_timestamp(reference_timestamp, granularity, second) < reference_timestamp,
{
    let count = slot_count(reference_timestamp, granularity, epoch_anchor, max_slots);
    lemma_slots_fit(reference_timestamp, granularity, epoch_anchor, max_slots);
    assert(first * granularity < second * granularity && second * granularity + granularity
        <= count * granularity && second * granularity >= granularity) by (nonlinear_arith)
        requires
            granularity > 0,
            first < second < count,
    ;
}

/// A retention index holds no timestamp twice: every slot has its own entry.
pub proof fn lemma_index_has_no_duplicates(
    index: Seq<(u64, String)>,
    reference_timestamp: nat,
    granularity: nat,
    scopes: Seq<u64>,
    records: Map<u64, SnapshotRecord>,
    epoch_anchor: nat,
    max_slots: Option<u64>,
    first: int,
    second: int,
)
    requires
        granularity > 0,
        is_retention_index(
            index,
            reference_timestamp,
            granularity,
            scopes,
            records,
            slot_count(reference_timestamp, granularity, epoch_anchor, max_slots),
        ),
        0 <= first < second < index.len(),
    ensures
        index[first].0 != index[second].0,
{
    lemma_slot_timestamps_distinct(
        reference_timestamp,
        granularity,
        epoch_anchor,
        max_slots,
        first as nat,
        second as nat,
    );
}

} // verus!
