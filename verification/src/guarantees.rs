//! What holds of every run of a generation cycle.

use crate::cycle::{ActionView, CycleView, Outcome, Stage};
use crate::naming::{
    lemma_pointer_name_injective, lemma_snapshot_file_name_injective,
    lemma_snapshot_file_name_is_numeric, pointer_name, pointer_target, EMPTY_DELTA_FILENAME,
    UPDATE_TIME_FILENAME,
};
use crate::cycle::lemma_next_preserves_wf;
use crate::retention::{
    lemma_slot_timestamps_distinct, lemma_slots_fit, lemma_smallest_covering, slot_scope,
    slot_timestamp,
};
use crate::scope::{is_scope_list, UNBOUNDED};
use crate::snapshot::cutoff;
use vstd::prelude::*;

verus! {

/// The cycle after the reports `outcomes`, one per step, in order.
pub open spec fn run(cycle: CycleView, outcomes: Seq<Outcome>) -> CycleView
    decreases outcomes.len(),
{
    if outcomes.len() == 0 {
        cycle
    } else {
        run(cycle.next(outcomes[0]), outcomes.skip(1))
    }
}

/// Whether, along the run, every step was carried out, but for the upload,
/// which may have gone either way.
pub open spec fn carried_out(cycle: CycleView, outcomes: Seq<Outcome>) -> bool
    decreases outcomes.len(),
{
    outcomes.len() == 0 || {
        &&& cycle.stage.terminal() || cycle.stage == Stage::Upload || cycle.stage.accepts(
            outcomes[0],
        )
        &&& carried_out(cycle.next(outcomes[0]), outcomes.skip(1))
    }
}

/// The cycle at the same point of another stage.
pub open spec fn at_stage(cycle: CycleView, stage: Stage) -> CycleView {
    CycleView { stage, ..cycle }
}

/// Only the four steps of the publication change what readers see.
pub proof fn lemma_finalized_touched_only_by_publication(cycle: CycleView)
    ensures
        cycle.action().touches_finalized() <==> cycle.stage.publishing(),
{
}

/// The publication begins in one way only: the freshness marker, the last
/// thing written to the pending directories, has been written.
pub proof fn lemma_publication_follows_success(cycle: CycleView, outcome: Outcome)
    requires
        !cycle.stage.publishing(),
        cycle.next(outcome).stage.publishing(),
    ensures
        cycle.stage == Stage::WriteUpdateTime,
        outcome is Done,
        cycle.next(outcome).stage == Stage::RemoveFinalizedSnapshots,
{
}

/// A step that was not carried out gives the cycle up, unless it is the
/// upload.
pub proof fn lemma_failure_gives_up(cycle: CycleView, outcome: Outcome)
    requires
        !cycle.stage.terminal(),
        cycle.stage != Stage::Upload,
        !cycle.stage.accepts(outcome),
    ensures
        cycle.next(outcome).stage == Stage::Aborted,
        cycle.next(outcome).action() == ActionView::Aborted,
{
}

/// A cycle at rest stays at rest.
pub proof fn lemma_rest_is_final(cycle: CycleView, outcomes: Seq<Outcome>)
    requires
        cycle.stage.terminal(),
    ensures
        run(cycle, outcomes) == cycle,
    decreases outcomes.len(),
{
    if outcomes.len() > 0 {
        lemma_rest_is_final(cycle, outcomes.skip(1));
    }
}

/// A failure before the publication leaves the finalized directories as they
/// were: whatever is reported afterwards, no step that changes them comes due.
pub proof fn lemma_failure_spares_finalized(
    cycle: CycleView,
    outcome: Outcome,
    later: Seq<Outcome>,
)
    requires
        !cycle.stage.terminal(),
        !cycle.stage.publishing(),
        cycle.stage != Stage::Upload,
        !cycle.stage.accepts(outcome),
    ensures
        run(cycle.next(outcome), later).stage == Stage::Aborted,
        !run(cycle.next(outcome), later).action().touches_finalized(),
{
    lemma_rest_is_final(cycle.next(outcome), later);
}

/// How the upload went makes no difference to the cycle.
pub proof fn lemma_upload_outcome_is_immaterial(cycle: CycleView, one: Outcome, other: Outcome)
    requires
        cycle.stage == Stage::Upload,
    ensures
        cycle.next(one) == cycle.next(other),
        cycle.next(one).stage == Stage::StoreEmptyDelta,
{
}

/// Every step that is carried out, and the upload however it goes, brings the
/// published generation one step closer.
pub proof fn lemma_step_counts_down(cycle: CycleView, outcome: Outcome)
    requires
        cycle.wf(),
        !cycle.stage.terminal(),
        cycle.stage == Stage::Upload || cycle.stage.accepts(outcome),
    ensures
        cycle.next(outcome).remaining() + 1 == cycle.remaining(),
        cycle.next(outcome).stage != Stage::Aborted,
        cycle.remaining() > 0,
{
    lemma_slots_fit(
        cycle.reference_timestamp as nat,
        cycle.granularity as nat,
        cycle.epoch_anchor as nat,
        cycle.max_slots,
    );
}

/// Only the published generation has no step left.
pub proof fn lemma_nothing_remains_when_finished(cycle: CycleView)
    requires
        cycle.wf(),
        cycle.stage != Stage::Aborted,
    ensures
        cycle.remaining() == 0 <==> cycle.stage == Stage::Finished,
{
}

/// A cycle whose steps are all carried out is published after as many reports
/// as it has steps, also where the upload fails.
pub proof fn lemma_cycle_completes(cycle: CycleView, outcomes: Seq<Outcome>)
    requires
        cycle.wf(),
        cycle.stage != Stage::Aborted,
        carried_out(cycle, outcomes),
        outcomes.len() >= cycle.remaining(),
    ensures
        run(cycle, outcomes).stage == Stage::Finished,
    decreases outcomes.len(),
{
    lemma_nothing_remains_when_finished(cycle);
    if cycle.stage == Stage::Finished {
        lemma_rest_is_final(cycle, outcomes);
    } else {
        lemma_step_counts_down(cycle, outcomes[0]);
        lemma_next_preserves_wf(cycle, outcomes[0]);
        lemma_cycle_completes(cycle.next(outcomes[0]), outcomes.skip(1));
    }
}

/// Every pointer of the index leads to a snapshot that the same cycle has
/// stored: its target is the file name of one of the scopes, whose record is
/// at hand when the pointer comes due.
pub proof fn lemma_pointer_leads_to_stored_snapshot(cycle: CycleView, slot: u64)
    requires
        cycle.wf(),
        cycle.stage == Stage::LinkSlot(slot),
    ensures
        exists|position: int|
            {
                &&& 0 <= position < cycle.scopes.len()
                &&& cycle.records.contains_key(#[trigger] cycle.scopes[position])
                &&& cycle.action() matches ActionView::Link { target, .. }
                &&& at_stage(cycle, Stage::StoreSnapshot(position as usize)).action()
                    matches ActionView::StoreSnapshot { filename, .. }
                &&& target == pointer_target(filename)
                &&& cycle.records[cycle.scopes[position]].filename == filename
            },
{
    let scopes = cycle.scopes;
    let granularity = cycle.granularity as nat;
    let found = slot_scope(scopes, granularity, slot as nat);
    lemma_slot_scope_is_listed(scopes, granularity, slot as nat);
    let position = choose|position: int|
        0 <= position < scopes.len() && scopes[position] == found->0;
    assert(cycle.records.contains_key(scopes[position]));
    assert(position as usize == position);
}

/// In a scope list every slot is served by one of the scopes.
pub proof fn lemma_slot_scope_is_listed(scopes: Seq<u64>, granularity: nat, slot: nat)
    requires
        is_scope_list(scopes),
    ensures
        slot_scope(scopes, granularity, slot) is Some,
        scopes.contains(slot_scope(scopes, granularity, slot)->0),
{
    if slot == 0 {
        assert(scopes[scopes.len() - 1] == UNBOUNDED);
    } else {
        lemma_smallest_covering(scopes, slot * granularity);
    }
}

/// The pointer that serves a client which is up to date leads to the
/// placeholder that the cycle has stored.
pub proof fn lemma_placeholder_pointer_leads_to_placeholder(cycle: CycleView)
    ensures
        at_stage(cycle, Stage::LinkEmptyDelta).action() matches ActionView::Link { target, .. }
            && at_stage(cycle, Stage::StoreEmptyDelta).action()
            matches ActionView::StoreEmptyDelta { filename, .. } && target == pointer_target(
            filename,
        ),
{
}

/// The name of the pointer that comes due at `stage`, if one does.
pub open spec fn pointer_at(cycle: CycleView, stage: Stage) -> Seq<char> {
    match at_stage(cycle, stage).action() {
        ActionView::Link { name, .. } => name,
        _ => Seq::empty(),
    }
}

/// No two pointers of a cycle share a name, and none is named like the
/// freshness marker.
pub proof fn lemma_pointer_names_distinct(cycle: CycleView, first: u64, second: u64)
    requires
        cycle.wf(),
        first < second < cycle.slots(),
    ensures
        pointer_at(cycle, Stage::LinkSlot(first)) != pointer_at(cycle, Stage::LinkSlot(second)),
        pointer_at(cycle, Stage::LinkSlot(first)) != pointer_at(cycle, Stage::LinkEmptyDelta),
        pointer_at(cycle, Stage::LinkSlot(second)) != pointer_at(cycle, Stage::LinkEmptyDelta),
        pointer_at(cycle, Stage::LinkSlot(first)) != UPDATE_TIME_FILENAME@,
        pointer_at(cycle, Stage::LinkSlot(second)) != UPDATE_TIME_FILENAME@,
        pointer_at(cycle, Stage::LinkEmptyDelta) != UPDATE_TIME_FILENAME@,
{
    let reference = cycle.reference_timestamp as nat;
    let granularity = cycle.granularity as nat;
    let anchor = cycle.epoch_anchor as nat;
    let stamp1 = slot_timestamp(reference, granularity, first as nat);
    let stamp2 = slot_timestamp(reference, granularity, second as nat);
    lemma_slot_timestamps_distinct(
        reference,
        granularity,
        anchor,
        cycle.max_slots,
        first as nat,
        second as nat,
    );
    lemma_slots_fit(reference, granularity, anchor, cycle.max_slots);
    assert(stamp1 < reference) by {
        if first > 0 {
            lemma_slot_timestamps_distinct(
                reference,
                granularity,
                anchor,
                cycle.max_slots,
                0,
                first as nat,
            );
        }
    }
    if pointer_name(stamp1) == pointer_name(stamp2) {
        lemma_pointer_name_injective(stamp1, stamp2);
    }
    if pointer_name(stamp1) == pointer_name(reference) {
        lemma_pointer_name_injective(stamp1, reference);
    }
    if pointer_name(stamp2) == pointer_name(reference) {
        lemma_pointer_name_injective(stamp2, reference);
    }
    lemma_snapshot_file_name_is_numeric(stamp1, 0, 0);
    lemma_snapshot_file_name_is_numeric(stamp2, 0, 0);
    lemma_snapshot_file_name_is_numeric(reference, 0, 0);
}

/// No two scopes of a cycle share a snapshot file, whatever their cutoffs, and
/// none takes the place of the empty-delta placeholder.
pub proof fn lemma_snapshot_files_distinct(cycle: CycleView, first: u64, second: u64)
    requires
        first != second,
    ensures
        cycle.scope_file(first) != cycle.scope_file(second),
        cycle.scope_file(first) != EMPTY_DELTA_FILENAME@,
{
    let reference = cycle.reference_timestamp as nat;
    let cutoff1 = cutoff(reference, first as nat);
    let cutoff2 = cutoff(reference, second as nat);
    if cycle.scope_file(first) == cycle.scope_file(second) {
        lemma_snapshot_file_name_injective(
            reference,
            first as nat,
            cutoff1,
            reference,
            second as nat,
            cutoff2,
        );
    }
    lemma_snapshot_file_name_is_numeric(reference, first as nat, cutoff1);
}

} // verus!
