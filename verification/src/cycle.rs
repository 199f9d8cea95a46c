//! One generation cycle as a state machine.
//!
//! The machine names the next thing to do; whoever drives it does that thing
//! and reports how it went. A failure of any step but the upload gives the
//! cycle up before the finalized directories have been touched.

use crate::naming::{
    pointer_name, pointer_target, relative_snapshot_path, snapshot_file_name, snapshot_filename,
    symlink_name, Directory, EMPTY_DELTA_FILENAME, UPDATE_TIME_FILENAME,
};
use crate::retention::{
    build, count_slots, is_retention_index, lemma_every_slot_has_target, slot_count, slot_scope,
    slot_timestamp, RetentionError,
};
use crate::scope::{check_scope_list, is_scope_list, UNBOUNDED};
use crate::snapshot::{
    cutoff, cutoff_timestamp, encoder_cutoff, record_for, SerializedResponse, SnapshotRecord,
    SnapshotRecordView,
};
use std::collections::HashMap;
use vstd::prelude::*;
use vstd::string::StringExecFns;

verus! {

broadcast use vstd::std_specs::hash::group_hash_axioms;

/// Where a cycle stands: the step that is due.
#[derive(Debug, Clone, Copy, PartialEq, Eq, Structural)]
pub enum Stage {
    /// Clear away the pending snapshots that an earlier cycle may have left.
    RemovePendingSnapshots,
    /// Clear away the pending pointers that an earlier cycle may have left.
    RemovePendingSymlinks,
    /// Make the empty pending snapshot directory.
    CreatePendingSnapshots,
    /// Make the empty pending pointer directory.
    CreatePendingSymlinks,
    /// Store the snapshot of the scope at this position of the list.
    StoreSnapshot(usize),
    /// Offer the unbounded snapshot to the collector.
    Upload,
    /// Store the empty-delta placeholder.
    StoreEmptyDelta,
    /// Point clients that are up to date at the placeholder.
    LinkEmptyDelta,
    /// Create the pointer of this slot.
    LinkSlot(u64),
    /// Write the freshness marker.
    WriteUpdateTime,
    /// Remove the snapshots that readers saw so far.
    RemoveFinalizedSnapshots,
    /// Remove the pointers that readers saw so far.
    RemoveFinalizedSymlinks,
    /// Put the pending snapshots in their place.
    PromoteSnapshots,
    /// Put the pending pointers in their place.
    PromoteSymlinks,
    /// The generation is published.
    Finished,
    /// The cycle was given up.
    Aborted,
}

/// What the driver is asked to do.
#[derive(Debug, Clone, PartialEq, Eq)]
pub enum Action {
    /// Remove the directory with all it holds, if it exists.
    RemoveDirectory(Directory),
    /// Create the directory.
    CreateDirectory(Directory),
    /// Have the delta since `cutoff` encoded and store it as `filename` in the
    /// pending snapshot directory; report what the encoder returned.
    StoreSnapshot { scope: u64, cutoff: u32, filename: String },
    /// Offer the snapshot stored as `filename` to the collector, under
    /// `timestamp`.
    Upload { filename: String, timestamp: u64 },
    /// Store the empty delta for `reference_timestamp` as `filename` in the
    /// pending snapshot directory.
    StoreEmptyDelta { reference_timestamp: u64, filename: String },
    /// Create the pointer `name` in the pending pointer directory; it holds
    /// `target`.
    Link { name: String, target: String },
    /// Write the present time to `filename` in the pending pointer directory.
    WriteUpdateTime { filename: String },
    /// Rename the directory `from` to `to`.
    Rename { from: Directory, to: Directory },
    /// The generation is published; nothing is left to do.
    Finished,
    /// The cycle was given up; nothing is left to do.
    Aborted,
}

/// An action as plain values: the model of `Action`.
pub enum ActionView {
    RemoveDirectory(Directory),
    CreateDirectory(Directory),
    StoreSnapshot { scope: u64, cutoff: u32, filename: Seq<char> },
    Upload { filename: Seq<char>, timestamp: u64 },
    StoreEmptyDelta { reference_timestamp: u64, filename: Seq<char> },
    Link { name: Seq<char>, target: Seq<char> },
    WriteUpdateTime { filename: Seq<char> },
    Rename { from: Directory, to: Directory },
    Finished,
    Aborted,
}

impl View for Action {
    type V = ActionView;

    open spec fn view(&self) -> ActionView {
        match *self {
            Action::RemoveDirectory(directory) => ActionView::RemoveDirectory(directory),
            Action::CreateDirectory(directory) => ActionView::CreateDirectory(directory),
            Action::StoreSnapshot { scope, cutoff, filename } => ActionView::StoreSnapshot {
                scope,
                cutoff,
                filename: filename@,
            },
            Action::Upload { filename, timestamp } => ActionView::Upload {
                filename: filename@,
                timestamp,
            },
            Action::StoreEmptyDelta { reference_timestamp, filename } => ActionView::StoreEmptyDelta {
                reference_timestamp,
                filename: filename@,
            },
            Action::Link { name, target } => ActionView::Link { name: name@, target: target@ },
            Action::WriteUpdateTime { filename } => ActionView::WriteUpdateTime {
                filename: filename@,
            },
            Action::Rename { from, to } => ActionView::Rename { from, to },
            Action::Finished => ActionView::Finished,
            Action::Aborted => ActionView::Aborted,
        }
    }
}

impl ActionView {
    /// Whether the action changes a directory that readers see.
    pub open spec fn touches_finalized(self) -> bool {
        match self {
            ActionView::RemoveDirectory(directory) => directory.finalized(),
            ActionView::CreateDirectory(directory) => directory.finalized(),
            ActionView::Rename { from, to } => from.finalized() || to.finalized(),
            _ => false,
        }
    }
}

/// How the step that was due went.
#[derive(Debug, Clone, PartialEq, Eq)]
pub enum Outcome {
    /// The step was done.
    Done,
    /// The snapshot was stored, and this is what the encoder returned for it.
    Stored(SerializedResponse),
    /// The step failed.
    Failed,
}

impl Stage {
    /// Whether the step changes the directories that readers see.
    pub open spec fn publishing(self) -> bool {
        self == Stage::RemoveFinalizedSnapshots || self == Stage::RemoveFinalizedSymlinks || self
            == Stage::PromoteSnapshots || self == Stage::PromoteSymlinks
    }

    /// Whether the cycle has come to rest.
    pub open spec fn terminal(self) -> bool {
        self == Stage::Finished || self == Stage::Aborted
    }

    /// Whether a report of `outcome` says that this step was carried out.
    pub open spec fn accepts(self, outcome: Outcome) -> bool {
        match self {
            Stage::StoreSnapshot(_) => outcome is Stored,
            _ => outcome is Done,
        }
    }
}

/// A generation cycle as plain values: the model of `GenerationCycle`.
pub struct CycleView {
    pub reference_timestamp: u64,
    pub granularity: u64,
    pub epoch_anchor: u64,
    pub max_slots: Option<u64>,
    pub scopes: Seq<u64>,
    pub upload: bool,
    pub stage: Stage,
    pub records: Map<u64, SnapshotRecordView>,
}

impl CycleView {
    /// The number of slots of the generation.
    pub open spec fn slots(self) -> nat {
        slot_count(
            self.reference_timestamp as nat,
            self.granularity as nat,
            self.epoch_anchor as nat,
            self.max_slots,
        )
    }

    /// The file name of the snapshot for `scope`.
    pub open spec fn scope_file(self, scope: u64) -> Seq<char> {
        snapshot_file_name(
            self.reference_timestamp as nat,
            scope as nat,
            cutoff(self.reference_timestamp as nat, scope as nat),
        )
    }

    /// How many snapshots are stored once the cycle has come to `stage`.
    pub open spec fn stored(self) -> nat {
        match self.stage {
            Stage::RemovePendingSnapshots => 0,
            Stage::RemovePendingSymlinks => 0,
            Stage::CreatePendingSnapshots => 0,
            Stage::CreatePendingSymlinks => 0,
            Stage::StoreSnapshot(position) => position as nat,
            Stage::Aborted => 0,
            _ => self.scopes.len(),
        }
    }

    /// The cycle is consistent: the configuration is usable, the stage lies
    /// within it, and the records are those of the snapshots stored so far.
    pub open spec fn wf(self) -> bool {
        &&& self.granularity > 0
        &&& is_scope_list(self.scopes)
        &&& self.scopes.len() <= usize::MAX
        &&& match self.stage {
            Stage::StoreSnapshot(position) => position < self.scopes.len(),
            Stage::Upload => self.upload,
            Stage::LinkSlot(slot) => slot < self.slots(),
            _ => true,
        }
        &&& forall|scope: u64| #[trigger]
            self.records.contains_key(scope) ==> self.scopes.contains(scope)
                && self.records[scope].describes(self.reference_timestamp, scope)
        &&& forall|position: int|
            0 <= position < self.stored() ==> self.records.contains_key(
                #[trigger] self.scopes[position],
            )
    }

    /// The cycle as it starts.
    pub open spec fn initial(
        reference_timestamp: u64,
        granularity: u64,
        scopes: Seq<u64>,
        epoch_anchor: u64,
        max_slots: Option<u64>,
        upload: bool,
    ) -> CycleView {
        CycleView {
            reference_timestamp,
            granularity,
            epoch_anchor,
            max_slots,
            scopes,
            upload,
            stage: Stage::RemovePendingSnapshots,
            records: Map::empty(),
        }
    }

    /// The step that is due.
    pub open spec fn action(self) -> ActionView {
        match self.stage {
            Stage::RemovePendingSnapshots => ActionView::RemoveDirectory(
                Directory::PendingSnapshots,
            ),
            Stage::RemovePendingSymlinks => ActionView::RemoveDirectory(Directory::PendingSymlinks),
            Stage::CreatePendingSnapshots => ActionView::CreateDirectory(
                Directory::PendingSnapshots,
            ),
            Stage::CreatePendingSymlinks => ActionView::CreateDirectory(Directory::PendingSymlinks),
            Stage::StoreSnapshot(position) => {
                let scope = self.scopes[position as int];
                ActionView::StoreSnapshot {
                    scope,
                    cutoff: (cutoff(self.reference_timestamp as nat, scope as nat)
                        % 0x1_0000_0000) as u32,
                    filename: self.scope_file(scope),
                }
            },
            Stage::Upload => ActionView::Upload {
                filename: self.scope_file(UNBOUNDED),
                timestamp: 0,
            },
            Stage::StoreEmptyDelta => ActionView::StoreEmptyDelta {
                reference_timestamp: self.reference_timestamp,
                filename: EMPTY_DELTA_FILENAME@,
            },
            Stage::LinkEmptyDelta => ActionView::Link {
                name: pointer_name(self.reference_timestamp as nat),
                target: pointer_target(EMPTY_DELTA_FILENAME@),
            },
            Stage::LinkSlot(slot) => ActionView::Link {
                name: pointer_name(
                    slot_timestamp(
                        self.reference_timestamp as nat,
                        self.granularity as nat,
                        slot as nat,
                    ),
                ),
                target: pointer_target(
                    self.scope_file(slot_scope(self.scopes, self.granularity as nat, slot as nat)->0),
                ),
            },
            Stage::WriteUpdateTime => ActionView::WriteUpdateTime { filename: UPDATE_TIME_FILENAME@ },
            Stage::RemoveFinalizedSnapshots => ActionView::RemoveDirectory(
                Directory::FinalizedSnapshots,
            ),
            Stage::RemoveFinalizedSymlinks => ActionView::RemoveDirectory(
                Directory::FinalizedSymlinks,
            ),
            Stage::PromoteSnapshots => ActionView::Rename {
                from: Directory::PendingSnapshots,
                to: Directory::FinalizedSnapshots,
            },
            Stage::PromoteSymlinks => ActionView::Rename {
                from: Directory::PendingSymlinks,
                to: Directory::FinalizedSymlinks,
            },
            Stage::Finished => ActionView::Finished,
            Stage::Aborted => ActionView::Aborted,
        }
    }

    /// The stage that follows once the step that is due has been carried out.
    pub open spec fn successor(self) -> Stage {
        match self.stage {
            Stage::RemovePendingSnapshots => Stage::RemovePendingSymlinks,
            Stage::RemovePendingSymlinks => Stage::CreatePendingSnapshots,
            Stage::CreatePendingSnapshots => Stage::CreatePendingSymlinks,
            Stage::CreatePendingSymlinks => Stage::StoreSnapshot(0),
            Stage::StoreSnapshot(position) => if position + 1 < self.scopes.len() {
                Stage::StoreSnapshot((position + 1) as usize)
            } else if self.upload {
                Stage::Upload
            } else {
                Stage::StoreEmptyDelta
            },
            Stage::Upload => Stage::StoreEmptyDelta,
            Stage::StoreEmptyDelta => Stage::LinkEmptyDelta,
            Stage::LinkEmptyDelta => if self.slots() > 0 {
                Stage::LinkSlot(0)
            } else {
                Stage::WriteUpdateTime
            },
            Stage::LinkSlot(slot) => if slot + 1 < self.slots() {
                Stage::LinkSlot((slot + 1) as u64)
            } else {
                Stage::WriteUpdateTime
            },
            Stage::WriteUpdateTime => Stage::RemoveFinalizedSnapshots,
            Stage::RemoveFinalizedSnapshots => Stage::RemoveFinalizedSymlinks,
            Stage::RemoveFinalizedSymlinks => Stage::PromoteSnapshots,
            Stage::PromoteSnapshots => Stage::PromoteSymlinks,
            Stage::PromoteSymlinks => Stage::Finished,
            Stage::Finished => Stage::Finished,
            Stage::Aborted => Stage::Aborted,
        }
    }

    /// The records once the step that is due has been reported as `outcome`.
    pub open spec fn records_after(self, outcome: Outcome) -> Map<u64, SnapshotRecordView> {
        match (self.stage, outcome) {
            (Stage::StoreSnapshot(position), Outcome::Stored(response)) => self.records.insert(
                self.scopes[position as int],
                record_for(self.reference_timestamp, self.scopes[position as int], response),
            ),
            _ => self.records,
        }
    }

    /// The cycle after `outcome` has been reported of the step that was due.
    ///
    /// A cycle at rest stays as it is. The upload is left behind however it
    /// went. Any other step moves the cycle on where it was carried out, and
    /// gives it up where it was not.
    pub open spec fn next(self, outcome: Outcome) -> CycleView {
        if self.stage.terminal() {
            self
        } else if self.stage == Stage::Upload {
            CycleView { stage: Stage::StoreEmptyDelta, ..self }
        } else if self.stage.accepts(outcome) {
            CycleView { stage: self.successor(), records: self.records_after(outcome), ..self }
        } else {
            CycleView { stage: Stage::Aborted, ..self }
        }
    }

    /// The number of steps between here and the published generation.
    pub open spec fn remaining(self) -> nat {
        let uploads: nat = if self.upload {
            1
        } else {
            0
        };
        let after_links: nat = 5;
        let after_snapshots: nat = uploads + 2 + self.slots() + after_links;
        match self.stage {
            Stage::RemovePendingSnapshots => 4 + self.scopes.len() + after_snapshots,
            Stage::RemovePendingSymlinks => 3 + self.scopes.len() + after_snapshots,
            Stage::CreatePendingSnapshots => 2 + self.scopes.len() + after_snapshots,
            Stage::CreatePendingSymlinks => 1 + self.scopes.len() + after_snapshots,
            Stage::StoreSnapshot(position) => (self.scopes.len() - position) as nat
                + after_snapshots,
            Stage::Upload => 1 + 2 + self.slots() + after_links,
            Stage::StoreEmptyDelta => 2 + self.slots() + after_links,
            Stage::LinkEmptyDelta => 1 + self.slots() + after_links,
            Stage::LinkSlot(slot) => (self.slots() - slot) as nat + after_links,
            Stage::WriteUpdateTime => 5,
            Stage::RemoveFinalizedSnapshots => 4,
            Stage::RemoveFinalizedSymlinks => 3,
            Stage::PromoteSnapshots => 2,
            Stage::PromoteSymlinks => 1,
            Stage::Finished => 0,
            Stage::Aborted => 0,
        }
    }
}

/// Why a cycle cannot start.
#[derive(Debug, Clone, Copy, PartialEq, Eq, Structural)]
pub enum CycleError {
    /// The granularity is zero.
    ZeroGranularity,
    /// The scopes are not strictly ascending, or do not end in the sentinel.
    InvalidScopes,
}

/// One generation cycle in progress.
pub struct GenerationCycle {
    reference_timestamp: u64,
    granularity: u64,
    epoch_anchor: u64,
    max_slots: Option<u64>,
    scopes: Vec<u64>,
    upload: bool,
    stage: Stage,
    records: HashMap<u64, SnapshotRecord>,
    index: Vec<(u64, String)>,
}

impl View for GenerationCycle {
    type V = CycleView;

    closed spec fn view(&self) -> CycleView {
        CycleView {
            reference_timestamp: self.reference_timestamp,
            granularity: self.granularity,
            epoch_anchor: self.epoch_anchor,
            max_slots: self.max_slots,
            scopes: self.scopes@,
            upload: self.upload,
            stage: self.stage,
            records: self.records@.map_values(|record: SnapshotRecord| record@),
        }
    }
}

impl GenerationCycle {
    #[verifier::type_invariant]
    spec fn inv(self) -> bool {
        &&& self@.wf()
        &&& self.stage is LinkSlot ==> is_retention_index(
            self.index@,
            self.reference_timestamp as nat,
            self.granularity as nat,
            self.scopes@,
            self.records@,
            self@.slots(),
        )
    }

    /// Starts the cycle of the generation at `reference_timestamp`.
    ///
    /// `upload` says whether a collector and a credential for it are
    /// configured.
    pub fn new(
        reference_timestamp: u64,
        granularity: u64,
        scopes: Vec<u64>,
        epoch_anchor: u64,
        max_slots: Option<u64>,
        upload: bool,
    ) -> (result: Result<GenerationCycle, CycleError>)
        ensures
            match result {
                Ok(cycle) => {
                    &&& granularity > 0
                    &&& is_scope_list(scopes@)
                    &&& cycle@ == CycleView::initial(
                        reference_timestamp,
                        granularity,
                        scopes@,
                        epoch_anchor,
                        max_slots,
                        upload,
                    )
                    &&& cycle@.wf()
                },
                Err(CycleError::ZeroGranularity) => granularity == 0,
                Err(CycleError::InvalidScopes) => granularity > 0 && !is_scope_list(scopes@),
            },
    {
        if granularity == 0 {
            return Err(CycleError::ZeroGranularity);
        }
        if !check_scope_list(scopes.as_slice()) {
            return Err(CycleError::InvalidScopes);
        }
        let records: HashMap<u64, SnapshotRecord> = HashMap::new();
        assert(scopes.len() <= usize::MAX);
        let cycle = GenerationCycle {
            reference_timestamp,
            granularity,
            epoch_anchor,
            max_slots,
            scopes,
            upload,
            stage: Stage::RemovePendingSnapshots,
            records,
            index: Vec::new(),
        };
        assert(cycle@.records =~= Map::empty());
        Ok(cycle)
    }

    /// The stage the cycle is at.
    pub fn stage(&self) -> (stage: Stage)
        ensures
            stage == self@.stage,
            self@.wf(),
    {
        proof {
            use_type_invariant(self);
        }
        self.stage
    }

    /// Whether the generation is published.
    pub fn is_finished(&self) -> (finished: bool)
        ensures
            finished == (self@.stage == Stage::Finished),
    {
        match self.stage {
            Stage::Finished => true,
            _ => false,
        }
    }

    /// Whether the cycle was given up.
    pub fn is_aborted(&self) -> (aborted: bool)
        ensures
            aborted == (self@.stage == Stage::Aborted),
    {
        match self.stage {
            Stage::Aborted => true,
            _ => false,
        }
    }

    /// The record of the snapshot for `scope`, once it is stored.
    pub fn record(&self, scope: u64) -> (record: Option<&SnapshotRecord>)
        ensures
            self@.wf(),
            match record {
                Some(found) => self@.records.contains_key(scope) && found@ == self@.records[scope],
                None => !self@.records.contains_key(scope),
            },
    {
        proof {
            use_type_invariant(self);
        }
        self.records.get(&scope)
    }

    /// The step that is due.
    pub fn action(&self) -> (action: Action)
        ensures
            action@ == self@.action(),
            self@.wf(),
    {
        proof {
            use_type_invariant(self);
        }
        match self.stage {
            Stage::RemovePendingSnapshots => Action::RemoveDirectory(Directory::PendingSnapshots),
            Stage::RemovePendingSymlinks => Action::RemoveDirectory(Directory::PendingSymlinks),
            Stage::CreatePendingSnapshots => Action::CreateDirectory(Directory::PendingSnapshots),
            Stage::CreatePendingSymlinks => Action::CreateDirectory(Directory::PendingSymlinks),
            Stage::StoreSnapshot(position) => {
                let scope: u64 = self.scopes[position];
                let cutoff_timestamp: u64 = cutoff_timestamp(self.reference_timestamp, scope);
                Action::StoreSnapshot {
                    scope,
                    cutoff: encoder_cutoff(cutoff_timestamp),
                    filename: snapshot_filename(self.reference_timestamp, scope, cutoff_timestamp),
                }
            },
            Stage::Upload => {
                let cutoff_timestamp: u64 = cutoff_timestamp(self.reference_timestamp, UNBOUNDED);
                Action::Upload {
                    filename: snapshot_filename(
                        self.reference_timestamp,
                        UNBOUNDED,
                        cutoff_timestamp,
                    ),
                    timestamp: cutoff_timestamp,
                }
            },
            Stage::StoreEmptyDelta => Action::StoreEmptyDelta {
                reference_timestamp: self.reference_timestamp,
                filename: String::from_str(EMPTY_DELTA_FILENAME),
            },
            Stage::LinkEmptyDelta => Action::Link {
                name: symlink_name(self.reference_timestamp),
                target: relative_snapshot_path(EMPTY_DELTA_FILENAME),
            },
            Stage::LinkSlot(slot) => {
                assert(slot < self.index.len() <= usize::MAX);
                let entry = &self.index[slot as usize];
                proof {
                    lemma_every_slot_has_target(
                        self.scopes@,
                        self.records@,
                        self.granularity as nat,
                        slot as nat,
                    );
                    let scope = slot_scope(self.scopes@, self.granularity as nat, slot as nat)->0;
                    assert(self@.records.contains_key(scope));
                }
                Action::Link {
                    name: symlink_name(entry.0),
                    target: relative_snapshot_path(entry.1.as_str()),
                }
            },
            Stage::WriteUpdateTime => Action::WriteUpdateTime {
                filename: String::from_str(UPDATE_TIME_FILENAME),
            },
            Stage::RemoveFinalizedSnapshots => Action::RemoveDirectory(
                Directory::FinalizedSnapshots,
            ),
            Stage::RemoveFinalizedSymlinks => Action::RemoveDirectory(Directory::FinalizedSymlinks),
            Stage::PromoteSnapshots => Action::Rename {
                from: Directory::PendingSnapshots,
                to: Directory::FinalizedSnapshots,
            },
            Stage::PromoteSymlinks => Action::Rename {
                from: Directory::PendingSymlinks,
                to: Directory::FinalizedSymlinks,
            },
            Stage::Finished => Action::Finished,
            Stage::Aborted => Action::Aborted,
        }
    }
}

impl GenerationCycle {
    /// Takes the report of how the step that was due went, and moves on.
    pub fn advance(self, outcome: Outcome) -> (next: GenerationCycle)
        ensures
            next@ == self@.next(outcome),
            next@.wf(),
    {
        proof {
            use_type_invariant(&self);
        }
        let ghost before = self@;
        let ghost old_records = self.records@;
        let GenerationCycle {
            reference_timestamp,
            granularity,
            epoch_anchor,
            max_slots,
            scopes,
            upload,
            stage,
            mut records,
            mut index,
        } = self;
        let symlink_count: u64 = count_slots(
            reference_timestamp,
            granularity,
            epoch_anchor,
            max_slots,
        );
        let done: bool = match outcome {
            Outcome::Done => true,
            _ => false,
        };
        let next_stage: Stage = match stage {
            Stage::Finished => Stage::Finished,
            Stage::Aborted => Stage::Aborted,
            Stage::Upload => Stage::StoreEmptyDelta,
            Stage::StoreSnapshot(position) => match outcome {
                Outcome::Stored(response) => {
                    let scope: u64 = scopes[position];
                    let record = SnapshotRecord::new(reference_timestamp, scope, &response);
                    records.insert(scope, record);
                    assert(records@.map_values(|r: SnapshotRecord| r@) =~= before.records_after(
                        outcome,
                    ));
                    let count: usize = scopes.len();
                    if position + 1 < count {
                        Stage::StoreSnapshot(position + 1)
                    } else if upload {
                        Stage::Upload
                    } else {
                        Stage::StoreEmptyDelta
                    }
                },
                _ => Stage::Aborted,
            },
            Stage::LinkEmptyDelta => if !done {
                Stage::Aborted
            } else if symlink_count > 0 {
                match build(
                    reference_timestamp,
                    granularity,
                    scopes.as_slice(),
                    &records,
                    epoch_anchor,
                    max_slots,
                ) {
                    Ok(built) => {
                        index = built;
                        Stage::LinkSlot(0)
                    },
                    Err(error) => {
                        proof {
                            match error {
                                RetentionError::ZeroGranularity => {},
                                RetentionError::NoCoveringScope { slot } => {
                                    lemma_records_complete(before, old_records, slot as nat);
                                },
                                RetentionError::MissingRecord { slot, scope } => {
                                    lemma_records_complete(before, old_records, slot as nat);
                                },
                            }
                        }
                        Stage::Aborted
                    },
                }
            } else {
                Stage::WriteUpdateTime
            },
            Stage::LinkSlot(slot) => if !done {
                Stage::Aborted
            } else if slot + 1 < symlink_count {
                Stage::LinkSlot(slot + 1)
            } else {
                Stage::WriteUpdateTime
            },
            _ => if !done {
                Stage::Aborted
            } else {
                match stage {
                    Stage::RemovePendingSnapshots => Stage::RemovePendingSymlinks,
                    Stage::RemovePendingSymlinks => Stage::CreatePendingSnapshots,
                    Stage::CreatePendingSnapshots => Stage::CreatePendingSymlinks,
                    Stage::CreatePendingSymlinks => Stage::StoreSnapshot(0),
                    Stage::StoreEmptyDelta => Stage::LinkEmptyDelta,
                    Stage::WriteUpdateTime => Stage::RemoveFinalizedSnapshots,
                    Stage::RemoveFinalizedSnapshots => Stage::RemoveFinalizedSymlinks,
                    Stage::RemoveFinalizedSymlinks => Stage::PromoteSnapshots,
                    Stage::PromoteSnapshots => Stage::PromoteSymlinks,
                    _ => Stage::Finished,
                }
            },
        };
        proof {
            assert(records@.map_values(|r: SnapshotRecord| r@) =~= before.next(outcome).records);
            lemma_next_preserves_wf(before, outcome);
        }
        GenerationCycle {
            reference_timestamp,
            granularity,
            epoch_anchor,
            max_slots,
            scopes,
            upload,
            stage: next_stage,
            records,
            index,
        }
    }
}

/// Once every snapshot is stored, every scope of the list has its record, and
/// so every slot has a scope with a record: building the index cannot fail.
proof fn lemma_records_complete(cycle: CycleView, records: Map<u64, SnapshotRecord>, slot: nat)
    requires
        cycle.wf(),
        cycle.stage == Stage::LinkEmptyDelta,
        cycle.records == records.map_values(|r: SnapshotRecord| r@),
    ensures
        slot_scope(cycle.scopes, cycle.granularity as nat, slot) is Some,
        records.contains_key(slot_scope(cycle.scopes, cycle.granularity as nat, slot)->0),
{
    assert forall|k: int| 0 <= k < cycle.scopes.len() implies records.contains_key(
        #[trigger] cycle.scopes[k],
    ) by {
        assert(cycle.records.contains_key(cycle.scopes[k]));
    }
    lemma_every_slot_has_target(cycle.scopes, records, cycle.granularity as nat, slot);
    let scope = slot_scope(cycle.scopes, cycle.granularity as nat, slot)->0;
    let k = choose|k: int| 0 <= k < cycle.scopes.len() && cycle.scopes[k] == scope;
    assert(records.contains_key(cycle.scopes[k]));
}

/// A consistent cycle stays consistent, whatever is reported.
pub proof fn lemma_next_preserves_wf(cycle: CycleView, outcome: Outcome)
    requires
        cycle.wf(),
    ensures
        cycle.next(outcome).wf(),
{
    let next = cycle.next(outcome);
    if !cycle.stage.terminal() && cycle.stage != Stage::Upload && cycle.stage.accepts(outcome) {
        match (cycle.stage, outcome) {
            (Stage::StoreSnapshot(position), Outcome::Stored(response)) => {
                let scope = cycle.scopes[position as int];
                assert(cycle.scopes.contains(scope));
                assert forall|p: int| 0 <= p < next.stored() implies next.records.contains_key(
                    #[trigger] next.scopes[p],
                ) by {
                    if p < position {
                        assert(cycle.records.contains_key(cycle.scopes[p]));
                    }
                }
            },
            _ => {
                assert forall|p: int| 0 <= p < next.stored() implies next.records.contains_key(
                    #[trigger] next.scopes[p],
                ) by {
                    assert(cycle.records.contains_key(cycle.scopes[p]));
                }
            },
        }
        if cycle.stage is StoreSnapshot && next.stage == Stage::Upload {
            assert(cycle.upload);
        }
    } else if cycle.stage == Stage::Upload {
        assert forall|p: int| 0 <= p < next.stored() implies next.records.contains_key(
            #[trigger] next.scopes[p],
        ) by {
            assert(cycle.records.contains_key(cycle.scopes[p]));
        }
    }
}

} // verus!
