//! What a generation records about each snapshot it produces.

use crate::naming::{snapshot_file_name, snapshot_filename};
use vstd::prelude::*;

verus! {

/// What the delta encoder hands back: the blob and what it counted.
#[derive(Debug, Clone, PartialEq, Eq)]
pub struct SerializedResponse {
    /// The serialized delta.
    pub data: Vec<u8>,
    /// Messages in the delta.
    pub message_count: u32,
    /// Channel announcements among them.
    pub announcement_count: u32,
    /// Channel updates among them.
    pub update_count: u32,
    /// Updates serialized in full.
    pub update_count_full: u32,
    /// Updates serialized as differences.
    pub update_count_incremental: u32,
}

/// One snapshot of a generation.
#[derive(Debug, Clone, PartialEq, Eq)]
pub struct SnapshotRecord {
    /// How far back the snapshot reaches.
    pub scope: u64,
    /// The instant the generation was computed for.
    pub reference_timestamp: u64,
    /// The instant the delta starts at.
    pub cutoff_timestamp: u64,
    /// The snapshot's file name in the snapshot directory.
    pub filename: String,
    /// Messages in the delta.
    pub message_count: u32,
    /// Channel announcements among them.
    pub announcement_count: u32,
    /// Channel updates among them.
    pub update_count: u32,
    /// Updates serialized in full.
    pub update_count_full: u32,
    /// Updates serialized as differences.
    pub update_count_incremental: u32,
}

/// A snapshot record as plain values: the model of `SnapshotRecord`.
pub struct SnapshotRecordView {
    pub scope: u64,
    pub reference_timestamp: u64,
    pub cutoff_timestamp: u64,
    pub filename: Seq<char>,
    pub message_count: u32,
    pub announcement_count: u32,
    pub update_count: u32,
    pub update_count_full: u32,
    pub update_count_incremental: u32,
}

impl View for SnapshotRecord {
    type V = SnapshotRecordView;

    open spec fn view(&self) -> SnapshotRecordView {
        SnapshotRecordView {
            scope: self.scope,
            reference_timestamp: self.reference_timestamp,
            cutoff_timestamp: self.cutoff_timestamp,
            filename: self.filename@,
            message_count: self.message_count,
            announcement_count: self.announcement_count,
            update_count: self.update_count,
            update_count_full: self.update_count_full,
            update_count_incremental: self.update_count_incremental,
        }
    }
}

/// The instant `scope` seconds before `reference_timestamp`, or the beginning
/// of time where the scope reaches further back than that.
pub open spec fn cutoff(reference_timestamp: nat, scope: nat) -> nat {
    if scope >= reference_timestamp {
        0
    } else {
        (reference_timestamp - scope) as nat
    }
}

/// The record of the snapshot for `scope` in the generation at
/// `reference_timestamp`, for which the encoder returned `response`.
pub open spec fn record_for(
    reference_timestamp: u64,
    scope: u64,
    response: SerializedResponse,
) -> SnapshotRecordView {
    SnapshotRecordView {
        scope,
        reference_timestamp,
        cutoff_timestamp: cutoff(reference_timestamp as nat, scope as nat) as u64,
        filename: snapshot_file_name(
            reference_timestamp as nat,
            scope as nat,
            cutoff(reference_timestamp as nat, scope as nat),
        ),
        message_count: response.message_count,
        announcement_count: response.announcement_count,
        update_count: response.update_count,
        update_count_full: response.update_count_full,
        update_count_incremental: response.update_count_incremental,
    }
}

impl SnapshotRecordView {
    /// Whether the record is the one that a generation at
    /// `reference_timestamp` keeps for `scope`, whatever it counted.
    pub open spec fn describes(self, reference_timestamp: u64, scope: u64) -> bool {
        &&& self.scope == scope
        &&& self.reference_timestamp == reference_timestamp
        &&& self.cutoff_timestamp == cutoff(reference_timestamp as nat, scope as nat)
        &&& self.filename == snapshot_file_name(
            reference_timestamp as nat,
            scope as nat,
            cutoff(reference_timestamp as nat, scope as nat),
        )
    }
}

impl SnapshotRecord {
    /// The record of the snapshot for `scope` in the generation at
    /// `reference_timestamp`, given what the encoder returned for it.
    pub fn new(reference_timestamp: u64, scope: u64, response: &SerializedResponse) -> (record:
        SnapshotRecord)
        ensures
            record@ == record_for(reference_timestamp, scope, *response),
    {
        let cutoff_timestamp = cutoff_timestamp(reference_timestamp, scope);
        SnapshotRecord {
            scope,
            reference_timestamp,
            cutoff_timestamp,
            filename: snapshot_filename(reference_timestamp, scope, cutoff_timestamp),
            message_count: response.message_count,
            announcement_count: response.announcement_count,
            update_count: response.update_count,
            update_count_full: response.update_count_full,
            update_count_incremental: response.update_count_incremental,
        }
    }
}

/// The instant at which the delta for `scope` starts.
pub fn cutoff_timestamp(reference_timestamp: u64, scope: u64) -> (timestamp: u64)
    ensures
        timestamp == cutoff(reference_timestamp as nat, scope as nat),
{
    reference_timestamp.saturating_sub(scope)
}

/// The cutoff as the encoder takes it: its low 32 bits.
pub fn encoder_cutoff(cutoff_timestamp: u64) -> (timestamp: u32)
    ensures
        timestamp == cutoff_timestamp % 0x1_0000_0000,
{
    (cutoff_timestamp % 0x1_0000_0000) as u32
}

} // verus!
