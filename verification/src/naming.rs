//! Names of the files, pointers and directories of the cache.

use crate::decimal::{
    all_digits, decimal, is_digit, lemma_decimal, lemma_decimal_injective, push_decimal,
};
use vstd::prelude::*;
use vstd::string::StringExecFns;

verus! {

/// Name of the placeholder blob that holds no update at all.
pub const EMPTY_DELTA_FILENAME: &'static str = "empty_delta.lngossip";

/// Name of the freshness marker in the pointer directory.
pub const UPDATE_TIME_FILENAME: &'static str = "update_time.txt";

/// Where the pointer directory finds the snapshot directory.
pub const RELATIVE_SNAPSHOT_DIRECTORY: &'static str = "../snapshots";

/// The four directories of a cache root.
#[derive(Debug, Clone, Copy, PartialEq, Eq, Structural)]
pub enum Directory {
    /// Snapshots of the generation under construction.
    PendingSnapshots,
    /// Pointers of the generation under construction.
    PendingSymlinks,
    /// Snapshots that readers see.
    FinalizedSnapshots,
    /// Pointers that readers see.
    FinalizedSymlinks,
}

impl Directory {
    /// The directory's name below the cache root.
    pub open spec fn name(self) -> Seq<char> {
        match self {
            Directory::PendingSnapshots => "snapshots_pending"@,
            Directory::PendingSymlinks => "symlinks_pending"@,
            Directory::FinalizedSnapshots => "snapshots"@,
            Directory::FinalizedSymlinks => "symlinks"@,
        }
    }

    /// Whether readers see this directory.
    pub open spec fn finalized(self) -> bool {
        self == Directory::FinalizedSnapshots || self == Directory::FinalizedSymlinks
    }

    /// Whether readers see this directory.
    pub fn is_finalized(&self) -> (b: bool)
        ensures
            b == self.finalized(),
    {
        match self {
            Directory::PendingSnapshots => false,
            Directory::PendingSymlinks => false,
            Directory::FinalizedSnapshots => true,
            Directory::FinalizedSymlinks => true,
        }
    }

    /// The directory's path below `cache_path`.
    pub fn path(&self, cache_path: &str) -> (path: String)
        ensures
            path@ == directory_path(cache_path@, *self),
    {
        let name = match self {
            Directory::PendingSnapshots => "snapshots_pending",
            Directory::PendingSymlinks => "symlinks_pending",
            Directory::FinalizedSnapshots => "snapshots",
            Directory::FinalizedSymlinks => "symlinks",
        };
        join_path(cache_path, name)
    }
}

/// `directory`, a slash, `name`.
pub open spec fn joined(directory: Seq<char>, name: Seq<char>) -> Seq<char> {
    directory + "/"@ + name
}

/// The path of `directory` below the cache root `cache_path`.
pub open spec fn directory_path(cache_path: Seq<char>, directory: Directory) -> Seq<char> {
    joined(cache_path, directory.name())
}

/// The file name of the snapshot that a generation at `reference_timestamp`
/// keeps for `scope`, whose delta starts at `cutoff`.
pub open spec fn snapshot_file_name(reference_timestamp: nat, scope: nat, cutoff: nat) -> Seq<char> {
    decimal(reference_timestamp) + "__"@ + decimal(scope) + "__"@ + decimal(cutoff) + ".blob"@
}

/// The name of the pointer for clients that last synced at `slot_timestamp`.
pub open spec fn pointer_name(slot_timestamp: nat) -> Seq<char> {
    decimal(slot_timestamp) + ".bin"@
}

/// What a pointer to the snapshot `filename` holds: its path as seen from the
/// pointer directory.
pub open spec fn pointer_target(filename: Seq<char>) -> Seq<char> {
    joined(RELATIVE_SNAPSHOT_DIRECTORY@, filename)
}

/// Joins a directory and a name with a slash.
pub fn join_path(directory: &str, name: &str) -> (path: String)
    ensures
        path@ == joined(directory@, name@),
{
    let mut path = String::from_str(directory);
    path.append("/");
    path.append(name);
    path
}

/// The file name under which a snapshot is stored.
///
/// The scope is part of the name, so two scopes of one generation never share
/// a file even when both cutoffs have saturated at zero.
pub fn snapshot_filename(reference_timestamp: u64, scope: u64, cutoff_timestamp: u64) -> (name:
    String)
    ensures
        name@ == snapshot_file_name(
            reference_timestamp as nat,
            scope as nat,
            cutoff_timestamp as nat,
        ),
{
    let mut name = String::new();
    push_decimal(&mut name, reference_timestamp);
    name.append("__");
    push_decimal(&mut name, scope);
    name.append("__");
    push_decimal(&mut name, cutoff_timestamp);
    name.append(".blob");
    assert(name@ =~= snapshot_file_name(
        reference_timestamp as nat,
        scope as nat,
        cutoff_timestamp as nat,
    ));
    name
}

/// The name of the pointer for `slot_timestamp`.
pub fn symlink_name(slot_timestamp: u64) -> (name: String)
    ensures
        name@ == pointer_name(slot_timestamp as nat),
{
    let mut name = String::new();
    push_decimal(&mut name, slot_timestamp);
    name.append(".bin");
    assert(name@ =~= pointer_name(slot_timestamp as nat));
    name
}

/// The relative path that a pointer to the snapshot `filename` holds.
pub fn relative_snapshot_path(filename: &str) -> (target: String)
    ensures
        target@ == pointer_target(filename@),
{
    join_path(RELATIVE_SNAPSHOT_DIRECTORY, filename)
}

/// Where a run of digits ends is settled by what follows it: if two runs,
/// each followed by something that is no digit, spell the same text, then the
/// runs are equal and so is what follows.
pub proof fn lemma_digit_run_unique(a: Seq<char>, t: Seq<char>, b: Seq<char>, u: Seq<char>)
    requires
        all_digits(a),
        all_digits(b),
        t.len() > 0 && !is_digit(t[0]),
        u.len() > 0 && !is_digit(u[0]),
        a + t == b + u,
    ensures
        a == b,
        t == u,
{
    let text = a + t;
    if a.len() < b.len() {
        assert(text[a.len() as int] == t[0]);
        assert((b + u)[a.len() as int] == b[a.len() as int]);
    } else if b.len() < a.len() {
        assert((b + u)[b.len() as int] == u[0]);
        assert(text[b.len() as int] == a[b.len() as int]);
    }
    assert(a =~= b) by {
        assert forall|i: int| 0 <= i < a.len() implies a[i] == b[i] by {
            assert(text[i] == a[i]);
            assert((b + u)[i] == b[i]);
        }
    }
    assert(t =~= u) by {
        assert(t.len() == u.len()) by {
            assert(text.len() == a.len() + t.len());
            assert((b + u).len() == b.len() + u.len());
        }
        assert forall|i: int| 0 <= i < t.len() implies t[i] == u[i] by {
            assert(text[a.len() + i] == t[i]);
            assert((b + u)[b.len() + i] == u[i]);
        }
    }
}

/// A numeral that is followed by a separator which does not start with a
/// digit can be read back: equal texts have equal numbers and equal rests.
pub proof fn lemma_leading_numeral(
    first: nat,
    rest1: Seq<char>,
    second: nat,
    rest2: Seq<char>,
    separator: Seq<char>,
)
    requires
        separator.len() > 0 && !is_digit(separator[0]),
        decimal(first) + (separator + rest1) == decimal(second) + (separator + rest2),
    ensures
        first == second,
        rest1 == rest2,
{
    lemma_decimal(first);
    lemma_decimal(second);
    let tail1 = separator + rest1;
    let tail2 = separator + rest2;
    assert(tail1[0] == separator[0]);
    assert(tail2[0] == separator[0]);
    lemma_digit_run_unique(decimal(first), tail1, decimal(second), tail2);
    lemma_decimal_injective(first, second);
    assert(rest1 =~= tail1.skip(separator.len() as int));
    assert(rest2 =~= tail2.skip(separator.len() as int));
}

/// A snapshot's file name, read from the left: each numeral is followed by
/// its separator and the rest.
pub proof fn lemma_snapshot_file_name_parts(reference: nat, scope: nat, cutoff: nat)
    ensures
        snapshot_file_name(reference, scope, cutoff) == decimal(reference) + ("__"@ + (decimal(
            scope,
        ) + ("__"@ + (decimal(cutoff) + (".blob"@ + Seq::<char>::empty()))))),
{
    let last = decimal(cutoff) + (".blob"@ + Seq::<char>::empty());
    assert(last =~= decimal(cutoff) + ".blob"@);
    let middle = decimal(scope) + ("__"@ + last);
    assert(middle =~= decimal(scope) + "__"@ + decimal(cutoff) + ".blob"@);
    assert(snapshot_file_name(reference, scope, cutoff) =~= decimal(reference) + ("__"@ + middle));
}

/// A snapshot's file name tells its reference timestamp, its scope and its
/// cutoff: different triples give different names.
pub proof fn lemma_snapshot_file_name_injective(
    reference1: nat,
    scope1: nat,
    cutoff1: nat,
    reference2: nat,
    scope2: nat,
    cutoff2: nat,
)
    requires
        snapshot_file_name(reference1, scope1, cutoff1) == snapshot_file_name(
            reference2,
            scope2,
            cutoff2,
        ),
    ensures
        reference1 == reference2,
        scope1 == scope2,
        cutoff1 == cutoff2,
{
    reveal_strlit("__");
    reveal_strlit(".blob");
    let sep = "__"@;
    let ext = ".blob"@;
    let nothing = Seq::<char>::empty();
    assert(sep[0] == '_');
    assert(ext[0] == '.');
    lemma_snapshot_file_name_parts(reference1, scope1, cutoff1);
    lemma_snapshot_file_name_parts(reference2, scope2, cutoff2);
    let last1 = decimal(cutoff1) + (ext + nothing);
    let last2 = decimal(cutoff2) + (ext + nothing);
    let middle1 = decimal(scope1) + (sep + last1);
    let middle2 = decimal(scope2) + (sep + last2);
    lemma_leading_numeral(reference1, middle1, reference2, middle2, sep);
    lemma_leading_numeral(scope1, last1, scope2, last2, sep);
    lemma_leading_numeral(cutoff1, nothing, cutoff2, nothing, ext);
}

/// Different slot timestamps give different pointer names.
pub proof fn lemma_pointer_name_injective(first: nat, second: nat)
    requires
        pointer_name(first) == pointer_name(second),
    ensures
        first == second,
{
    reveal_strlit(".bin");
    lemma_decimal(first);
    lemma_decimal(second);
    assert(".bin"@[0] == '.');
    lemma_digit_run_unique(decimal(first), ".bin"@, decimal(second), ".bin"@);
    lemma_decimal_injective(first, second);
}

/// No snapshot shares the name of the empty-delta placeholder, nor that of
/// the freshness marker.
pub proof fn lemma_snapshot_file_name_is_numeric(reference: nat, scope: nat, cutoff: nat)
    ensures
        snapshot_file_name(reference, scope, cutoff).len() > 0,
        is_digit(snapshot_file_name(reference, scope, cutoff)[0]),
        snapshot_file_name(reference, scope, cutoff) != EMPTY_DELTA_FILENAME@,
        pointer_name(reference).len() > 0,
        is_digit(pointer_name(reference)[0]),
        pointer_name(reference) != UPDATE_TIME_FILENAME@,
{
    reveal_strlit("empty_delta.lngossip");
    reveal_strlit("update_time.txt");
    lemma_decimal(reference);
    assert(snapshot_file_name(reference, scope, cutoff)[0] == decimal(reference)[0]);
    assert(pointer_name(reference)[0] == decimal(reference)[0]);
    assert(EMPTY_DELTA_FILENAME@[0] == 'e');
    assert(UPDATE_TIME_FILENAME@[0] == 'u');
}

} // verus!
