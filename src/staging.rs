//! Deciding, from the repository's status scan, which paths to stage and
//! which to remove from the index.

use crate::error::CommitError;
use vstd::prelude::*;

verus! {

/// The change flags of one path, against the index and the working tree.
/// No flag set means the path is unchanged.
#[derive(Clone, Copy, Debug, PartialEq, Eq, Structural)]
pub struct StatusFlags {
    pub index_new: bool,
    pub index_modified: bool,
    pub index_deleted: bool,
    pub index_renamed: bool,
    pub index_typechange: bool,
    pub wt_new: bool,
    pub wt_modified: bool,
    pub wt_deleted: bool,
    pub wt_typechange: bool,
    pub wt_renamed: bool,
    pub wt_unreadable: bool,
    pub ignored: bool,
    pub conflicted: bool,
}

/// What to do with one path before committing.
#[derive(Clone, Copy, Debug, PartialEq, Eq, Structural)]
pub enum StagingAction {
    /// Add the path's working-tree content to the index.
    Add,
    /// Remove the path from the index.
    Remove,
    /// Leave the path alone.
    Skip,
}

/// One path from the status scan.
#[derive(Debug, PartialEq, Eq)]
pub struct StatusEntry {
    pub path: String,
    pub status: StatusFlags,
}

/// One index operation to perform.
#[derive(Debug, PartialEq, Eq)]
pub struct StagingStep {
    pub path: String,
    pub action: StagingAction,
}

/// Flags that no staging handles: ignored, conflicted, unreadable, renamed,
/// type-changed, or already deleted from the index.
pub open spec fn unhandled(s: StatusFlags) -> bool {
    s.index_deleted || s.index_renamed || s.index_typechange || s.wt_typechange || s.wt_renamed
        || s.wt_unreadable || s.ignored || s.conflicted
}

/// Whether the path was added or modified, in the index or the working tree.
pub open spec fn added_or_modified(s: StatusFlags) -> bool {
    s.index_new || s.index_modified || s.wt_new || s.wt_modified
}

/// The action for a path: a path deleted from the working tree leaves the
/// index, an added or modified one is staged, anything else is skipped.
pub open spec fn action_of(s: StatusFlags) -> StagingAction {
    if unhandled(s) {
        StagingAction::Skip
    } else if s.wt_deleted {
        StagingAction::Remove
    } else if added_or_modified(s) {
        StagingAction::Add
    } else {
        StagingAction::Skip
    }
}

/// The operations for one entry: none when it is skipped.
pub open spec fn entry_plan(e: StatusEntry) -> Seq<(Seq<char>, StagingAction)> {
    if action_of(e.status) == StagingAction::Skip {
        Seq::empty()
    } else {
        seq![(e.path@, action_of(e.status))]
    }
}

/// The operations for a scan, in the scan's order.
pub open spec fn staging_plan(entries: Seq<StatusEntry>) -> Seq<(Seq<char>, StagingAction)>
    decreases entries.len(),
{
    if entries.len() == 0 {
        Seq::empty()
    } else {
        staging_plan(entries.drop_last()) + entry_plan(entries.last())
    }
}

/// The view of a list of steps.
pub open spec fn steps_view(steps: Seq<StagingStep>) -> Seq<(Seq<char>, StagingAction)> {
    steps.map_values(|s: StagingStep| (s.path@, s.action))
}

/// The action for a path with the given flags.
pub fn action_for(status: &StatusFlags) -> (r: StagingAction)
    ensures
        r == action_of(*status),
{
    if status.index_deleted || status.index_renamed || status.index_typechange
        || status.wt_typechange || status.wt_renamed || status.wt_unreadable || status.ignored
        || status.conflicted {
        StagingAction::Skip
    } else if status.wt_deleted {
        StagingAction::Remove
    } else if status.index_new || status.index_modified || status.wt_new || status.wt_modified {
        StagingAction::Add
    } else {
        StagingAction::Skip
    }
}

/// The index operations for a status scan, in order; `NothingToCommit`
/// when no entry needs one.
pub fn plan_staging(entries: &Vec<StatusEntry>) -> (r: Result<Vec<StagingStep>, CommitError>)
    ensures
        r is Ok <==> staging_plan(entries@).len() > 0,
        r matches Ok(steps) ==> steps_view(steps@) == staging_plan(entries@),
        r is Err ==> r == Err::<Vec<StagingStep>, CommitError>(CommitError::NothingToCommit),
{
    let mut steps: Vec<StagingStep> = Vec::new();
    let mut i: usize = 0;
    while i < entries.len()
        invariant
            i <= entries.len(),
            steps_view(steps@) == staging_plan(entries@.subrange(0, i as int)),
        decreases entries.len() - i,
    {
        let entry = &entries[i];
        let action = action_for(&entry.status);
        let ghost prev = steps@;
        proof {
            assert(entries@.subrange(0, i + 1).drop_last() =~= entries@.subrange(0, i as int));
        }
        match action {
            StagingAction::Skip => {
                assert(steps_view(steps@) =~= steps_view(prev) + entry_plan(*entry));
            },
            _ => {
                steps.push(StagingStep { path: entry.path.clone(), action });
                assert(steps_view(steps@) =~= steps_view(prev) + entry_plan(*entry));
            },
        }
        i += 1;
    }
    assert(entries@.subrange(0, entries.len() as int) =~= entries@);
    if steps.len() == 0 {
        Err(CommitError::NothingToCommit)
    } else {
        Ok(steps)
    }
}

} // verus!
