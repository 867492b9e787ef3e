//! What can stop a commit run. Every kind is fatal.

use vstd::prelude::*;

verus! {

/// Why a run stopped without creating a commit.
#[derive(Clone, Copy, Debug, PartialEq, Eq, Structural)]
pub enum CommitError {
    /// No message words were given.
    UsageError,
    /// No repository encloses the current directory.
    RepositoryNotFound,
    /// The repository's index could not be loaded.
    IndexUnavailable,
    /// HEAD names no branch or no commit.
    HeadUnresolved,
    /// No author identity is configured.
    SignatureUnavailable,
    /// Staging or unstaging a path failed.
    PathOperationFailed,
    /// The scan found nothing to stage.
    NothingToCommit,
    /// The index, the tree or the commit could not be written.
    WriteFailed,
}

/// Checks that at least one message word was given.
pub fn validate_args(args: &Vec<String>) -> (r: Result<(), CommitError>)
    ensures
        r is Ok <==> args@.len() > 0,
        r is Err ==> r == Err::<(), CommitError>(CommitError::UsageError),
{
    if args.len() == 0 {
        Err(CommitError::UsageError)
    } else {
        Ok(())
    }
}

} // verus!
