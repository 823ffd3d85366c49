//! Checking the directory that a session is asked to scan.
use vstd::prelude::*;

verus! {

/// Why a scan target cannot be used.
#[derive(Clone, Copy, Debug, PartialEq, Eq, Structural)]
pub enum TargetError {
    /// The directory does not exist.
    Missing,
    /// The path is not a directory.
    NotADirectory,
    /// A `.gitignore` scan was asked for, and the directory has no `.gitignore`.
    NoGitignore,
}

/// Whether a target directory can be scanned, from what the filesystem says of it.
pub fn validate_target(exists: bool, is_dir: bool, use_gitignore: bool, gitignore_exists: bool) -> (r: Result<(), TargetError>)
    ensures
        !exists ==> r == Err::<(), TargetError>(TargetError::Missing),
        exists && !is_dir ==> r == Err::<(), TargetError>(TargetError::NotADirectory),
        exists && is_dir && use_gitignore && !gitignore_exists ==> r == Err::<(), TargetError>(TargetError::NoGitignore),
        r is Ok <==> exists && is_dir && (!use_gitignore || gitignore_exists),
{
    if !exists {
        Err(TargetError::Missing)
    } else if !is_dir {
        Err(TargetError::NotADirectory)
    } else if use_gitignore && !gitignore_exists {
        Err(TargetError::NoGitignore)
    } else {
        Ok(())
    }
}

} // verus!
