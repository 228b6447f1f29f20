//! Settling the upload directory when the service starts.

use vstd::prelude::*;
use vstd::string::*;

verus! {

/// What is found at the configured path of the upload directory.
#[derive(Clone, Copy, Debug, PartialEq, Eq, Structural)]
pub enum DirState {
    /// Nothing is there.
    Missing,
    /// A directory is there.
    Directory,
    /// Something else is there.
    Other,
}

/// What to do about the upload directory.
#[derive(Debug)]
pub enum DirAction {
    /// Use the directory as it is.
    Use,
    /// Create the directory, and its parents, then use it.
    Create,
    /// Refuse the path, with this message.
    Refuse(String),
}

/// The message for a path that holds something other than a directory.
pub open spec fn refusal(dir: Seq<char>) -> Seq<char> {
    "'"@ + dir + "' is not a directory"@
}

/// Decides what to do about the upload directory `dir`, given what is
/// found there.
pub fn check_upload_dir(dir: &str, state: DirState) -> (r: DirAction)
    ensures
        match state {
            DirState::Missing => r is Create,
            DirState::Directory => r is Use,
            DirState::Other => r matches DirAction::Refuse(m) && m@ == refusal(dir@),
        },
{
    match state {
        DirState::Missing => DirAction::Create,
        DirState::Directory => DirAction::Use,
        DirState::Other => {
            let mut m = String::from_str("'");
            m.append(dir);
            m.append("' is not a directory");
            DirAction::Refuse(m)
        },
    }
}

} // verus!
