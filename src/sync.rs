//! Decisions of the supervisor and of the daemon loops: which remote folder
//! is the root, and how a cycle that ended in an error goes on.
use vstd::prelude::*;
use crate::errors::DriveError;
use crate::types::{File, FileList, FileView, is_folder_view};

verus! {

/// Why the remote root folder could not be settled.
#[derive(Clone, Copy, Debug, PartialEq, Eq, Structural)]
pub enum RootError {
    /// No object of the configured name, or one without an id.
    NotFound,
    /// More than one object of the configured name.
    Ambiguous,
    /// The object of the configured name is not a folder.
    NotAFolder,
}

pub open spec fn root_choice(fs: Seq<FileView>) -> Result<Seq<char>, RootError> {
    if fs.len() == 0 {
        Err(RootError::NotFound)
    } else if fs.len() > 1 {
        Err(RootError::Ambiguous)
    } else if !is_folder_view(fs[0]) {
        Err(RootError::NotAFolder)
    } else {
        match fs[0].id {
            Some(id) => Ok(id),
            None => Err(RootError::NotFound),
        }
    }
}

pub open spec fn root_choice_of(r: Result<String, RootError>) -> Result<Seq<char>, RootError> {
    match r {
        Ok(s) => Ok(s@),
        Err(e) => Err(e),
    }
}

/// The id of the remote root, from the listing of objects with the
/// configured name: exactly one, and a folder.
pub fn pick_remote_root(list: &FileList) -> (r: Result<String, RootError>)
    ensures
        root_choice_of(r) == root_choice(list.files@.map_values(|f: File| f@)),
{
    let n = list.files.len();
    if n == 0 {
        return Err(RootError::NotFound);
    }
    if n > 1 {
        return Err(RootError::Ambiguous);
    }
    let f = &list.files[0];
    if !f.is_folder() {
        return Err(RootError::NotAFolder);
    }
    match &f.id {
        Some(id) => Ok(id.clone()),
        None => Err(RootError::NotFound),
    }
}

/// How a daemon goes on after a cycle.
#[derive(Clone, Copy, Debug, PartialEq, Eq, Structural)]
pub enum CycleStep {
    /// The cycle completed: save the log and wait for the next one.
    Save,
    /// The session expired: refresh the token, drop the cycle, try again.
    Refresh,
    /// The cycle failed otherwise: drop it and try again next time.
    Skip,
    /// The engine cannot go on.
    Fatal,
}

/// The step after a cycle that ended with `r`.
pub fn after_cycle(r: &Result<(), DriveError>) -> (s: CycleStep)
    ensures
        s == match r {
            Ok(_) => CycleStep::Save,
            Err(DriveError::Unauthorized) => CycleStep::Refresh,
            Err(_) => CycleStep::Skip,
        },
{
    match r {
        Ok(_) => CycleStep::Save,
        Err(DriveError::Unauthorized) => CycleStep::Refresh,
        Err(_) => CycleStep::Skip,
    }
}

/// The step after a token refresh: a failed refresh is fatal, since only a
/// new authorization can help.
pub fn after_refresh(refreshed: bool) -> (s: CycleStep)
    ensures
        s == if refreshed { CycleStep::Skip } else { CycleStep::Fatal },
{
    if refreshed {
        CycleStep::Skip
    } else {
        CycleStep::Fatal
    }
}

} // verus!
