//! Ceasing to track a path.

use vstd::prelude::*;
use crate::error::Error;
use crate::handlers::{outcome_rows, rows_in};
use crate::paths::{absolute, is_absolute};
use crate::structs::{holds, index_of, BackupFile, EntryView};

verus! {

/// The registry after `path` was removed from `document`, or why it was not.
pub open spec fn untracking(document: Option<Seq<(Seq<char>, EntryView)>>, path: Seq<char>) -> Result<
    Seq<(Seq<char>, EntryView)>,
    Error,
> {
    if !absolute(path) {
        Err(Error::NotAbsolute)
    } else {
        match document {
            None => Err(Error::RegistryMissing),
            Some(rows) => if holds(rows, path) {
                Ok(rows.remove(index_of(rows, path)))
            } else {
                Err(Error::NotTracked)
            },
        }
    }
}

/// Removes `path` from the registry. A relative path is refused; so is any
/// path while there is no document, and a path that is not tracked.
pub fn start(document: Option<BackupFile>, path: &str) -> (outcome: Result<BackupFile, Error>)
    requires
        document matches Some(registry) ==> registry.wf(),
    ensures
        outcome matches Ok(registry) ==> registry.wf(),
        outcome_rows(outcome) == untracking(rows_in(document), path@),
{
    if !is_absolute(path) {
        return Err(Error::NotAbsolute);
    }
    let mut registry = match document {
        Some(registry) => registry,
        None => {
            return Err(Error::RegistryMissing);
        },
    };
    match registry.remove(path) {
        Ok(()) => Ok(registry),
        Err(error) => Err(error),
    }
}

} // verus!
