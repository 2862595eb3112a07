//! Starting to track a path.

use vstd::prelude::*;
use crate::digest::MAX_INPUT;
use crate::error::Error;
use crate::handlers::{outcome_rows, rows_in};
use crate::helpers::{get_metadata, metadata_of, Hasher};
use crate::paths::{absolute, is_absolute};
use crate::structs::{holds, BackupFile, EntryView};
use crate::tree::{fingerprint, tree_size, Tree};

verus! {

/// The registry after `path`, read as `source`, was added to `document`, or
/// why it was not. A document that does not exist yet counts as empty. The
/// new entry holds the fingerprint and the metadata of `source` and no backup.
pub open spec fn tracking(
    document: Option<Seq<(Seq<char>, EntryView)>>,
    path: Seq<char>,
    source: Tree,
) -> Result<Seq<(Seq<char>, EntryView)>, Error> {
    let rows = match document {
        Some(rows) => rows,
        None => Seq::empty(),
    };
    if !absolute(path) {
        Err(Error::NotAbsolute)
    } else if tree_size(source) > MAX_INPUT {
        Err(Error::Io)
    } else if holds(rows, path) {
        Err(Error::AlreadyTracked)
    } else {
        Ok(
            rows.push(
                (
                    path,
                    EntryView {
                        hash: fingerprint(source),
                        last_backup: None,
                        metadata: metadata_of(source),
                    },
                ),
            ),
        )
    }
}

/// Adds `path` to the registry, with the fingerprint and the metadata of
/// `source`, which is what was read at `path`. Without a document the
/// registry is begun. A relative path, a path that is tracked already, and a
/// source too large to fingerprint are refused.
pub fn start(document: Option<BackupFile>, path: String, source: &Tree) -> (outcome: Result<
    BackupFile,
    Error,
>)
    requires
        document matches Some(registry) ==> registry.wf(),
    ensures
        outcome matches Ok(registry) ==> registry.wf(),
        outcome_rows(outcome) == tracking(rows_in(document), path@, *source),
{
    if !is_absolute(path.as_str()) {
        return Err(Error::NotAbsolute);
    }
    let metadata = match get_metadata(source) {
        Some(metadata) => metadata,
        None => {
            return Err(Error::Io);
        },
    };
    let mut hasher = Hasher::new();
    if !hasher.has_room(metadata.size) {
        return Err(Error::Io);
    }
    let hash = hasher.hash_path(source);
    let mut registry = match document {
        Some(registry) => registry,
        None => BackupFile::new(),
    };
    match registry.add(path, hash, metadata) {
        Ok(()) => Ok(registry),
        Err(error) => Err(error),
    }
}

} // verus!
