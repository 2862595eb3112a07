//! Comparing a tracked path with what the registry holds of it.

use vstd::prelude::*;
use crate::digest::MAX_INPUT;
use crate::error::Error;
use crate::helpers::{get_metadata, metadata_of, Hasher};
use crate::paths::{absolute, is_absolute};
use crate::structs::{holds, index_of, BackupFile, EntryView};
use crate::tree::{fingerprint, tree_size, Tree};

verus! {

/// How a path compares with its entry in the registry.
#[derive(Clone, Copy, Debug, PartialEq, Eq, Structural)]
pub struct Comparison {
    /// The path's fingerprint is the recorded one.
    pub hashes_equal: bool,
    /// The path's size and modification time are the recorded ones.
    pub metadata_equal: bool,
}

/// How `path`, read as `source`, compares with its entry in `document`, or
/// why it cannot be compared.
pub open spec fn comparing(
    document: Option<Seq<(Seq<char>, EntryView)>>,
    path: Seq<char>,
    source: Tree,
) -> Result<Comparison, Error> {
    if !absolute(path) {
        Err(Error::NotAbsolute)
    } else if tree_size(source) > MAX_INPUT {
        Err(Error::Io)
    } else {
        match document {
            None => Err(Error::RegistryMissing),
            Some(rows) => if holds(rows, path) {
                let entry = rows[index_of(rows, path)].1;
                Ok(
                    Comparison {
                        hashes_equal: entry.hash == fingerprint(source),
                        metadata_equal: entry.metadata == metadata_of(source),
                    },
                )
            } else {
                Err(Error::NotTracked)
            },
        }
    }
}

/// Compares `path`, read as `source`, with what the registry holds of it.
/// Nothing is changed. A relative path, a source too large to fingerprint, a
/// missing document and a path that is not tracked are refused, in this order.
pub fn start(document: Option<&BackupFile>, path: &str, source: &Tree) -> (outcome: Result<
    Comparison,
    Error,
>)
    requires
        document matches Some(registry) ==> registry.wf(),
    ensures
        outcome == comparing(
            match document {
                Some(registry) => Some(registry@),
                None => None,
            },
            path@,
            *source,
        ),
{
    if !is_absolute(path) {
        return Err(Error::NotAbsolute);
    }
    let metadata = match get_metadata(source) {
        Some(metadata) => metadata,
        None => {
            return Err(Error::Io);
        },
    };
    let mut hasher = Hasher::new();
    if !hasher.has_room(metadata.size) {
        return Err(Error::Io);
    }
    let hash = hasher.hash_path(source);
    let registry = match document {
        Some(registry) => registry,
        None => {
            return Err(Error::RegistryMissing);
        },
    };
    match registry.position(path) {
        None => Err(Error::NotTracked),
        Some(i) => {
            let entry = &registry.row(i).entry;
            Ok(
                Comparison {
                    hashes_equal: entry.hash == hash,
                    metadata_equal: entry.metadata == metadata,
                },
            )
        },
    }
}

} // verus!
