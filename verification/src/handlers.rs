//! The operations of the tracker, each as a function from the registry
//! document and what was read of the file system to the new document and a
//! report.

pub mod add_handler;
pub mod backup_handler;
pub mod compare_handler;
pub mod list_handler;
pub mod reset_handler;
pub mod rm_handler;

use vstd::prelude::*;
use crate::digest::MAX_INPUT;
use crate::error::{Error, ErrorKind};
use crate::handlers::add_handler::tracking;
use crate::handlers::compare_handler::{comparing, Comparison};
use crate::handlers::list_handler::listing;
use crate::handlers::rm_handler::untracking;
use crate::paths::absolute;
use crate::structs::{holds, lemma_index_of_key, valid, BackupFile, EntryView};
use crate::tree::{tree_size, Tree};

verus! {

/// The rows of a document, where there is one.
pub open spec fn rows_in(document: Option<BackupFile>) -> Option<Seq<(Seq<char>, EntryView)>> {
    match document {
        Some(registry) => Some(registry@),
        None => None,
    }
}

/// An operation's outcome, with the new registry as its rows.
pub open spec fn outcome_rows(outcome: Result<BackupFile, Error>) -> Result<
    Seq<(Seq<char>, EntryView)>,
    Error,
> {
    match outcome {
        Ok(registry) => Ok(registry@),
        Err(error) => Err(error),
    }
}

/// A path that was just added is listed exactly once, and without a backup.
pub proof fn lemma_added_path_is_listed_once(
    document: Option<Seq<(Seq<char>, EntryView)>>,
    path: Seq<char>,
    source: Tree,
)
    requires
        document matches Some(rows) ==> valid(rows),
        tracking(document, path, source) is Ok,
    ensures
        ({
            let shown = listing(Some(tracking(document, path, source)->Ok_0));
            &&& shown is Ok
            &&& shown->Ok_0.total_paths == shown->Ok_0.rows.len()
            &&& exists|i: int|
                {
                    &&& 0 <= i < shown->Ok_0.rows.len()
                    &&& (#[trigger] shown->Ok_0.rows[i]).0 == path
                    &&& shown->Ok_0.rows[i].1.last_backup is None
                    &&& forall|j: int|
                        0 <= j < shown->Ok_0.rows.len() && (#[trigger] shown->Ok_0.rows[j]).0
                            == path ==> j == i
                }
        }),
{
    let before = match document {
        Some(rows) => rows,
        None => Seq::empty(),
    };
    let after = tracking(document, path, source)->Ok_0;
    let last = before.len() as int;
    let shown = listing(Some(after))->Ok_0;
    assert(shown.rows == after);
    assert(after[last].0 == path);
    assert(after[last].1.last_backup is None);
    assert forall|j: int| 0 <= j < after.len() && (#[trigger] after[j]).0 == path implies j
        == last by {
        if j < last {
            assert(before[j] == after[j]);
            assert(holds(before, path));
        }
    }
    assert(0 <= last < shown.rows.len() && shown.rows[last].0 == path
        && shown.rows[last].1.last_backup is None && forall|j: int|
        0 <= j < shown.rows.len() && (#[trigger] shown.rows[j]).0 == path ==> j == last);
}

/// A path that was just removed is not listed any more.
pub proof fn lemma_removed_path_is_not_listed(
    document: Option<Seq<(Seq<char>, EntryView)>>,
    path: Seq<char>,
)
    requires
        document matches Some(rows) ==> valid(rows),
        untracking(document, path) is Ok,
    ensures
        ({
            let shown = listing(Some(untracking(document, path)->Ok_0));
            &&& shown is Ok
            &&& shown->Ok_0.total_paths + 1 == document->0.len()
            &&& !holds(shown->Ok_0.rows, path)
        }),
{
    let before = document->0;
    let at = choose|i: int| 0 <= i < before.len() && (#[trigger] before[i]).0 == path;
    lemma_index_of_key(before, path, at);
    let after = before.remove(at);
    assert forall|j: int| 0 <= j < after.len() implies (#[trigger] after[j]).0 != path by {
        if j < at {
            assert(after[j] == before[j]);
        } else {
            assert(after[j] == before[j + 1]);
        }
    }
}

/// Adding a path to a registry that does not exist yet and removing it again
/// leaves a registry that lists nothing.
pub proof fn lemma_add_then_remove_lists_nothing(path: Seq<char>, source: Tree)
    requires
        tracking(None, path, source) is Ok,
    ensures
        untracking(Some(tracking(None, path, source)->Ok_0), path) == Ok::<
            Seq<(Seq<char>, EntryView)>,
            Error,
        >(Seq::empty()),
        listing(Some(Seq::empty()))->Ok_0.total_paths == 0,
{
    let after = tracking(None, path, source)->Ok_0;
    assert(after[0].0 == path);
    assert(valid(after));
    lemma_index_of_key(after, path, 0);
    assert(after.remove(0) =~= Seq::empty());
}

/// Adding a path a second time is refused as a conflict, whatever is read at
/// the path by then, as long as it can be fingerprinted.
pub proof fn lemma_second_add_conflicts(
    document: Option<Seq<(Seq<char>, EntryView)>>,
    path: Seq<char>,
    first: Tree,
    second: Tree,
)
    requires
        tracking(document, path, first) is Ok,
        tree_size(second) <= MAX_INPUT,
    ensures
        tracking(Some(tracking(document, path, first)->Ok_0), path, second) == Err::<
            Seq<(Seq<char>, EntryView)>,
            Error,
        >(Error::AlreadyTracked),
        Error::AlreadyTracked.spec_kind() == ErrorKind::Conflict,
{
    let before = match document {
        Some(rows) => rows,
        None => Seq::empty(),
    };
    let after = tracking(document, path, first)->Ok_0;
    assert(after[before.len() as int].0 == path);
}

/// Removing an absolute path that is not in the registry is refused as not
/// found, with or without a document.
pub proof fn lemma_remove_absent_is_not_found(
    document: Option<Seq<(Seq<char>, EntryView)>>,
    path: Seq<char>,
)
    requires
        absolute(path),
        document matches Some(rows) ==> !holds(rows, path),
    ensures
        untracking(document, path) is Err,
        untracking(document, path)->Err_0.spec_kind() == ErrorKind::NotFound,
{
}

/// A relative path is refused as invalid input, by adding and by removing
/// alike, before anything else is looked at.
pub proof fn lemma_relative_path_is_refused(
    document: Option<Seq<(Seq<char>, EntryView)>>,
    path: Seq<char>,
    source: Tree,
)
    requires
        !absolute(path),
    ensures
        tracking(document, path, source) == Err::<Seq<(Seq<char>, EntryView)>, Error>(
            Error::NotAbsolute,
        ),
        untracking(document, path) == Err::<Seq<(Seq<char>, EntryView)>, Error>(
            Error::NotAbsolute,
        ),
        Error::NotAbsolute.spec_kind() == ErrorKind::InvalidInput,
{
}

/// A path that was just added and has not changed since compares equal with
/// its entry, in fingerprint and in metadata.
pub proof fn lemma_unchanged_path_compares_equal(
    document: Option<Seq<(Seq<char>, EntryView)>>,
    path: Seq<char>,
    source: Tree,
)
    requires
        document matches Some(rows) ==> valid(rows),
        tracking(document, path, source) is Ok,
    ensures
        comparing(Some(tracking(document, path, source)->Ok_0), path, source) == Ok::<
            Comparison,
            Error,
        >(Comparison { hashes_equal: true, metadata_equal: true }),
{
    let before = match document {
        Some(rows) => rows,
        None => Seq::empty(),
    };
    let after = tracking(document, path, source)->Ok_0;
    let last = before.len() as int;
    assert(after[last].0 == path);
    assert forall|k: int| 0 <= k < last implies (#[trigger] after[k]).0 != path by {
        assert(after[k] == before[k]);
        assert(holds(before, path) || before[k].0 != path);
    }
    crate::structs::lemma_index_of(after, path, last);
}

} // verus!
