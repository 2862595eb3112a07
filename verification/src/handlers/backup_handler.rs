//! Copying what changed.

use vstd::prelude::*;
use crate::digest::MAX_INPUT;
use crate::error::Error;
use crate::helpers::fs::{plan_tree, steps_of, tree_steps, Operation, OperationView};
use crate::helpers::{get_path_size, Hasher};
use crate::paths::{basename, file_name, join, joined};
use crate::structs::{backed_up, BackupFile, EntryView};
use crate::time::Timestamp;
use crate::tree::{fingerprint, tree_size, Tree};

verus! {

/// What a run found to do, and the registry to write once it is done.
pub struct Report {
    /// The tracked paths that have to be copied, in registry order.
    pub copied: Vec<String>,
    /// The steps that copy them, in the order in which to take them.
    pub operations: Vec<Operation>,
    /// The registry to write after every step has succeeded. Unset where
    /// nothing has to be copied: the document is then left alone.
    pub document: Option<BackupFile>,
}

/// A `Report` as a mathematical value.
pub struct ReportView {
    pub copied: Seq<Seq<char>>,
    pub operations: Seq<OperationView>,
    pub document: Option<Seq<(Seq<char>, EntryView)>>,
}

/// Texts as mathematical values, in order.
pub open spec fn texts_of(texts: Seq<String>) -> Seq<Seq<char>> {
    Seq::new(texts.len(), |i: int| texts[i]@)
}

impl View for Report {
    type V = ReportView;

    open spec fn view(&self) -> ReportView {
        ReportView {
            copied: texts_of(self.copied@),
            operations: steps_of(self.operations@),
            document: match self.document {
                Some(registry) => Some(registry@),
                None => None,
            },
        }
    }
}

/// A path has to be copied when its fingerprint is not the recorded one, or
/// when it was never copied.
pub open spec fn changed(entry: EntryView, current: Seq<char>) -> bool {
    entry.hash != current || entry.last_backup is None
}

/// Whether row `i` has to be copied, given what was read of each path.
pub open spec fn due(rows: Seq<(Seq<char>, EntryView)>, sources: Seq<Tree>, i: int) -> bool {
    changed(rows[i].1, fingerprint(sources[i]))
}

/// Whether a run can go through: there is one source for each row, every
/// tracked path ends in a name to copy it under, and every source can be
/// fingerprinted.
pub open spec fn readable(rows: Seq<(Seq<char>, EntryView)>, sources: Seq<Tree>) -> bool {
    &&& sources.len() == rows.len()
    &&& forall|i: int|
        0 <= i < rows.len() ==> file_name((#[trigger] rows[i]).0) is Some && tree_size(sources[i])
            <= MAX_INPUT
}

/// The paths among the first `count` rows that have to be copied.
pub open spec fn due_paths(rows: Seq<(Seq<char>, EntryView)>, sources: Seq<Tree>, count: nat) -> Seq<
    Seq<char>,
>
    decreases count,
{
    if count == 0 {
        Seq::empty()
    } else if due(rows, sources, count - 1) {
        due_paths(rows, sources, (count - 1) as nat).push(rows[count - 1].0)
    } else {
        due_paths(rows, sources, (count - 1) as nat)
    }
}

/// The steps that copy what has to be copied among the first `count` rows:
/// each such path goes to `dest` under its own name.
pub open spec fn due_steps(
    rows: Seq<(Seq<char>, EntryView)>,
    sources: Seq<Tree>,
    dest: Seq<char>,
    count: nat,
) -> Seq<OperationView>
    decreases count,
{
    if count == 0 {
        Seq::empty()
    } else if due(rows, sources, count - 1) {
        due_steps(rows, sources, dest, (count - 1) as nat) + tree_steps(
            sources[count - 1],
            rows[count - 1].0,
            joined(dest, file_name(rows[count - 1].0)->0),
        )
    } else {
        due_steps(rows, sources, dest, (count - 1) as nat)
    }
}

/// The rows after a run at `now` that copied what had to be copied among the
/// first `count` of them: those rows record their new fingerprint and `now`,
/// all others are as before.
pub open spec fn synced(
    rows: Seq<(Seq<char>, EntryView)>,
    sources: Seq<Tree>,
    now: Timestamp,
    count: nat,
) -> Seq<(Seq<char>, EntryView)> {
    Seq::new(
        rows.len(),
        |i: int|
            if i < count && due(rows, sources, i) {
                backed_up(rows[i], fingerprint(sources[i]), now)
            } else {
                rows[i]
            },
    )
}

/// What a run on `document` gives, `sources` being what was read of each
/// tracked path, in registry order.
pub open spec fn syncing(
    document: Option<Seq<(Seq<char>, EntryView)>>,
    sources: Seq<Tree>,
    dest: Seq<char>,
    now: Timestamp,
) -> Result<ReportView, Error> {
    match document {
        None => Err(Error::RegistryMissing),
        Some(rows) => if !readable(rows, sources) {
            Err(Error::Io)
        } else {
            let copied = due_paths(rows, sources, rows.len());
            Ok(
                ReportView {
                    copied,
                    operations: due_steps(rows, sources, dest, rows.len()),
                    document: if copied.len() == 0 {
                        None
                    } else {
                        Some(synced(rows, sources, now, rows.len()))
                    },
                },
            )
        },
    }
}

/// Once a run has gone through and its document is written, a second run on
/// the same sources finds nothing to do: it copies nothing, plans no step and
/// leaves the document alone.
pub proof fn lemma_second_run_is_idle(
    rows: Seq<(Seq<char>, EntryView)>,
    sources: Seq<Tree>,
    dest: Seq<char>,
    first: Timestamp,
    second: Timestamp,
)
    requires
        syncing(Some(rows), sources, dest, first) is Ok,
    ensures
        syncing(
            Some(
                match syncing(Some(rows), sources, dest, first)->Ok_0.document {
                    Some(written) => written,
                    None => rows,
                },
            ),
            sources,
            dest,
            second,
        ) == Ok::<ReportView, Error>(
            ReportView { copied: Seq::empty(), operations: Seq::empty(), document: None },
        ),
{
    let report = syncing(Some(rows), sources, dest, first)->Ok_0;
    let after = match report.document {
        Some(written) => written,
        None => rows,
    };
    let all = rows.len();
    lemma_nothing_due(rows, sources, dest, all);
    assert(after =~= synced(rows, sources, first, all)) by {
        if report.document is None {
            assert forall|i: int| 0 <= i < all implies !due(rows, sources, i) by {}
        }
    }
    assert(readable(after, sources)) by {
        assert forall|i: int| 0 <= i < after.len() implies file_name((#[trigger] after[i]).0)
            is Some && tree_size(sources[i]) <= MAX_INPUT by {
            assert(after[i].0 == rows[i].0);
        }
    }
    assert forall|i: int| 0 <= i < all implies !due(after, sources, i) by {}
    lemma_nothing_due(after, sources, dest, all);
    assert(due_paths(after, sources, all) =~= Seq::empty());
    assert(due_steps(after, sources, dest, all) =~= Seq::empty());
}

/// A run copies every path that was never copied, whatever its content: on
/// a registry without any backup it copies every path, in registry order.
pub proof fn lemma_first_run_copies_everything(
    rows: Seq<(Seq<char>, EntryView)>,
    sources: Seq<Tree>,
    count: nat,
)
    requires
        count <= rows.len(),
        forall|i: int| 0 <= i < count ==> (#[trigger] rows[i]).1.last_backup is None,
    ensures
        due_paths(rows, sources, count) == Seq::new(count, |i: int| rows[i].0),
    decreases count,
{
    if count > 0 {
        lemma_first_run_copies_everything(rows, sources, (count - 1) as nat);
        assert(rows[count - 1].1.last_backup is None);
    }
    assert(due_paths(rows, sources, count) =~= Seq::new(count, |i: int| rows[i].0));
}

/// Nothing is copied and no step is planned exactly where no row is due.
pub proof fn lemma_nothing_due(
    rows: Seq<(Seq<char>, EntryView)>,
    sources: Seq<Tree>,
    dest: Seq<char>,
    count: nat,
)
    ensures
        due_paths(rows, sources, count).len() == 0 <==> forall|i: int|
            0 <= i < count ==> !due(rows, sources, i),
        (forall|i: int| 0 <= i < count ==> !due(rows, sources, i)) ==> due_steps(
            rows,
            sources,
            dest,
            count,
        ).len() == 0,
    decreases count,
{
    if count > 0 {
        lemma_nothing_due(rows, sources, dest, (count - 1) as nat);
    }
}

/// A fingerprint waiting to be recorded for the row at `index`.
pub struct Update {
    pub index: usize,
    pub hash: String,
}

/// The rows after the first `count` of `updates` were recorded at `now`.
pub open spec fn recorded(
    rows: Seq<(Seq<char>, EntryView)>,
    updates: Seq<Update>,
    now: Timestamp,
    count: nat,
) -> Seq<(Seq<char>, EntryView)>
    decreases count,
{
    if count == 0 || count > updates.len() {
        rows
    } else {
        let before = recorded(rows, updates, now, (count - 1) as nat);
        let update = updates[count - 1];
        before.update(update.index as int, backed_up(before[update.index as int], update.hash@, now))
    }
}

/// Whether `updates` are the ones that a run stages for the first `count`
/// rows: one for each row that has to be copied, in row order, with the
/// row's new fingerprint.
pub open spec fn staged(
    rows: Seq<(Seq<char>, EntryView)>,
    sources: Seq<Tree>,
    updates: Seq<Update>,
    count: nat,
) -> bool
    decreases count,
{
    if count == 0 {
        updates.len() == 0
    } else if due(rows, sources, count - 1) {
        &&& updates.len() > 0
        &&& updates.last().index == count - 1
        &&& updates.last().hash@ == fingerprint(sources[count - 1])
        &&& staged(rows, sources, updates.drop_last(), (count - 1) as nat)
    } else {
        staged(rows, sources, updates, (count - 1) as nat)
    }
}

/// Recording the updates staged for the first `count` rows gives the rows
/// that a run leaves behind; there are as many updates as paths to copy, and
/// each is for one of those rows.
pub proof fn lemma_staged_then_recorded(
    rows: Seq<(Seq<char>, EntryView)>,
    sources: Seq<Tree>,
    updates: Seq<Update>,
    now: Timestamp,
    count: nat,
)
    requires
        count <= rows.len(),
        staged(rows, sources, updates, count),
    ensures
        recorded(rows, updates, now, updates.len()) == synced(rows, sources, now, count),
        updates.len() == due_paths(rows, sources, count).len(),
        forall|j: int| 0 <= j < updates.len() ==> (#[trigger] updates[j]).index < count,
    decreases count,
{
    if count == 0 {
        assert(synced(rows, sources, now, 0) =~= rows);
    } else if due(rows, sources, count - 1) {
        let earlier = updates.drop_last();
        lemma_staged_then_recorded(rows, sources, earlier, now, (count - 1) as nat);
        lemma_recorded_prefix(rows, updates, earlier, now, earlier.len());
        assert(recorded(rows, updates, now, updates.len()) =~= synced(rows, sources, now, count));
        assert forall|j: int| 0 <= j < updates.len() implies (#[trigger] updates[j]).index
            < count by {
            if j < earlier.len() {
                assert(updates[j] == earlier[j]);
            }
        }
    } else {
        lemma_staged_then_recorded(rows, sources, updates, now, (count - 1) as nat);
        assert(synced(rows, sources, now, count) =~= synced(
            rows,
            sources,
            now,
            (count - 1) as nat,
        ));
    }
}

/// Recording the first updates of a list does not depend on what follows
/// them in the list.
pub proof fn lemma_recorded_prefix(
    rows: Seq<(Seq<char>, EntryView)>,
    updates: Seq<Update>,
    prefix: Seq<Update>,
    now: Timestamp,
    count: nat,
)
    requires
        count <= prefix.len() <= updates.len(),
        forall|j: int| 0 <= j < prefix.len() ==> prefix[j] == updates[j],
    ensures
        recorded(rows, updates, now, count) == recorded(rows, prefix, now, count),
    decreases count,
{
    if count > 0 {
        lemma_recorded_prefix(rows, updates, prefix, now, (count - 1) as nat);
    }
}

/// Records `updates` in `registry`, all at `now`.
fn commit(registry: &mut BackupFile, updates: Vec<Update>, now: Timestamp)
    requires
        old(registry).wf(),
        forall|j: int| 0 <= j < updates@.len() ==> (#[trigger] updates@[j]).index < old(registry)@.len(),
    ensures
        final(registry).wf(),
        final(registry)@ == recorded(old(registry)@, updates@, now, updates@.len()),
{
    let ghost before = registry@;
    let mut j: usize = 0;
    while j < updates.len()
        invariant
            j <= updates.len(),
            registry.wf(),
            registry@.len() == before.len(),
            forall|k: int| 0 <= k < updates@.len() ==> (#[trigger] updates@[k]).index < before.len(),
            registry@ == recorded(before, updates@, now, j as nat),
        decreases updates.len() - j,
    {
        registry.record_backup(updates[j].index, updates[j].hash.clone(), now);
        j += 1;
    }
}

/// Decides what a backup run has to do. `sources` holds what was read of
/// each tracked path, in registry order; `dest` is the directory that copies
/// go to; `now` is the time that the run records.
///
/// A path is copied when its fingerprint differs from the recorded one or
/// when it was never copied, to `dest` under its own name. The report lists
/// those paths and the steps that copy them. Its document records, for
/// exactly those paths, the new fingerprint and `now`; it is to be written
/// once, after every step has succeeded, and not at all after a failure.
/// Where nothing has to be copied there are no steps and no document.
///
/// Without a document there is no run. A run fails as a whole where the
/// sources do not match the rows one to one, where a tracked path has no
/// name to be copied under, or where a source is too large to fingerprint.
pub fn start(document: Option<BackupFile>, sources: &Vec<Tree>, dest: &str, now: Timestamp) -> (outcome:
    Result<Report, Error>)
    requires
        document matches Some(registry) ==> registry.wf(),
    ensures
        outcome matches Ok(report) ==> (report.document matches Some(registry) ==> registry.wf()),
        match outcome {
            Ok(report) => Ok::<ReportView, Error>(report@),
            Err(error) => Err(error),
        } == syncing(
            match document {
                Some(registry) => Some(registry@),
                None => None,
            },
            sources@,
            dest@,
            now,
        ),
{
    let mut registry = match document {
        Some(registry) => registry,
        None => {
            return Err(Error::RegistryMissing);
        },
    };
    if sources.len() != registry.len() {
        return Err(Error::Io);
    }
    let ghost rows = registry@;
    let mut hasher = Hasher::new();
    let mut updates: Vec<Update> = Vec::new();
    let mut copied: Vec<String> = Vec::new();
    let mut operations: Vec<Operation> = Vec::new();
    assert(texts_of(copied@) =~= Seq::empty());
    assert(steps_of(operations@) =~= Seq::empty());
    let mut i: usize = 0;
    while i < registry.len()
        invariant
            i <= registry@.len(),
            registry@ == rows,
            document matches Some(given) && given@ == rows,
            sources@.len() == rows.len(),
            hasher.wf(),
            hasher.pending() == Seq::<u8>::empty(),
            forall|k: int|
                0 <= k < i ==> file_name((#[trigger] rows[k]).0) is Some && tree_size(sources@[k])
                    <= MAX_INPUT,
            staged(rows, sources@, updates@, i as nat),
            texts_of(copied@) == due_paths(rows, sources@, i as nat),
            steps_of(operations@) == due_steps(rows, sources@, dest@, i as nat),
        decreases registry@.len() - i,
    {
        let row = registry.row(i);
        let source = &sources[i];
        let name = match basename(row.path.as_str()) {
            Some(name) => name,
            None => {
                assert(file_name(rows[i as int].0) is None);
                return Err(Error::Io);
            },
        };
        match get_path_size(source) {
            Some(size) => {
                if !hasher.has_room(size) {
                    assert(file_name(rows[i as int].0) is Some);
                    return Err(Error::Io);
                }
            },
            None => {
                assert(file_name(rows[i as int].0) is Some);
                return Err(Error::Io);
            },
        }
        let hash = hasher.hash_path(source);
        assert(hash@ == fingerprint(*source)) by {
            assert(Seq::<u8>::empty() + crate::tree::tree_bytes(*source) =~= crate::tree::tree_bytes(
                *source,
            ));
        }
        if hash != row.entry.hash || row.entry.last_backup.is_none() {
            let ghost before_copied = texts_of(copied@);
            let ghost before_updates = updates@;
            let to = join(dest, name.as_str());
            let from = row.path.clone();
            plan_tree(source, from, to, &mut operations);
            let path = row.path.clone();
            copied.push(path);
            assert(texts_of(copied@) =~= before_copied.push(rows[i as int].0));
            updates.push(Update { index: i, hash });
            assert(updates@.drop_last() =~= before_updates);
        }
        i += 1;
    }
    assert(readable(rows, sources@));
    proof {
        lemma_staged_then_recorded(rows, sources@, updates@, now, rows.len());
    }
    if updates.len() == 0 {
        return Ok(Report { copied, operations, document: None });
    }
    commit(&mut registry, updates, now);
    Ok(Report { copied, operations, document: Some(registry) })
}

} // verus!
