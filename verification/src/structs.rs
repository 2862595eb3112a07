//! The registry of tracked paths.

use vstd::prelude::*;
use vstd::string::StringExecFns;
use crate::error::Error;
use crate::helpers::Metadata;
use crate::paths::{absolute, is_absolute};
use crate::time::Timestamp;

verus! {

/// What the registry keeps of one tracked path.
#[derive(Clone, Debug, PartialEq, Eq)]
pub struct BackupEntry {
    /// The fingerprint of the path's content when it was last recorded.
    pub hash: String,
    /// When the path was last copied; unset until the first copy.
    pub last_backup: Option<Timestamp>,
    /// Size and modification time when the path was added.
    pub metadata: Metadata,
}

/// A `BackupEntry` as a mathematical value.
pub struct EntryView {
    pub hash: Seq<char>,
    pub last_backup: Option<Timestamp>,
    pub metadata: Metadata,
}

impl View for BackupEntry {
    type V = EntryView;

    open spec fn view(&self) -> EntryView {
        EntryView { hash: self.hash@, last_backup: self.last_backup, metadata: self.metadata }
    }
}

/// A tracked path with its entry: one row of the registry.
#[derive(Clone, Debug, PartialEq, Eq)]
pub struct Row {
    pub path: String,
    pub entry: BackupEntry,
}

impl View for Row {
    type V = (Seq<char>, EntryView);

    open spec fn view(&self) -> (Seq<char>, EntryView) {
        (self.path@, self.entry@)
    }
}

/// The rows of a registry as mathematical values, in order.
pub open spec fn rows_of(rows: Seq<Row>) -> Seq<(Seq<char>, EntryView)> {
    Seq::new(rows.len(), |i: int| rows[i]@)
}

/// Whether `path` is the key of one of `rows`.
pub open spec fn holds(rows: Seq<(Seq<char>, EntryView)>, path: Seq<char>) -> bool {
    exists|i: int| 0 <= i < rows.len() && (#[trigger] rows[i]).0 == path
}

/// What makes rows a registry: every key is an absolute path, and no key
/// occurs twice.
pub open spec fn valid(rows: Seq<(Seq<char>, EntryView)>) -> bool {
    &&& forall|i: int| 0 <= i < rows.len() ==> absolute((#[trigger] rows[i]).0)
    &&& forall|i: int, j: int|
        0 <= i < j < rows.len() ==> (#[trigger] rows[i]).0 != (#[trigger] rows[j]).0
}

/// The registry: tracked paths with their entries, in the order in which
/// they were added.
pub struct BackupFile {
    rows: Vec<Row>,
}

impl View for BackupFile {
    type V = Seq<(Seq<char>, EntryView)>;

    closed spec fn view(&self) -> Seq<(Seq<char>, EntryView)> {
        rows_of(self.rows@)
    }
}

impl BackupFile {
    /// The registry's invariant.
    pub open spec fn wf(&self) -> bool {
        valid(self@)
    }

    /// A registry that tracks nothing.
    pub fn new() -> (registry: Self)
        ensures
            registry.wf(),
            registry@ == Seq::<(Seq<char>, EntryView)>::empty(),
    {
        let registry = Self { rows: Vec::new() };
        assert(registry@ =~= Seq::empty());
        registry
    }

    /// The registry that holds `rows`, where they make one.
    pub fn from_entries(rows: Vec<Row>) -> (registry: Result<Self, Error>)
        ensures
            valid(rows_of(rows@)) ==> registry is Ok,
            !valid(rows_of(rows@)) ==> registry == Err::<Self, Error>(Error::Parse),
            registry matches Ok(r) ==> r.wf() && r@ == rows_of(rows@),
    {
        let ghost view = rows_of(rows@);
        let mut i: usize = 0;
        while i < rows.len()
            invariant
                i <= rows.len(),
                view == rows_of(rows@),
                valid(view.take(i as int)),
            decreases rows.len() - i,
        {
            if !is_absolute(rows[i].path.as_str()) {
                assert(!absolute(view[i as int].0));
                return Err(Error::Parse);
            }
            let mut j: usize = 0;
            while j < i
                invariant
                    j <= i < rows.len(),
                    view == rows_of(rows@),
                    forall|k: int| 0 <= k < j ==> (#[trigger] view[k]).0 != view[i as int].0,
                decreases i - j,
            {
                if rows[j].path == rows[i].path {
                    assert(view[j as int].0 == view[i as int].0);
                    return Err(Error::Parse);
                }
                j += 1;
            }
            assert(valid(view.take(i + 1))) by {
                let longer = view.take(i + 1);
                let shorter = view.take(i as int);
                assert forall|k: int| 0 <= k < longer.len() implies absolute(
                    (#[trigger] longer[k]).0,
                ) by {
                    if k < i {
                        assert(longer[k] == shorter[k]);
                    }
                }
                assert forall|a: int, b: int| 0 <= a < b < longer.len() implies (
                #[trigger] longer[a]).0 != (#[trigger] longer[b]).0 by {
                    if b < i {
                        assert(longer[a] == shorter[a]);
                        assert(longer[b] == shorter[b]);
                    } else {
                        assert(longer[a] == view[a]);
                    }
                }
            }
            i += 1;
        }
        assert(view.take(i as int) =~= view);
        Ok(Self { rows })
    }

    /// How many paths are tracked.
    pub fn len(&self) -> (count: usize)
        ensures
            count == self@.len(),
    {
        self.rows.len()
    }

    /// The row at `index`, in the order in which paths were added.
    pub fn row(&self, index: usize) -> (row: &Row)
        requires
            index < self@.len(),
        ensures
            row@ == self@[index as int],
    {
        &self.rows[index]
    }

    /// All rows, in the order in which paths were added.
    pub fn rows(&self) -> (rows: &Vec<Row>)
        ensures
            rows_of(rows@) == self@,
    {
        &self.rows
    }

    /// Where `path` stands in the registry, if it is tracked.
    pub fn position(&self, path: &str) -> (found: Option<usize>)
        ensures
            found is Some <==> holds(self@, path@),
            found matches Some(i) ==> i == index_of(self@, path@) && i < self@.len()
                && self@[i as int].0 == path@,
    {
        let key = String::from_str(path);
        let mut i: usize = 0;
        while i < self.rows.len()
            invariant
                i <= self.rows.len(),
                key@ == path@,
                forall|k: int| 0 <= k < i ==> (#[trigger] self@[k]).0 != path@,
            decreases self.rows.len() - i,
        {
            if self.rows[i].path == key {
                assert(self@[i as int].0 == path@);
                proof {
                    lemma_index_of(self@, path@, i as int);
                }
                return Some(i);
            }
            i += 1;
        }
        None
    }

    /// Whether `path` is tracked.
    pub fn contains_key(&self, path: &str) -> (yes: bool)
        ensures
            yes == holds(self@, path@),
    {
        self.position(path).is_some()
    }

    /// The entry of `path`, if it is tracked.
    pub fn get(&self, path: &str) -> (entry: Option<&BackupEntry>)
        ensures
            entry is Some <==> holds(self@, path@),
            entry matches Some(e) ==> e@ == self@[index_of(self@, path@)].1,
    {
        match self.position(path) {
            Some(i) => {
                assert(self@[i as int] == self.rows[i as int]@);
                Some(&self.rows[i].entry)
            },
            None => None,
        }
    }

    /// Starts tracking `path`, with `hash` and `metadata` as its entry and no
    /// backup yet. A relative path is refused, and so is a path that is
    /// already tracked; the registry is then left as it was.
    pub fn add(&mut self, path: String, hash: String, metadata: Metadata) -> (outcome: Result<
        (),
        Error,
    >)
        requires
            old(self).wf(),
        ensures
            final(self).wf(),
            outcome == added(old(self)@, path@, hash@, metadata).1,
            final(self)@ == added(old(self)@, path@, hash@, metadata).0,
    {
        if !is_absolute(path.as_str()) {
            return Err(Error::NotAbsolute);
        }
        if self.contains_key(path.as_str()) {
            return Err(Error::AlreadyTracked);
        }
        let ghost before = self@;
        let row = Row { path, entry: BackupEntry { hash, last_backup: None, metadata } };
        self.rows.push(row);
        assert(self@ =~= before.push(row@));
        assert(valid(self@)) by {
            let after = self@;
            assert forall|i: int| 0 <= i < after.len() implies absolute(
                (#[trigger] after[i]).0,
            ) by {
                if i < before.len() {
                    assert(after[i] == before[i]);
                }
            }
            assert forall|i: int, j: int| 0 <= i < j < after.len() implies (#[trigger] after[i]).0
                != (#[trigger] after[j]).0 by {
                assert(after[i] == before[i]);
                if j < before.len() {
                    assert(after[j] == before[j]);
                }
            }
        }
        Ok(())
    }

    /// Stops tracking `path`. A relative path is refused, and so is a path
    /// that is not tracked; the registry is then left as it was.
    pub fn remove(&mut self, path: &str) -> (outcome: Result<(), Error>)
        requires
            old(self).wf(),
        ensures
            final(self).wf(),
            outcome == removed(old(self)@, path@).1,
            final(self)@ == removed(old(self)@, path@).0,
    {
        if !is_absolute(path) {
            return Err(Error::NotAbsolute);
        }
        match self.position(path) {
            None => Err(Error::NotTracked),
            Some(i) => {
                let ghost before = self@;
                self.rows.remove(i);
                assert(self@ =~= before.remove(i as int));
                assert(valid(self@)) by {
                    let after = self@;
                    assert forall|a: int| 0 <= a < after.len() implies absolute(
                        (#[trigger] after[a]).0,
                    ) by {
                        assert(after[a] == before[if a < i { a } else { a + 1 }]);
                    }
                    assert forall|a: int, b: int| 0 <= a < b < after.len() implies (
                    #[trigger] after[a]).0 != (#[trigger] after[b]).0 by {
                        assert(after[a] == before[if a < i { a } else { a + 1 }]);
                        assert(after[b] == before[if b < i { b } else { b + 1 }]);
                    }
                }
                Ok(())
            },
        }
    }

    /// Records that the path at `index` was copied at `now` with the
    /// fingerprint `hash`. Its metadata stays as it was.
    pub fn record_backup(&mut self, index: usize, hash: String, now: Timestamp)
        requires
            old(self).wf(),
            index < old(self)@.len(),
        ensures
            final(self).wf(),
            final(self)@ == old(self)@.update(
                index as int,
                backed_up(old(self)@[index as int], hash@, now),
            ),
    {
        let ghost before = self@;
        let row = &mut self.rows[index];
        row.entry.hash = hash;
        row.entry.last_backup = Some(now);
        assert(self@ =~= before.update(index as int, backed_up(before[index as int], hash@, now)));
        assert(valid(self@)) by {
            let after = self@;
            assert forall|a: int| 0 <= a < after.len() implies absolute(
                (#[trigger] after[a]).0,
            ) by {
                assert(after[a].0 == before[a].0);
            }
            assert forall|a: int, b: int| 0 <= a < b < after.len() implies (#[trigger] after[a]).0
                != (#[trigger] after[b]).0 by {
                assert(after[a].0 == before[a].0);
                assert(after[b].0 == before[b].0);
            }
        }
    }
}

/// The position of `path` among `rows`: the first row with that key, or the
/// number of rows where there is none.
pub open spec fn index_of(rows: Seq<(Seq<char>, EntryView)>, path: Seq<char>) -> int
    decreases rows.len(),
{
    if rows.len() == 0 {
        0
    } else if rows[0].0 == path {
        0
    } else {
        1 + index_of(rows.drop_first(), path)
    }
}

/// `index_of` finds the first row with the key `path`.
pub proof fn lemma_index_of(rows: Seq<(Seq<char>, EntryView)>, path: Seq<char>, at: int)
    requires
        0 <= at < rows.len(),
        rows[at].0 == path,
        forall|k: int| 0 <= k < at ==> (#[trigger] rows[k]).0 != path,
    ensures
        index_of(rows, path) == at,
    decreases rows.len(),
{
    if at == 0 {
    } else {
        let rest = rows.drop_first();
        assert(rows[0].0 != path);
        assert(rest[at - 1] == rows[at]);
        assert forall|k: int| 0 <= k < at - 1 implies (#[trigger] rest[k]).0 != path by {
            assert(rest[k] == rows[k + 1]);
        }
        lemma_index_of(rest, path, at - 1);
    }
}

/// In a registry the row with the key `path` is the only one, so `index_of`
/// finds it.
pub proof fn lemma_index_of_key(rows: Seq<(Seq<char>, EntryView)>, path: Seq<char>, at: int)
    requires
        valid(rows),
        0 <= at < rows.len(),
        rows[at].0 == path,
    ensures
        index_of(rows, path) == at,
{
    assert forall|k: int| 0 <= k < at implies (#[trigger] rows[k]).0 != path by {
        assert(rows[k].0 != rows[at].0);
    }
    lemma_index_of(rows, path, at);
}

/// A row after a backup at `now` that found the fingerprint `hash`: both are
/// recorded, the rest stays.
pub open spec fn backed_up(row: (Seq<char>, EntryView), hash: Seq<char>, now: Timestamp) -> (
    Seq<char>,
    EntryView,
) {
    (row.0, EntryView { hash, last_backup: Some(now), metadata: row.1.metadata })
}

/// The registry after an attempt to add `path`, and how the attempt ended.
pub open spec fn added(
    rows: Seq<(Seq<char>, EntryView)>,
    path: Seq<char>,
    hash: Seq<char>,
    metadata: Metadata,
) -> (Seq<(Seq<char>, EntryView)>, Result<(), Error>) {
    if !absolute(path) {
        (rows, Err(Error::NotAbsolute))
    } else if holds(rows, path) {
        (rows, Err(Error::AlreadyTracked))
    } else {
        (rows.push((path, EntryView { hash, last_backup: None, metadata })), Ok(()))
    }
}

/// The registry after an attempt to remove `path`, and how the attempt ended.
pub open spec fn removed(rows: Seq<(Seq<char>, EntryView)>, path: Seq<char>) -> (
    Seq<(Seq<char>, EntryView)>,
    Result<(), Error>,
) {
    if !absolute(path) {
        (rows, Err(Error::NotAbsolute))
    } else if !holds(rows, path) {
        (rows, Err(Error::NotTracked))
    } else {
        (rows.remove(index_of(rows, path)), Ok(()))
    }
}

} // verus!
