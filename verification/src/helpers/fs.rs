//! Copying tracked paths to the backup destination: which steps to take, in
//! which order. Carrying them out is left to the caller.

use vstd::prelude::*;
use vstd::string::StringExecFns;
use crate::paths::{join, joined};
use crate::tree::Tree;

verus! {

/// One step of a copy.
#[derive(Clone, Debug, PartialEq, Eq)]
pub enum Operation {
    /// Create the directory `path` unless it is there already.
    EnsureDir { path: String },
    /// Make the file `to` hold the bytes of the file `from`, whatever `to`
    /// held before.
    ReplaceFile { from: String, to: String },
}

/// An `Operation` as a mathematical value.
pub enum OperationView {
    EnsureDir { path: Seq<char> },
    ReplaceFile { from: Seq<char>, to: Seq<char> },
}

impl View for Operation {
    type V = OperationView;

    open spec fn view(&self) -> OperationView {
        match self {
            Operation::EnsureDir { path } => OperationView::EnsureDir { path: path@ },
            Operation::ReplaceFile { from, to } => OperationView::ReplaceFile {
                from: from@,
                to: to@,
            },
        }
    }
}

/// Operations as mathematical values, in order.
pub open spec fn steps_of(operations: Seq<Operation>) -> Seq<OperationView> {
    Seq::new(operations.len(), |i: int| operations[i]@)
}

/// The steps that copy a directory with the entries `children` from `from`
/// to `to`: the destination directory first, then each entry in listing
/// order under its own name, files replaced and directories copied in depth.
pub open spec fn dir_steps(children: Vec<Tree>, from: Seq<char>, to: Seq<char>) -> Seq<
    OperationView,
>
    decreases children, children@.len() + 1,
{
    seq![OperationView::EnsureDir { path: to }] + entry_steps(
        children,
        children@.len(),
        from,
        to,
    )
}

/// The steps that copy the first `count` entries of a directory.
pub open spec fn entry_steps(children: Vec<Tree>, count: nat, from: Seq<char>, to: Seq<char>) -> Seq<
    OperationView,
>
    decreases children, count,
{
    if count == 0 || count > children@.len() {
        Seq::empty()
    } else {
        entry_steps(children, (count - 1) as nat, from, to) + tree_steps(
            children@[count - 1],
            joined(from, children@[count - 1].spec_name()),
            joined(to, children@[count - 1].spec_name()),
        )
    }
}

/// The steps that copy one file or directory from `from` to `to`.
pub open spec fn tree_steps(tree: Tree, from: Seq<char>, to: Seq<char>) -> Seq<OperationView>
    decreases tree, 0nat,
{
    match tree {
        Tree::File { .. } => seq![OperationView::ReplaceFile { from, to }],
        Tree::Dir { children, .. } => dir_steps(children, from, to),
    }
}

/// Adds to `operations` the steps that copy one file or directory.
pub(crate) fn plan_tree(tree: &Tree, from: String, to: String, operations: &mut Vec<Operation>)
    ensures
        steps_of(final(operations)@) == steps_of(old(operations)@) + tree_steps(
            *tree,
            from@,
            to@,
        ),
    decreases tree, 0nat,
{
    match tree {
        Tree::File { .. } => {
            let ghost before = steps_of(operations@);
            let step = Operation::ReplaceFile { from, to };
            operations.push(step);
            assert(steps_of(operations@) =~= before + seq![step@]);
        },
        Tree::Dir { children, .. } => {
            plan_dir(children, from.as_str(), to.as_str(), operations);
        },
    }
}

/// Adds to `operations` the steps that copy a directory.
fn plan_dir(children: &Vec<Tree>, from: &str, to: &str, operations: &mut Vec<Operation>)
    ensures
        steps_of(final(operations)@) == steps_of(old(operations)@) + dir_steps(
            *children,
            from@,
            to@,
        ),
    decreases children, children@.len() + 1,
{
    let ghost before = steps_of(operations@);
    let first = Operation::EnsureDir { path: String::from_str(to) };
    operations.push(first);
    assert(steps_of(operations@) =~= before + seq![first@]);
    let mut i: usize = 0;
    while i < children.len()
        invariant
            i <= children.len(),
            steps_of(operations@) == before + seq![OperationView::EnsureDir { path: to@ }]
                + entry_steps(*children, i as nat, from@, to@),
        decreases children.len() - i,
    {
        let child = &children[i];
        let child_from = join(from, child.name().as_str());
        let child_to = join(to, child.name().as_str());
        proof {
            assert(decreases_to!(*children => children[i as int]));
        }
        plan_tree(child, child_from, child_to, operations);
        i += 1;
    }
}

/// The steps that copy a directory from `from` to `to`, given its entries in
/// listing order. The destination directory is created where it is absent
/// and left alone where it is there; every file below is replaced, and every
/// directory below is copied the same way.
pub fn copy_dir(children: &Vec<Tree>, from: &str, to: &str) -> (operations: Vec<Operation>)
    ensures
        steps_of(operations@) == dir_steps(*children, from@, to@),
{
    let mut operations: Vec<Operation> = Vec::new();
    assert(steps_of(operations@) =~= Seq::empty());
    plan_dir(children, from, to, &mut operations);
    operations
}

/// A system call made while replacing one file by another.
#[derive(Clone, Copy, Debug, PartialEq, Eq, Structural)]
pub enum Attempt {
    /// Move the source onto the destination.
    Rename,
    /// Ask whether the destination exists.
    Probe,
    /// Delete the destination.
    Remove,
    /// Copy the bytes of the source to the destination.
    Copy,
}

/// What follows an attempt.
#[derive(Clone, Copy, Debug, PartialEq, Eq, Structural)]
pub enum Next {
    /// Make this attempt next.
    Try(Attempt),
    /// The destination holds the source's bytes.
    Done,
    /// The replacement failed.
    Failed,
}

/// What follows `attempt`, given whether it succeeded (for `Probe`: whether
/// the destination exists). A rename that succeeds ends the replacement. One
/// that fails is made up for by a copy, before which a destination that
/// exists is deleted. A failed deletion or copy is final.
pub open spec fn after(attempt: Attempt, succeeded: bool) -> Next {
    match attempt {
        Attempt::Rename => if succeeded {
            Next::Done
        } else {
            Next::Try(Attempt::Probe)
        },
        Attempt::Probe => if succeeded {
            Next::Try(Attempt::Remove)
        } else {
            Next::Try(Attempt::Copy)
        },
        Attempt::Remove => if succeeded {
            Next::Try(Attempt::Copy)
        } else {
            Next::Failed
        },
        Attempt::Copy => if succeeded {
            Next::Done
        } else {
            Next::Failed
        },
    }
}

/// How many attempts can still follow `attempt`.
pub open spec fn attempts_left(attempt: Attempt) -> nat {
    match attempt {
        Attempt::Rename => 3,
        Attempt::Probe => 2,
        Attempt::Remove => 1,
        Attempt::Copy => 0,
    }
}

/// A replacement comes to an end: each attempt leaves fewer to follow, so
/// that there are four at most.
pub proof fn lemma_attempts_run_out(attempt: Attempt, succeeded: bool)
    ensures
        after(attempt, succeeded) matches Next::Try(next) ==> attempts_left(next) < attempts_left(
            attempt,
        ),
{
}

/// A replacement is done only once the source was moved or copied onto the
/// destination, and a copy is made only onto a destination that was found
/// absent or was deleted just before.
pub proof fn lemma_done_means_written(attempt: Attempt, succeeded: bool)
    ensures
        after(attempt, succeeded) == Next::Done ==> succeeded && (attempt == Attempt::Rename
            || attempt == Attempt::Copy),
        after(attempt, succeeded) == Next::Try(Attempt::Copy) ==> (attempt == Attempt::Probe
            && !succeeded) || (attempt == Attempt::Remove && succeeded),
{
}

/// Replaces a file step by step. The caller starts with `Attempt::Rename`,
/// makes each attempt, and asks here what follows it.
pub fn replace_file(attempt: Attempt, succeeded: bool) -> (next: Next)
    ensures
        next == after(attempt, succeeded),
{
    match attempt {
        Attempt::Rename => if succeeded {
            Next::Done
        } else {
            Next::Try(Attempt::Probe)
        },
        Attempt::Probe => if succeeded {
            Next::Try(Attempt::Remove)
        } else {
            Next::Try(Attempt::Copy)
        },
        Attempt::Remove => if succeeded {
            Next::Try(Attempt::Copy)
        } else {
            Next::Failed
        },
        Attempt::Copy => if succeeded {
            Next::Done
        } else {
            Next::Failed
        },
    }
}

} // verus!
