//! A file or a directory as a value: what the tracker reads of a path.

use vstd::prelude::*;
use crate::digest::sha256;
use crate::hex::{hex, lemma_hex_injective};
use crate::time::Timestamp;

verus! {

/// A file with its bytes, or a directory with its entries in listing order.
/// Every node carries its own name and modification time.
pub enum Tree {
    File { name: String, modified: Timestamp, content: Vec<u8> },
    Dir { name: String, modified: Timestamp, children: Vec<Tree> },
}

impl Tree {
    /// The name of this node: the last component of its path.
    pub open spec fn spec_name(self) -> Seq<char> {
        match self {
            Tree::File { name, .. } => name@,
            Tree::Dir { name, .. } => name@,
        }
    }

    /// The modification time of this node itself.
    pub open spec fn spec_modified(self) -> Timestamp {
        match self {
            Tree::File { modified, .. } => modified,
            Tree::Dir { modified, .. } => modified,
        }
    }

    /// The name of this node.
    pub fn name(&self) -> (name: &String)
        ensures
            name@ == self.spec_name(),
    {
        match self {
            Tree::File { name, .. } => name,
            Tree::Dir { name, .. } => name,
        }
    }

    /// The modification time of this node itself; for a directory, not that
    /// of anything below it.
    pub fn modified(&self) -> (modified: Timestamp)
        ensures
            modified == self.spec_modified(),
    {
        match self {
            Tree::File { modified, .. } => *modified,
            Tree::Dir { modified, .. } => *modified,
        }
    }

    /// Whether this node is a file.
    pub fn is_file(&self) -> (file: bool)
        ensures
            file == (self is File),
    {
        match self {
            Tree::File { .. } => true,
            Tree::Dir { .. } => false,
        }
    }
}

/// The bytes of a tree as one stream: a file's content; for a directory, the
/// streams of its entries one after the other, in listing order. Names and
/// times are not part of it.
pub open spec fn tree_bytes(tree: Tree) -> Seq<u8>
    decreases tree, 0nat,
{
    match tree {
        Tree::File { content, .. } => content@,
        Tree::Dir { children, .. } => listing_bytes(children, children@.len()),
    }
}

/// The stream of the first `count` entries of a listing.
pub open spec fn listing_bytes(children: Vec<Tree>, count: nat) -> Seq<u8>
    decreases children, count,
{
    if count == 0 || count > children@.len() {
        Seq::empty()
    } else {
        listing_bytes(children, (count - 1) as nat) + tree_bytes(children@[count - 1])
    }
}

/// The number of bytes in the files of a tree; a directory itself adds none.
pub open spec fn tree_size(tree: Tree) -> nat
    decreases tree, 0nat,
{
    match tree {
        Tree::File { content, .. } => content@.len(),
        Tree::Dir { children, .. } => listing_size(children, children@.len()),
    }
}

/// The number of bytes in the files of the first `count` entries of a listing.
pub open spec fn listing_size(children: Vec<Tree>, count: nat) -> nat
    decreases children, count,
{
    if count == 0 || count > children@.len() {
        0
    } else {
        listing_size(children, (count - 1) as nat) + tree_size(children@[count - 1])
    }
}

/// The fingerprint of a byte stream: the hexadecimal text of its SHA-256
/// digest.
pub open spec fn fingerprint_of(stream: Seq<u8>) -> Seq<char> {
    hex(sha256(stream))
}

/// The fingerprint of a tree: that of its stream.
pub open spec fn fingerprint(tree: Tree) -> Seq<char> {
    fingerprint_of(tree_bytes(tree))
}

/// Fingerprints are determined by content alone: two trees with the same
/// stream have the same fingerprint, whatever their names and times are and
/// whenever they are read.
pub proof fn lemma_same_stream_same_fingerprint(first: Tree, second: Tree)
    requires
        tree_bytes(first) == tree_bytes(second),
    ensures
        fingerprint(first) == fingerprint(second),
{
}

/// A stream taken in piece by piece has the fingerprint of the stream taken
/// in at once, wherever the pieces are cut.
pub proof fn lemma_pieces_do_not_matter(pending: Seq<u8>, piece: Seq<u8>, rest: Seq<u8>)
    ensures
        fingerprint_of((pending + piece) + rest) == fingerprint_of(pending + (piece + rest)),
{
    assert((pending + piece) + rest =~= pending + (piece + rest));
}

/// A fingerprint tells two streams apart exactly where their digests do: the
/// text of a digest loses nothing of it.
pub proof fn lemma_fingerprint_as_sharp_as_digest(first: Seq<u8>, second: Seq<u8>)
    ensures
        fingerprint_of(first) == fingerprint_of(second) <==> sha256(first) == sha256(second),
{
    if fingerprint_of(first) == fingerprint_of(second) {
        lemma_hex_injective(sha256(first), sha256(second));
    }
}

/// The stream of a tree is as long as the tree's size.
pub proof fn lemma_stream_length(tree: Tree)
    ensures
        tree_bytes(tree).len() == tree_size(tree),
    decreases tree, 0nat,
{
    match tree {
        Tree::File { .. } => {},
        Tree::Dir { children, .. } => {
            lemma_listing_stream_length(children, children@.len());
        },
    }
}

/// The stream of a listing's first entries is as long as their sizes together.
pub proof fn lemma_listing_stream_length(children: Vec<Tree>, count: nat)
    ensures
        listing_bytes(children, count).len() == listing_size(children, count),
    decreases children, count,
{
    if count == 0 || count > children@.len() {
    } else {
        lemma_listing_stream_length(children, (count - 1) as nat);
        lemma_stream_length(children@[count - 1]);
    }
}

/// The size of a listing's first entries grows with their number.
pub proof fn lemma_listing_size_grows(children: Vec<Tree>, fewer: nat, more: nat)
    requires
        fewer <= more <= children@.len(),
    ensures
        listing_size(children, fewer) <= listing_size(children, more),
    decreases more,
{
    if fewer < more {
        lemma_listing_size_grows(children, fewer, (more - 1) as nat);
    }
}

} // verus!
