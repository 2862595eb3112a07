//! Fingerprints and metadata of files and directory trees.

pub mod dirs;
pub mod fs;

use vstd::prelude::*;
use crate::digest::{absorbed, sha256_finalize_reset, sha256_new, sha256_update, Sha256State, MAX_INPUT};
use crate::hex::encode;
use crate::time::Timestamp;
use crate::tree::{
    fingerprint_of, lemma_listing_size_grows, lemma_listing_stream_length, lemma_stream_length,
    listing_bytes, listing_size, tree_bytes, tree_size, Tree,
};

verus! {

/// Computes fingerprints. One hasher serves any number of paths in turn:
/// giving a fingerprint leaves it as new.
pub struct Hasher {
    hasher: Sha256State,
    processed: u64,
}

impl Hasher {
    /// The bytes taken in since the hasher was created or last gave a
    /// fingerprint.
    pub closed spec fn pending(&self) -> Seq<u8> {
        absorbed(self.hasher)
    }

    /// The hasher's count of bytes agrees with what it has taken in, which is
    /// no more than SHA-256 takes.
    pub closed spec fn wf(&self) -> bool {
        &&& self.processed == self.pending().len()
        &&& self.pending().len() <= MAX_INPUT
    }

    /// A hasher that has taken in nothing.
    pub fn new() -> (hasher: Self)
        ensures
            hasher.wf(),
            hasher.pending() == Seq::<u8>::empty(),
    {
        Self { hasher: sha256_new(), processed: 0 }
    }

    /// How many bytes went in since the last fingerprint: the progress of the
    /// one being computed.
    pub fn processed(&self) -> (count: u64)
        requires
            self.wf(),
        ensures
            count == self.pending().len(),
    {
        self.processed
    }

    /// Whether `more` further bytes are within what the hasher can still take.
    pub fn has_room(&self, more: u64) -> (room: bool)
        requires
            self.wf(),
        ensures
            room == (self.pending().len() + more <= MAX_INPUT),
    {
        more <= MAX_INPUT - self.processed
    }

    /// Takes in `content` after what is pending.
    fn feed(&mut self, content: &[u8])
        requires
            old(self).wf(),
            old(self).pending().len() + content@.len() <= MAX_INPUT,
        ensures
            final(self).wf(),
            final(self).pending() == old(self).pending() + content@,
    {
        sha256_update(&mut self.hasher, content);
        self.processed = self.processed + content.len() as u64;
    }

    /// Gives the fingerprint of what is pending and starts afresh.
    fn finish(&mut self) -> (hash: String)
        requires
            old(self).wf(),
        ensures
            final(self).wf(),
            final(self).pending() == Seq::<u8>::empty(),
            hash@ == fingerprint_of(old(self).pending()),
            hash@.len() == 64,
    {
        let digest = sha256_finalize_reset(&mut self.hasher);
        self.processed = 0;
        encode(digest.as_slice())
    }

    /// Takes in one piece of a file's content. With `finalize` the piece is
    /// the last one: the result is the fingerprint of everything pending and
    /// the hasher starts afresh. Without it the result is empty and the piece
    /// stays pending, so that a file fed in pieces of any size has the
    /// fingerprint of the file fed at once.
    pub fn hash_file(&mut self, content: &[u8], finalize: bool) -> (hash: String)
        requires
            old(self).wf(),
            old(self).pending().len() + content@.len() <= MAX_INPUT,
        ensures
            final(self).wf(),
            finalize ==> hash@ == fingerprint_of(old(self).pending() + content@),
            finalize ==> hash@.len() == 64,
            finalize ==> final(self).pending() == Seq::<u8>::empty(),
            !finalize ==> hash@ == Seq::<char>::empty(),
            !finalize ==> final(self).pending() == old(self).pending() + content@,
    {
        self.feed(content);
        if finalize {
            return self.finish();
        }
        String::new()
    }

    /// Takes in a whole tree: a file's content, or the entries of a directory
    /// one after the other, directories among them in depth.
    fn feed_tree(&mut self, tree: &Tree)
        requires
            old(self).wf(),
            old(self).pending().len() + tree_size(*tree) <= MAX_INPUT,
        ensures
            final(self).wf(),
            final(self).pending() == old(self).pending() + tree_bytes(*tree),
        decreases tree, 1nat,
    {
        proof {
            lemma_stream_length(*tree);
        }
        match tree {
            Tree::File { content, .. } => {
                self.feed(content.as_slice());
            },
            Tree::Dir { children, .. } => {
                self.feed_listing(children);
            },
        }
    }

    /// Takes in the entries of a directory in listing order.
    fn feed_listing(&mut self, children: &Vec<Tree>)
        requires
            old(self).wf(),
            old(self).pending().len() + listing_size(*children, children@.len()) <= MAX_INPUT,
        ensures
            final(self).wf(),
            final(self).pending() == old(self).pending() + listing_bytes(
                *children,
                children@.len(),
            ),
        decreases children, 2nat,
    {
        let mut i: usize = 0;
        while i < children.len()
            invariant
                i <= children.len(),
                self.wf(),
                old(self).pending().len() + listing_size(*children, children@.len()) <= MAX_INPUT,
                self.pending() == old(self).pending() + listing_bytes(*children, i as nat),
            decreases children.len() - i,
        {
            proof {
                lemma_listing_stream_length(*children, i as nat);
                lemma_listing_size_grows(*children, (i + 1) as nat, children@.len());
            }
            self.feed_tree(&children[i]);
            i += 1;
        }
    }

    /// The fingerprint of a file or directory: `hash_file` on the whole
    /// content of a file, `hash_dir` on the entries of a directory.
    pub fn hash_path(&mut self, path: &Tree) -> (hash: String)
        requires
            old(self).wf(),
            old(self).pending().len() + tree_size(*path) <= MAX_INPUT,
        ensures
            final(self).wf(),
            final(self).pending() == Seq::<u8>::empty(),
            hash@ == fingerprint_of(old(self).pending() + tree_bytes(*path)),
            hash@.len() == 64,
    {
        match path {
            Tree::File { content, .. } => self.hash_file(content.as_slice(), true),
            Tree::Dir { children, .. } => self.hash_dir(children),
        }
    }

    /// The fingerprint of a directory, given its entries in listing order.
    /// Files are fed into one digest as one stream, directories among the
    /// entries in depth, and the digest is taken once at the end. The hasher
    /// starts afresh afterwards.
    ///
    /// The order of the entries is part of the result. Where fingerprints
    /// have to agree between machines, hand the entries over in a fixed
    /// order, such as sorted by the bytes of their names.
    pub fn hash_dir(&mut self, children: &Vec<Tree>) -> (hash: String)
        requires
            old(self).wf(),
            old(self).pending().len() + listing_size(*children, children@.len()) <= MAX_INPUT,
        ensures
            final(self).wf(),
            final(self).pending() == Seq::<u8>::empty(),
            hash@ == fingerprint_of(
                old(self).pending() + listing_bytes(*children, children@.len()),
            ),
            hash@.len() == 64,
    {
        self.feed_listing(children);
        self.finish()
    }
}

/// Size and modification time of a path.
#[derive(Clone, Copy, Debug, PartialEq, Eq, Structural)]
pub struct Metadata {
    pub size: u64,
    pub last_modified: Timestamp,
}

/// The metadata of a tree: the bytes of all files in it, and the modification
/// time of its root. For a directory that is the directory's own time, not
/// the latest time below it.
pub open spec fn metadata_of(tree: Tree) -> Metadata
    recommends
        tree_size(tree) <= u64::MAX,
{
    Metadata { size: tree_size(tree) as u64, last_modified: tree.spec_modified() }
}

/// The metadata of `path`, or nothing where its size does not fit in 64 bits.
pub fn get_metadata(path: &Tree) -> (metadata: Option<Metadata>)
    ensures
        tree_size(*path) <= u64::MAX ==> metadata == Some(metadata_of(*path)),
        tree_size(*path) > u64::MAX ==> metadata is None,
{
    match get_path_size(path) {
        Some(size) => Some(Metadata { size, last_modified: path.modified() }),
        None => None,
    }
}

/// The number of bytes in the files of `path`, directories adding nothing of
/// their own, or nothing where the sum does not fit in 64 bits.
pub fn get_path_size(path: &Tree) -> (size: Option<u64>)
    ensures
        tree_size(*path) <= u64::MAX ==> size == Some(tree_size(*path) as u64),
        tree_size(*path) > u64::MAX ==> size is None,
    decreases path,
{
    match path {
        Tree::File { content, .. } => Some(content.len() as u64),
        Tree::Dir { children, .. } => {
            let mut size: u64 = 0;
            let mut i: usize = 0;
            while i < children.len()
                invariant
                    i <= children.len(),
                    path is Dir,
                    path->children == *children,
                    size == listing_size(*children, i as nat),
                decreases children.len() - i,
            {
                proof {
                    assert(decreases_to!(*children => children[i as int]));
                    lemma_listing_size_grows(*children, (i + 1) as nat, children@.len());
                }
                match get_path_size(&children[i]) {
                    Some(entry) => {
                        match size.checked_add(entry) {
                            Some(sum) => {
                                size = sum;
                            },
                            None => {
                                return None;
                            },
                        }
                    },
                    None => {
                        return None;
                    },
                }
                i += 1;
            }
            Some(size)
        },
    }
}

} // verus!
