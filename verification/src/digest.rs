//! The SHA-256 state that fingerprints are computed with.
//!
//! Nothing here is proved: the items below state what the `sha2` crate does.

use vstd::prelude::*;

verus! {

/// The longest message, in bytes, that SHA-256 takes: its length in bits has
/// to fit in 64 bits.
pub const MAX_INPUT: u64 = 0x1fff_ffff_ffff_ffff;

/// A running SHA-256 computation of the `sha2` crate.
#[verifier::external_body]
pub struct Sha256State {
    inner: sha2::Sha256,
}

/// The bytes that a state has taken in since it was created or last gave a
/// digest, in the order in which they came.
pub uninterp spec fn absorbed(state: Sha256State) -> Seq<u8>;

/// The SHA-256 digest of a message.
pub uninterp spec fn sha256(message: Seq<u8>) -> Seq<u8>;

/// `sha2::Sha256::new` (`Digest::new`): a state that has taken in nothing.
#[verifier::external_body]
pub(crate) fn sha256_new() -> (state: Sha256State)
    ensures
        absorbed(state) == Seq::<u8>::empty(),
{
    Sha256State { inner: <sha2::Sha256 as sha2::Digest>::new() }
}

/// `Digest::update` on `sha2::Sha256`: the state takes in `data` after what it
/// already holds. The block counter of the state is kept within 64 bits by the
/// bound on the total length.
#[verifier::external_body]
pub(crate) fn sha256_update(state: &mut Sha256State, data: &[u8])
    requires
        absorbed(*old(state)).len() + data@.len() <= MAX_INPUT,
    ensures
        absorbed(*final(state)) == absorbed(*old(state)) + data@,
{
    sha2::Digest::update(&mut state.inner, data)
}

/// `Digest::finalize_reset` on `sha2::Sha256`: returns the 32-byte digest of
/// everything taken in, and leaves the state as new. The length in bits that
/// the padding holds is computed in 64 bits, hence the bound.
#[verifier::external_body]
pub(crate) fn sha256_finalize_reset(state: &mut Sha256State) -> (digest: Vec<u8>)
    requires
        absorbed(*old(state)).len() <= MAX_INPUT,
    ensures
        digest@ == sha256(absorbed(*old(state))),
        digest@.len() == 32,
        absorbed(*final(state)) == Seq::<u8>::empty(),
{
    sha2::Digest::finalize_reset(&mut state.inner).to_vec()
}

} // verus!
