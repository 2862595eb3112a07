//! Forgetting everything.

use vstd::prelude::*;
use crate::error::Error;

verus! {

/// Decides whether the registry document can be deleted: it has to exist.
/// Deleting it is left to the caller.
pub fn start(document_exists: bool) -> (outcome: Result<(), Error>)
    ensures
        document_exists ==> outcome == Ok::<(), Error>(()),
        !document_exists ==> outcome == Err::<(), Error>(Error::RegistryMissing),
{
    if document_exists {
        Ok(())
    } else {
        Err(Error::RegistryMissing)
    }
}

} // verus!
