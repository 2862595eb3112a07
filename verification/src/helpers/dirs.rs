//! Where the registry document lives.

use vstd::prelude::*;
use crate::paths::{join, joined};

verus! {

/// `dirs::data_local_dir`: the directory that the platform and the user's
/// environment name for local application data, as text. Nothing is claimed
/// of the result: it may be absent, and it changes with the environment.
#[verifier::external_body]
fn data_local_dir() -> (dir: Option<String>) {
    match dirs::data_local_dir() {
        Some(path) => path.into_os_string().into_string().ok(),
        None => None,
    }
}

/// The tracker's own directory below the data directory `base`.
pub fn backup_dir_in(base: &str) -> (dir: String)
    ensures
        dir@ == joined(base@, "gabay"@),
{
    join(base, "gabay")
}

/// The tracker's own directory below the user's local data directory, or
/// nothing where the platform names no such directory.
pub fn get_backup_dir() -> (dir: Option<String>)
    ensures
        dir matches Some(text) ==> exists|base: Seq<char>| text@ == joined(base, "gabay"@),
{
    match data_local_dir() {
        Some(base) => {
            let dir = backup_dir_in(base.as_str());
            assert(dir@ == joined(base@, "gabay"@));
            Some(dir)
        },
        None => None,
    }
}

/// The registry document in the tracker's directory `dir`. The caller makes
/// sure that the directory exists.
pub fn get_backup_file(dir: &str) -> (file: String)
    ensures
        file@ == joined(dir@, "backup.json"@),
{
    join(dir, "backup.json")
}

} // verus!
