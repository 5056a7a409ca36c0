//! Where the declarative logic state is saved: one file per install, beside
//! the story saves.

use vstd::prelude::*;
use std::path::Path;

verus! {

/// `std::path::Path::join` on two paths given as text, its result as text:
/// `name` appended to `dir` as a new component (or replacing it when `name`
/// is absolute).
pub uninterp spec fn path_join(dir: Seq<char>, name: Seq<char>) -> Seq<char>;

/// `std::path::Path::join` of two text paths. Joining text paths yields text,
/// so the conversion back loses nothing; the contract names the result and
/// claims nothing more of it.
#[verifier::external_body]
fn join_text(dir: &str, name: &str) -> (r: String)
    ensures
        r@ == path_join(dir@, name@),
{
    Path::new(dir).join(name).to_string_lossy().into_owned()
}

/// The name of the logic state file inside a save directory.
pub const STATE_FILE_NAME: &'static str = "state";

/// The logic state file inside a save directory.
pub fn state_file(dir: &str) -> (r: String)
    ensures
        r@ == path_join(dir@, STATE_FILE_NAME@),
{
    join_text(dir, STATE_FILE_NAME)
}

} // verus!
