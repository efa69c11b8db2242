//! File-system paths, held as text.

use vstd::prelude::*;

verus! {

/// What `std::path::Path::join` makes of `base` and `name` on this platform,
/// as text.
pub uninterp spec fn joined_path(base: Seq<char>, name: Seq<char>) -> Seq<char>;

/// `std::path::Path::join`: `name` appended to the path `base` with this
/// platform's separator (or `name` alone when it is absolute). Both are valid
/// UTF-8, so the text of the joined path loses nothing.
#[verifier::external_body]
pub(crate) fn join_path(base: &str, name: &str) -> (r: String)
    ensures
        r@ == joined_path(base@, name@),
{
    std::path::Path::new(base).join(name).to_string_lossy().into_owned()
}

} // verus!
