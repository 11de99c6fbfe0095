use vstd::prelude::*;

verus! {

/// `name` appended to `base` as a path component.
pub uninterp spec fn path_join(base: Seq<char>, name: Seq<char>) -> Seq<char>;

/// Relies on std::path::Path::join: `name` appended to `base` as a path
/// component (both being UTF-8, so is the result).
#[verifier::external_body]
pub(crate) fn join_path(base: &str, name: &str) -> (r: String)
    ensures
        r@ == path_join(base@, name@),
{
    std::path::Path::new(base).join(name).to_string_lossy().into_owned()
}

} // verus!
