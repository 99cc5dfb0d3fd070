use vstd::prelude::*;

verus! {

/// The parent of a path, as `std::path::Path::parent` computes it, or `None` when the path
/// terminates in a root or a prefix (or is empty).
pub uninterp spec fn path_parent(p: Seq<char>) -> Option<Seq<char>>;

/// The final component of a path, as `std::path::Path::file_name` computes it, or `None`
/// when the path terminates in `..` or is a root.
pub uninterp spec fn path_file_name(p: Seq<char>) -> Option<Seq<char>>;

/// The path that `std::path::PathBuf::push` builds from `base` and `name`.
pub uninterp spec fn path_join(base: Seq<char>, name: Seq<char>) -> Seq<char>;

/// Calls `std::path::Path::parent`. The contract claims that the result is the named parent
/// of the path.
#[verifier::external_body]
pub(crate) fn parent_of(p: &str) -> (r: Option<String>)
    ensures
        r is Some <==> path_parent(p@) is Some,
        r matches Some(s) ==> s@ == path_parent(p@)->Some_0,
{
    match std::path::Path::new(p).parent() {
        Some(q) => Some(q.to_string_lossy().into_owned()),
        None => None,
    }
}

/// Calls `std::path::Path::file_name`. The contract claims that the result is the named final
/// component of the path.
#[verifier::external_body]
pub(crate) fn file_name_of(p: &str) -> (r: Option<String>)
    ensures
        r is Some <==> path_file_name(p@) is Some,
        r matches Some(s) ==> s@ == path_file_name(p@)->Some_0,
{
    match std::path::Path::new(p).file_name() {
        Some(q) => Some(q.to_string_lossy().into_owned()),
        None => None,
    }
}

/// Calls `std::path::PathBuf::push`. The contract claims that the result is the named join of
/// the two paths.
#[verifier::external_body]
pub(crate) fn join_path(base: &str, name: &str) -> (r: String)
    ensures
        r@ == path_join(base@, name@),
{
    let mut b = std::path::PathBuf::from(base);
    b.push(name);
    b.to_string_lossy().into_owned()
}

} // verus!
