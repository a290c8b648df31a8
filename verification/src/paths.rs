//! Paths are held as text; what `std::path` computes on them is reached
//! through the items here. Each result is named: std computes it by the
//! rules of the platform that the crate is built for, and nothing more is
//! claimed of it.
use vstd::prelude::*;

verus! {

/// What `Path::new(base).join(name)` renders as text.
pub uninterp spec fn joined_path(base: Seq<char>, name: Seq<char>) -> Seq<char>;

/// What `Path::new(p).parent()` renders as text (`None` at a root or for
/// the empty path).
pub uninterp spec fn parent_path(p: Seq<char>) -> Option<Seq<char>>;

/// What `Path::new(p).file_name()` renders as text.
pub uninterp spec fn file_name_part(p: Seq<char>) -> Option<Seq<char>>;

/// The final component of `p`, or the empty text where there is none.
pub open spec fn file_name_of(p: Seq<char>) -> Seq<char> {
    match file_name_part(p) {
        Some(n) => n,
        None => Seq::empty(),
    }
}

/// Whether `Path::new(a) == Path::new(b)` (paths compare by component).
pub uninterp spec fn same_path(a: Seq<char>, b: Seq<char>) -> bool;

/// What `Path::new(name).extension()` gives, or the empty text where it
/// gives `None`.
pub uninterp spec fn extension_of(name: Seq<char>) -> Seq<char>;

/// A name that every platform reads as one plain path component: not
/// empty, not `.` or `..`, and free of `/`, `\\` and `:`.
pub open spec fn plain_component(name: Seq<char>) -> bool {
    &&& name.len() > 0
    &&& name != "."@
    &&& name != ".."@
    &&& !name.contains('/')
    &&& !name.contains('\\')
    &&& !name.contains(':')
}

/// A name that the platform reads as one normal path component: a plain
/// component, or any name that is its own final component.
pub open spec fn one_component(name: Seq<char>) -> bool {
    plain_component(name) || file_name_part(name) == Some(name)
}

/// Calls `Path::join`; the contract names its result `joined_path`, and
/// claims, as `Path::join`, `Path::parent` and `Path::file_name` document,
/// that joining a name that is one normal component appends it (after a
/// separator where the base lacks one): the result's final component is
/// that name, its parent is the base (as paths compare), and its text is
/// longer than the base's.
#[verifier::external_body]
pub(crate) fn path_join(base: &str, name: &str) -> (p: String)
    ensures
        p@ == joined_path(base@, name@),
        one_component(name@) ==> parent_path(p@) is Some && same_path(parent_path(p@)->0, base@),
        one_component(name@) ==> file_name_part(p@) == Some(name@),
        one_component(name@) ==> p@.len() > base@.len(),
{
    std::path::Path::new(base).join(name).to_string_lossy().into_owned()
}

/// Calls `Path::parent`; the contract names its result `parent_path`.
#[verifier::external_body]
pub(crate) fn path_parent(p: &str) -> (r: Option<String>)
    ensures
        r is Some <==> parent_path(p@) is Some,
        r is Some ==> r->0@ == parent_path(p@)->0,
{
    match std::path::Path::new(p).parent() {
        Some(q) => Some(q.to_string_lossy().into_owned()),
        None => None,
    }
}

/// Calls `Path::file_name`; the contract names its result `file_name_part`.
#[verifier::external_body]
pub(crate) fn path_file_name_part(p: &str) -> (r: Option<String>)
    ensures
        r is Some <==> file_name_part(p@) is Some,
        r is Some ==> r->0@ == file_name_part(p@)->0,
{
    match std::path::Path::new(p).file_name() {
        Some(n) => Some(n.to_string_lossy().into_owned()),
        None => None,
    }
}

/// The final component of `p`, or the empty text where there is none.
pub fn path_file_name(p: &str) -> (r: String)
    ensures
        r@ == file_name_of(p@),
{
    match path_file_name_part(p) {
        Some(n) => n,
        None => String::new(),
    }
}

/// Calls `<Path as PartialEq>::eq`; the contract names its result
/// `same_path`, and claims that a path equals itself (`Path` is `Eq`).
#[verifier::external_body]
pub(crate) fn path_eq(a: &str, b: &str) -> (r: bool)
    ensures
        r == same_path(a@, b@),
        a@ == b@ ==> r,
{
    std::path::Path::new(a) == std::path::Path::new(b)
}

/// Calls `Path::extension`; the contract names its result `extension_of`.
#[verifier::external_body]
pub(crate) fn path_extension(name: &str) -> (r: String)
    ensures
        r@ == extension_of(name@),
{
    match std::path::Path::new(name).extension() {
        Some(x) => x.to_string_lossy().into_owned(),
        None => String::new(),
    }
}

} // verus!
