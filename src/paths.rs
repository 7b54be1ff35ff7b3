use vstd::prelude::*;
use std::path::Path;

verus! {

/// The last component of a path, where it has one.
pub uninterp spec fn file_name_of(p: Seq<char>) -> Option<Seq<char>>;

/// The path without its last component, where it has one.
pub uninterp spec fn parent_of(p: Seq<char>) -> Option<Seq<char>>;

/// The path `rest` taken relative to `base` (or `rest` itself where it is absolute).
pub uninterp spec fn joined(base: Seq<char>, rest: Seq<char>) -> Seq<char>;

/// A single path component naming a file: nonempty, without a separator,
/// and neither `.` nor `..`. Paths here are Unix paths, separated by `/`.
pub open spec fn plain_name(p: Seq<char>) -> bool {
    &&& p.len() > 0
    &&& !p.contains('/')
    &&& p != "."@
    &&& p != ".."@
}

/// A relative path that `base` can be extended by with one separator:
/// both nonempty, `base` not ending and `rest` not starting with `/`.
pub open spec fn joins_plainly(base: Seq<char>, rest: Seq<char>) -> bool {
    &&& base.len() > 0
    &&& base.last() != '/'
    &&& rest.len() > 0
    &&& rest[0] != '/'
}

/// Relies on `std::path::Path::file_name`: the final component of the path,
/// `None` where the path ends in `..` or is a root or empty. A component of a
/// path given as text is text. A path of one plain component is its own
/// file name (`Path::new("foo.txt").file_name() == Some("foo.txt")`); this
/// holds on Unix, where `/` is the only separator (Windows also splits at `\`).
#[verifier::external_body]
pub(crate) fn file_name(p: &str) -> (r: Option<String>)
    ensures
        plain_name(p@) ==> r is Some && r.unwrap()@ == p@,
        r matches Some(n) ==> file_name_of(p@) == Some(n@),
        r is None ==> file_name_of(p@) is None,
{
    Path::new(p).file_name().map(|n| n.to_string_lossy().into_owned())
}

/// Relies on `std::path::Path::parent`: the path without its final
/// component, `None` where the path is a root or empty.
#[verifier::external_body]
pub(crate) fn parent(p: &str) -> (r: Option<String>)
    ensures
        r matches Some(n) ==> parent_of(p@) == Some(n@),
        r is None ==> parent_of(p@) is None,
{
    Path::new(p).parent().map(|n| n.to_string_lossy().into_owned())
}

/// Relies on `std::path::Path::join`: `rest` appended to `base` as a
/// further component, with a separator between (`/tmp` and `file.bk` give
/// `/tmp/file.bk`); an absolute `rest` replaces `base` (`/etc`). The
/// separator clauses are those of Unix (Windows inserts `\`).
#[verifier::external_body]
pub(crate) fn join(base: &str, rest: &str) -> (r: String)
    ensures
        joins_plainly(base@, rest@) ==> r@ == base@ + "/"@ + rest@,
        rest@.len() > 0 && rest@[0] == '/' ==> r@ == rest@,
        r@ == joined(base@, rest@),
{
    Path::new(base).join(rest).to_string_lossy().into_owned()
}

} // verus!
