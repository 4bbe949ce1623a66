//! Path and URL operations of `std::path` and `url`.

use vstd::prelude::*;

verus! {

#[verifier::external_type_specification]
#[verifier::external_body]
pub struct ExParseError(url::ParseError);

/// The parent of a path, as `Path::parent` gives it.
pub uninterp spec fn parent_of(p: Seq<char>) -> Option<Seq<char>>;

/// The file stem of a path, as `Path::file_stem` gives it.
pub uninterp spec fn file_stem_of(p: Seq<char>) -> Option<Seq<char>>;

/// The extension of a path, as `Path::extension` gives it.
pub uninterp spec fn extension_of(p: Seq<char>) -> Option<Seq<char>>;

/// `tail` joined onto `base`, as `Path::join` gives it.
pub uninterp spec fn joined_path(base: Seq<char>, tail: Seq<char>) -> Seq<char>;

/// Whether a path is absolute, as `Path::is_absolute` says.
pub uninterp spec fn is_absolute_path(p: Seq<char>) -> bool;

/// Whether `Url::parse` accepts a string.
pub uninterp spec fn url_parses(s: Seq<char>) -> bool;

/// The path component of the URL that `Url::parse` makes of a string.
pub uninterp spec fn url_path_of(s: Seq<char>) -> Seq<char>;

/// The view of an optional string.
pub open spec fn opt_view(o: Option<String>) -> Option<Seq<char>> {
    match o {
        Some(s) => Some(s@),
        None => None,
    }
}

/// Relies on std::path::Path::parent.
#[verifier::external_body]
pub(crate) fn path_parent(p: &str) -> (r: Option<String>)
    ensures
        opt_view(r) == parent_of(p@),
{
    match std::path::Path::new(p).parent() {
        Some(q) => Some(q.to_string_lossy().into_owned()),
        None => None,
    }
}

/// Relies on std::path::Path::file_stem.
#[verifier::external_body]
pub(crate) fn path_file_stem(p: &str) -> (r: Option<String>)
    ensures
        opt_view(r) == file_stem_of(p@),
{
    match std::path::Path::new(p).file_stem() {
        Some(q) => Some(q.to_string_lossy().into_owned()),
        None => None,
    }
}

/// Relies on std::path::Path::extension.
#[verifier::external_body]
pub(crate) fn path_extension(p: &str) -> (r: Option<String>)
    ensures
        opt_view(r) == extension_of(p@),
{
    match std::path::Path::new(p).extension() {
        Some(q) => Some(q.to_string_lossy().into_owned()),
        None => None,
    }
}

/// Relies on std::path::Path::join.
#[verifier::external_body]
pub(crate) fn path_join(base: &str, tail: &str) -> (r: String)
    ensures
        r@ == joined_path(base@, tail@),
{
    std::path::Path::new(base).join(tail).to_string_lossy().into_owned()
}

/// Relies on std::path::Path::is_absolute.
#[verifier::external_body]
pub(crate) fn path_is_absolute(p: &str) -> (r: bool)
    ensures
        r == is_absolute_path(p@),
{
    std::path::Path::new(p).is_absolute()
}

/// Relies on url::Url::parse, and on url::Url::path for the path component
/// of the URL that it returns.
#[verifier::external_body]
pub(crate) fn url_path(s: &str) -> (r: Result<String, url::ParseError>)
    ensures
        r is Ok <==> url_parses(s@),
        r matches Ok(p) ==> p@ == url_path_of(s@),
{
    match url::Url::parse(s) {
        Ok(u) => Ok(u.path().to_string()),
        Err(e) => Err(e),
    }
}

} // verus!
