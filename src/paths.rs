use vstd::prelude::*;

verus! {

/// The path that leads from `base` to `path`, as pathdiff computes it from
/// the two paths' components alone.
pub uninterp spec fn path_diff(path: Seq<char>, base: Seq<char>) -> Option<Seq<char>>;

/// The path without its final component, as `Path::parent` gives it.
pub uninterp spec fn parent_of(path: Seq<char>) -> Option<Seq<char>>;

/// The final component of the path, as `Path::file_name` gives it.
pub uninterp spec fn file_name_of(path: Seq<char>) -> Option<Seq<char>>;

pub open spec fn opt_view(o: Option<String>) -> Option<Seq<char>> {
    match o {
        Some(s) => Some(s@),
        None => None,
    }
}

/// Relies on pathdiff::diff_paths: the relative path from `base` to `path`,
/// or none where no such path can be formed.
#[verifier::external_body]
fn diff_paths(path: &str, base: &str) -> (r: Option<String>)
    ensures
        opt_view(r) == path_diff(path@, base@),
{
    pathdiff::diff_paths(path, base).map(|p| p.to_string_lossy().into_owned())
}

/// Relies on std::path::Path::parent: the directory part of `path`, none for
/// a root or an empty path.
#[verifier::external_body]
fn parent_dir(path: &str) -> (r: Option<String>)
    ensures
        opt_view(r) == parent_of(path@),
{
    std::path::Path::new(path).parent().map(|p| p.to_string_lossy().into_owned())
}

/// Relies on std::path::Path::file_name: the last component of `path`, none
/// when it ends in `..` or is a root.
#[verifier::external_body]
pub(crate) fn file_name(path: &str) -> (r: Option<String>)
    ensures
        opt_view(r) == file_name_of(path@),
{
    std::path::Path::new(path).file_name().map(|n| n.to_string_lossy().into_owned())
}

/// What `relative_path` gives: the relative path where one exists, else the
/// target itself.
pub open spec fn relative_spec(base_dir: Seq<char>, target: Seq<char>) -> Seq<char> {
    match path_diff(target, base_dir) {
        Some(d) => d,
        None => target,
    }
}

/// The path of `target` relative to the directory `base_dir`; where none can
/// be formed, `target` as given.
pub fn relative_path(base_dir: &str, target: &str) -> (r: String)
    ensures
        r@ == relative_spec(base_dir@, target@),
{
    match diff_paths(target, base_dir) {
        Some(d) => d,
        None => target.to_owned(),
    }
}

/// What `document_relative` gives.
pub open spec fn document_relative_spec(document: Seq<char>, folder: Seq<char>) -> Seq<char> {
    match parent_of(document) {
        Some(dir) => relative_spec(dir, folder),
        None => folder,
    }
}

/// The path of `folder` relative to the directory that holds the file
/// `document`; `folder` as given where the document has no directory part.
pub fn document_relative(document: &str, folder: &str) -> (r: String)
    ensures
        r@ == document_relative_spec(document@, folder@),
{
    match parent_dir(document) {
        Some(dir) => relative_path(dir.as_str(), folder),
        None => folder.to_owned(),
    }
}

} // verus!
