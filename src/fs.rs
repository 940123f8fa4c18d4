//! The filesystem, as the adapter reads it: path names, existence, and the
//! entries of a directory.
use vstd::prelude::*;

verus! {

/// The final component of a path, as `camino` reads it; `None` where the
/// path ends in `..` or is a root.
pub uninterp spec fn path_file_name(p: Seq<char>) -> Option<Seq<char>>;

/// The index of the last `.` of a name.
pub open spec fn last_dot(n: Seq<char>) -> Option<int>
    decreases n.len(),
{
    if n.len() == 0 {
        None
    } else if n.last() == '.' {
        Some(n.len() - 1)
    } else {
        last_dot(n.drop_last())
    }
}

/// The extension of a path: none without a final component, or where its
/// final component has no `.` but a leading one; otherwise the text after
/// the last `.` of the final component.
pub open spec fn path_extension(p: Seq<char>) -> Option<Seq<char>> {
    match path_file_name(p) {
        None => None,
        Some(n) => match last_dot(n) {
            Some(i) => if i > 0 {
                Some(n.subrange(i + 1, n.len() as int))
            } else {
                None
            },
            None => None,
        },
    }
}

/// Relies on `camino::Utf8Path::file_name`: the final component of a path,
/// which depends on the path's text alone.
#[verifier::external_body]
pub(crate) fn file_name(p: &str) -> (r: Option<String>)
    ensures
        match path_file_name(p@) {
            Some(n) => r matches Some(s) && s@ == n,
            None => r is None,
        },
{
    camino::Utf8Path::new(p).file_name().map(|s| s.to_string())
}

/// Relies on `camino::Utf8Path::extension`, which its documentation states
/// over the final component: none without one, none without an embedded
/// `.`, none for a name whose only `.` leads it, else the text after the
/// final `.`.
#[verifier::external_body]
pub(crate) fn extension(p: &str) -> (r: Option<String>)
    ensures
        match path_extension(p@) {
            Some(n) => r matches Some(s) && s@ == n,
            None => r is None,
        },
{
    camino::Utf8Path::new(p).extension().map(|s| s.to_string())
}

/// Relies on `camino::Utf8Path::exists`: whether the path names an existing
/// entry now. Nothing is promised of the answer, which depends on the disk.
#[verifier::external_body]
pub(crate) fn path_exists(p: &str) -> (r: bool) {
    camino::Utf8Path::new(p).exists()
}

/// Relies on `camino::Utf8Path::read_dir_utf8`: the entries of a directory in
/// the order the filesystem gives them, each as its path, or `None` for an
/// entry that could not be read; `None` where the directory could not be
/// listed. Nothing is promised of the listing, which depends on the disk.
#[verifier::external_body]
pub(crate) fn list_directory(p: &str) -> (r: Option<Vec<Option<String>>>) {
    let entries = camino::Utf8Path::new(p).read_dir_utf8().ok()?;
    Some(entries.map(|e| e.ok().map(|e| e.path().to_string())).collect())
}

} // verus!
