//! The user's data directory, under which the databases are kept.

use crate::errors::ErrorKind;
use vstd::prelude::*;

verus! {

/// The text of the path that `std::path::Path::join` makes of a base path
/// and a path to adjoin, on the platform that the crate is built for.
pub uninterp spec fn joined_path(base: Seq<char>, relative: Seq<char>) -> Seq<char>;

/// Calls `dirs::data_dir`, which reads the user's data directory from the
/// environment, and hands its text back. `None` where the system names no
/// such directory, or names one whose path is no Unicode text. The result
/// depends on the environment, so nothing is claimed of it.
#[verifier::external_body]
pub(crate) fn system_data_dir() -> (r: Option<String>) {
    dirs::data_dir()?.into_os_string().into_string().ok()
}

/// Calls `std::path::Path::join` on the base with the path to adjoin, and
/// hands the text of the joined path back.
#[verifier::external_body]
pub(crate) fn join_path(base: &str, relative: &str) -> (r: String)
    ensures
        r@ == joined_path(base@, relative@),
{
    std::path::Path::new(base).join(relative).to_string_lossy().into_owned()
}

/// Judges what the system gave for the data directory: the path of
/// `relative` under it, or `SystemDataDirNotFound` where it gave none.
pub fn under_data_dir(data_dir: Option<String>, relative: &str) -> (r: Result<String, ErrorKind>)
    ensures
        match data_dir {
            Some(dir) => r is Ok && r.unwrap()@ == joined_path(dir@, relative@),
            None => r == Err::<String, ErrorKind>(ErrorKind::SystemDataDirNotFound),
        },
{
    match data_dir {
        Some(dir) => Ok(join_path(dir.as_str(), relative)),
        None => Err(ErrorKind::SystemDataDirNotFound),
    }
}

} // verus!
