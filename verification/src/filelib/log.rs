//! Where the log database is kept.

use crate::errors::ErrorKind;
use crate::filelib::datadir::{joined_path, system_data_dir, under_data_dir};
use vstd::prelude::*;

verus! {

/// The path of the log database below the data directory.
pub open spec fn log_db_relative() -> Seq<char> {
    "XPManager/data/xpm-log.db"@
}

/// The path of the log database: `XPManager/data/xpm-log.db` under the
/// user's data directory. Fails with `SystemDataDirNotFound` where the
/// system names no data directory.
pub fn get_log_db_path() -> (r: Result<String, ErrorKind>)
    ensures
        r matches Ok(path) ==> exists|dir: Seq<char>|
            path@ == #[trigger] joined_path(dir, log_db_relative()),
        r matches Err(e) ==> e == ErrorKind::SystemDataDirNotFound,
{
    let data_dir = system_data_dir();
    let ghost given = data_dir;
    let r = under_data_dir(data_dir, "XPManager/data/xpm-log.db");
    proof {
        if given is Some {
            assert(r.unwrap()@ == joined_path(given.unwrap()@, log_db_relative()));
        }
    }
    r
}

} // verus!
