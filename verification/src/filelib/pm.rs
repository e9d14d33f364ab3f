//! Where the password database is kept, and in which state it is.

use crate::errors::ErrorKind;
use crate::filelib::datadir::{joined_path, system_data_dir, under_data_dir};
use crate::filelib::paths::{encrypt_path_of, make_encrypt_path, FileState};
use vstd::prelude::*;

verus! {

/// The path of the decrypted password database below the data directory.
pub open spec fn passwords_db_relative() -> Seq<char> {
    "XPManager/data/passwords.db"@
}

/// The path of the decrypted password database:
/// `XPManager/data/passwords.db` under the user's data directory. Fails with
/// `SystemDataDirNotFound` where the system names no data directory.
pub fn get_decrypted_db_path() -> (r: Result<String, ErrorKind>)
    ensures
        r matches Ok(path) ==> exists|dir: Seq<char>|
            path@ == #[trigger] joined_path(dir, passwords_db_relative()),
        r matches Err(e) ==> e == ErrorKind::SystemDataDirNotFound,
{
    let data_dir = system_data_dir();
    let ghost given = data_dir;
    let r = under_data_dir(data_dir, "XPManager/data/passwords.db");
    proof {
        if given is Some {
            assert(r.unwrap()@ == joined_path(given.unwrap()@, passwords_db_relative()));
        }
    }
    r
}

/// The path of the encrypted password database: the encrypted path of the
/// decrypted database's path.
pub fn get_encrypted_db_path() -> (r: Result<String, ErrorKind>)
    ensures
        r matches Ok(path) ==> exists|dir: Seq<char>|
            path@ == encrypt_path_of(#[trigger] joined_path(dir, passwords_db_relative())),
        r matches Err(e) ==> e == ErrorKind::SystemDataDirNotFound,
{
    match get_decrypted_db_path() {
        Ok(path) => Ok(make_encrypt_path(path)),
        Err(e) => Err(e),
    }
}

/// The state of the database, given which of its two files exist.
pub open spec fn db_state_of(encrypted_exists: bool, decrypted_exists: bool) -> FileState {
    if encrypted_exists {
        FileState::Encrypted
    } else if decrypted_exists {
        FileState::Decrypted
    } else {
        FileState::NotFound
    }
}

/// The state of the password database: encrypted where the encrypted
/// database exists, else decrypted where the decrypted one exists, else not
/// found.
pub fn db_state(encrypted_exists: bool, decrypted_exists: bool) -> (r: FileState)
    ensures
        r == db_state_of(encrypted_exists, decrypted_exists),
{
    if encrypted_exists {
        FileState::Encrypted
    } else if decrypted_exists {
        FileState::Decrypted
    } else {
        FileState::NotFound
    }
}

/// The lines that warn of a database that lies decrypted.
pub open spec fn encrypt_warnings() -> Seq<Seq<char>> {
    seq![
        "password manager database found NOT encrypted!!"@,
        "please use 'password-manager encrypt' to encrypt it!"@,
    ]
}

/// The warnings to show for a database in the given state: two lines for a
/// decrypted database, none otherwise.
pub fn warning_encrypt_database(state: FileState) -> (r: Vec<String>)
    ensures
        r@.len() == if state == FileState::Decrypted { 2nat } else { 0nat },
        forall|i: int| 0 <= i < r@.len() ==> (#[trigger] r@[i])@ == encrypt_warnings()[i],
{
    let mut lines: Vec<String> = Vec::new();
    if state == FileState::Decrypted {
        lines.push(String::from_str("password manager database found NOT encrypted!!"));
        lines.push(String::from_str("please use 'password-manager encrypt' to encrypt it!"));
    }
    lines
}

} // verus!
