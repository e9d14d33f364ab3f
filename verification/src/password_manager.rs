//! Encrypting and decrypting the password database.

use crate::encryption_manager::cipher::key_accepted;
use crate::encryption_manager::container::starts_with_block;
use crate::encryption_manager::decrypt_file::{
    decrypt, lemma_plain_of_errors, plain_of, DecryptedFile,
};
use crate::encryption_manager::encrypt_file::{encodes, encrypt, EncryptedFile};
use crate::errors::{ErrorKind, Failure};
use crate::filelib::datadir::joined_path;
use crate::filelib::paths::{decrypt_path_of, encrypt_path_of, make_encrypt_path};
use crate::filelib::pm::{get_decrypted_db_path, passwords_db_relative};
use crate::filelib::wipe::{standard_passes, Wipe, WipeStage};
use vstd::prelude::*;

verus! {

/// The password database as contracts see it.
pub struct PMDatabaseView {
    pub en_path: Seq<char>,
    pub de_path: Seq<char>,
    pub key: Seq<char>,
}

/// The two paths of the password database and the key that it is
/// encrypted and decrypted with.
pub struct PMDatabaseEncrption {
    en_path: String,
    de_path: String,
    key: String,
}

impl View for PMDatabaseEncrption {
    type V = PMDatabaseView;

    closed spec fn view(&self) -> PMDatabaseView {
        PMDatabaseView { en_path: self.en_path@, de_path: self.de_path@, key: self.key@ }
    }
}

/// What is to be done to finish a step on the database: a file to write
/// and the erasure of the file that it replaces.
pub struct Replacement<F> {
    pub file: F,
    pub wipe: Wipe,
}

impl PMDatabaseEncrption {
    /// The database at its place under the user's data directory, with no
    /// key yet. Fails with `SystemDataDirNotFound` where the system names no
    /// data directory.
    pub fn new() -> (r: Result<PMDatabaseEncrption, ErrorKind>)
        ensures
            r matches Ok(db) ==> db@.key.len() == 0 && exists|dir: Seq<char>|
                db@.de_path == #[trigger] joined_path(dir, passwords_db_relative())
                    && db@.en_path == encrypt_path_of(db@.de_path),
            r matches Err(e) ==> e == ErrorKind::SystemDataDirNotFound,
    {
        match get_decrypted_db_path() {
            Ok(de_path) => {
                let en_path = make_encrypt_path(de_path.clone());
                Ok(PMDatabaseEncrption { en_path, de_path, key: String::new() })
            },
            Err(e) => Err(e),
        }
    }

    /// The path of the encrypted database.
    pub fn en_path(&self) -> (r: &String)
        ensures
            r@ == self@.en_path,
    {
        &self.en_path
    }

    /// The path of the decrypted database.
    pub fn de_path(&self) -> (r: &String)
        ensures
            r@ == self@.de_path,
    {
        &self.de_path
    }

    /// The key held.
    pub fn key(&self) -> (r: &String)
        ensures
            r@ == self@.key,
    {
        &self.key
    }

    /// Sets the key: the given one, or what the user entered where none is
    /// given.
    pub fn set_key(&mut self, key: Option<String>, entered: String)
        ensures
            final(self)@.en_path == old(self)@.en_path,
            final(self)@.de_path == old(self)@.de_path,
            final(self)@.key == match key {
                Some(given) => given@,
                None => entered@,
            },
    {
        match key {
            Some(given) => {
                self.key = given;
            },
            None => {
                self.key = entered;
            },
        }
    }

    /// Encrypts the database. `content` is what the decrypted database
    /// holds. The result is the container to write at the encrypted path,
    /// and the erasure of the decrypted database to run after that.
    pub fn encrypt(&self, content: &[u8]) -> (r: Result<Replacement<EncryptedFile>, Failure>)
        ensures
            r is Ok <==> self@.key.len() == 0 || key_accepted(self@.key),
            r matches Ok(step) ==> {
                &&& key_accepted(step.file.key@)
                &&& self@.key.len() > 0 ==> step.file.key@ == self@.key
                &&& step.file.path@ == encrypt_path_of(self@.de_path)
                &&& encodes(step.file.key@, content@, step.file.container@)
                &&& step.wipe@.path == self@.de_path
                &&& step.wipe@.plan == standard_passes()
                &&& step.wipe@.stage == WipeStage::Idle
            },
            r matches Err(failure) ==> failure.kind == ErrorKind::InvalidKey && failure.path@
                == self@.de_path,
    {
        match encrypt(self.de_path.clone(), content, self.key.clone()) {
            Ok(file) => Ok(Replacement { file, wipe: Wipe::new(self.de_path.clone()) }),
            Err(e) => Err(e),
        }
    }

    /// Decrypts the database with the key that the user entered. `container`
    /// is what the encrypted database holds. The result is the plaintext to
    /// write at the decrypted path, and the erasure of the encrypted database
    /// to run after that.
    pub fn decrypt(&mut self, entered: String, container: &[u8]) -> (r: Result<
        Replacement<DecryptedFile>,
        Failure,
    >)
        ensures
            final(self)@.en_path == old(self)@.en_path,
            final(self)@.de_path == old(self)@.de_path,
            final(self)@.key == entered@,
            !key_accepted(entered@) <==> (r matches Err(failure) && failure.kind
                == ErrorKind::InvalidKey),
            r matches Err(failure) ==> failure.path@ == old(self)@.en_path,
            r matches Ok(step) ==> {
                &&& step.file.path@ == decrypt_path_of(old(self)@.en_path)
                &&& plain_of(entered@, container@) == Ok::<Seq<u8>, ErrorKind>(step.file.content@)
                &&& step.wipe@.path == old(self)@.en_path
                &&& step.wipe@.plan == standard_passes()
                &&& step.wipe@.stage == WipeStage::Idle
            },
            key_accepted(entered@) ==> match plain_of(entered@, container@) {
                Ok(plain) => r is Ok || (r matches Err(failure) && failure.kind
                    == ErrorKind::DecryptFailed && starts_with_block(container@)),
                Err(kind) => r matches Err(failure) && (failure.kind == kind || failure.kind
                    == ErrorKind::DecryptFailed && starts_with_block(container@)),
            },
    {
        self.set_key(None, entered);
        proof {
            lemma_plain_of_errors(entered@, container@);
        }
        match decrypt(self.en_path.clone(), container, self.key.clone()) {
            Ok(file) => Ok(Replacement { file, wipe: Wipe::new(self.en_path.clone()) }),
            Err(e) => Err(e),
        }
    }
}

} // verus!
