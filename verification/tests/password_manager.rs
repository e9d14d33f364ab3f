use std::path::PathBuf;
use xpmanager::errors::ErrorKind;
use xpmanager::filelib::WipeStage;
use xpmanager::password_manager::PMDatabaseEncrption;

#[test]
fn database_paths_are_a_pair() {
    let db = PMDatabaseEncrption::new().unwrap();
    let dir = dirs::data_dir().unwrap();
    assert_eq!(PathBuf::from(db.de_path()), dir.join("XPManager/data/passwords.db"));
    assert_eq!(PathBuf::from(db.en_path()), dir.join("XPManager/data/passwords.db.x"));
    assert_eq!(*db.en_path(), format!("{}.x", db.de_path()));
    assert_eq!(db.key(), "");
}

#[test]
fn set_key_takes_the_given_key_or_the_entered_one() {
    let mut db = PMDatabaseEncrption::new().unwrap();
    db.set_key(Some("given".to_string()), "entered".to_string());
    assert_eq!(db.key(), "given");
    db.set_key(None, "entered".to_string());
    assert_eq!(db.key(), "entered");
    db.set_key(Some(String::new()), "entered".to_string());
    assert_eq!(db.key(), "");
}

#[test]
fn database_is_encrypted_and_decrypted_again() {
    let mut db = PMDatabaseEncrption::new().unwrap();
    let key = fernet::Fernet::generate_key();
    db.set_key(Some(key.clone()), String::new());
    let content = b"SQLite format 3\0 and so on".to_vec();

    let step = db.encrypt(&content).unwrap();
    assert_eq!(step.file.key, key);
    assert_eq!(step.file.path, *db.en_path());
    assert_eq!(step.wipe.path(), db.de_path());
    assert_eq!(step.wipe.stage(), WipeStage::Idle);

    let back = db.decrypt(key.clone(), &step.file.container).unwrap();
    assert_eq!(back.file.content, content);
    assert_eq!(back.file.path, *db.de_path());
    assert_eq!(back.wipe.path(), db.en_path());
    assert_eq!(back.wipe.stage(), WipeStage::Idle);
    assert_eq!(*db.key(), key);
}

#[test]
fn database_with_a_bad_key_is_refused() {
    let mut db = PMDatabaseEncrption::new().unwrap();
    db.set_key(Some("bad".to_string()), String::new());
    let failure = db.encrypt(b"data").err().unwrap();
    assert_eq!(failure.kind, ErrorKind::InvalidKey);
    assert_eq!(failure.path, *db.de_path());
    let failure = db.decrypt("bad".to_string(), &[]).err().unwrap();
    assert_eq!(failure.kind, ErrorKind::InvalidKey);
    assert_eq!(failure.path, *db.en_path());
    let failure = db.decrypt(String::new(), &[]).err().unwrap();
    assert_eq!(failure.kind, ErrorKind::InvalidKey);
    let key = fernet::Fernet::generate_key();
    let failure = db.decrypt(key.clone(), &[1, 2]).err().unwrap();
    assert_eq!(failure.kind, ErrorKind::CorruptContainer);
    let other = PMDatabaseEncrption::new().unwrap().encrypt(b"data").unwrap();
    let failure = db.decrypt(key, &other.file.container).err().unwrap();
    assert_eq!(failure.kind, ErrorKind::DecryptFailed);
    assert_eq!(failure.path, *db.en_path());
}

#[test]
fn database_without_a_key_gets_a_fresh_one() {
    let db = PMDatabaseEncrption::new().unwrap();
    let step = db.encrypt(b"data").unwrap();
    assert_eq!(step.file.key.len(), 44);
    assert!(fernet::Fernet::new(&step.file.key).is_some());
}
