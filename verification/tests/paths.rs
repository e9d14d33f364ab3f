use std::path::PathBuf;
use xpmanager::filelib;
use xpmanager::filelib::FileState;

#[test]
fn make_encrypt_path() {
    let file = filelib::make_encrypt_path("./temp/make_encrypt_path/test.txt".to_string());
    assert_eq!(
        file, "./temp/make_encrypt_path/test.txt.x",
        "Can NOT create encryption path!!"
    );
}

#[test]
fn make_decrypt_path() {
    let file = filelib::make_decrypt_path("./temp/make_decrypt_path/test.txt.x".to_string());
    assert_eq!(
        file, "./temp/make_decrypt_path/test.txt",
        "Can NOT create decryption path!!"
    );
}

#[test]
fn get_file_state() {
    // File not exists
    let mut state = filelib::get_file_state("./temp/get_file_state/test.txt".to_string(), false)
        == FileState::NotFound;
    assert_eq!(state, true, "File state NOT match!!");

    // File is decrypted
    state = filelib::get_file_state("./temp/get_file_state/test.txt".to_string(), true)
        == FileState::Decrypted;
    assert_eq!(state, true, "File state NOT match!!");

    // File is encrypted
    state = filelib::get_file_state("./temp/get_file_state/test.txt.x".to_string(), true)
        == FileState::Encrypted;
    assert_eq!(state, true, "File state NOT match!!");
}

#[test]
fn encrypt_path_appends_suffix_to_any_path() {
    assert_eq!(filelib::make_encrypt_path(String::new()), ".x");
    assert_eq!(filelib::make_encrypt_path("a".to_string()), "a.x");
    assert_eq!(filelib::make_encrypt_path("a.x".to_string()), "a.x.x");
    assert_eq!(filelib::make_encrypt_path("dir.d/é".to_string()), "dir.d/é.x");
}

#[test]
fn decrypt_path_drops_the_last_segment_only() {
    assert_eq!(filelib::make_decrypt_path("a.b.c".to_string()), "a.b");
    assert_eq!(filelib::make_decrypt_path("archive.tar.gz.x".to_string()), "archive.tar.gz");
    assert_eq!(filelib::make_decrypt_path("./dir/file.x".to_string()), "./dir/file");
    assert_eq!(filelib::make_decrypt_path("./dir.d/file".to_string()), "./dir");
    assert_eq!(filelib::make_decrypt_path("file.".to_string()), "file");
    assert_eq!(filelib::make_decrypt_path(".x".to_string()), "");
    assert_eq!(filelib::make_decrypt_path("é.ü.x".to_string()), "é.ü");
}

#[test]
fn decrypt_path_of_a_path_without_dot_is_empty() {
    assert_eq!(filelib::make_decrypt_path("file".to_string()), "");
    assert_eq!(filelib::make_decrypt_path(String::new()), "");
}

#[test]
fn decrypt_path_undoes_encrypt_path() {
    for path in ["", "a", "a.b", "./temp/x.y/z", "x", ".x", "日本.語"] {
        let there = filelib::make_encrypt_path(path.to_string());
        assert_eq!(filelib::make_decrypt_path(there), path);
    }
}

#[test]
fn encrypted_path_of_a_file_is_encrypted() {
    for path in ["", "a", "a.b", "./temp/x.y/z", "x", "a.x", "日本.語"] {
        let there = filelib::make_encrypt_path(path.to_string());
        assert_eq!(filelib::get_file_state(there, true), FileState::Encrypted);
    }
}

#[test]
fn missing_path_is_not_found_whatever_its_suffix() {
    for path in ["", "a", "a.x", "x", ".x", "./dir/file.txt", "./dir/file.txt.x"] {
        assert_eq!(filelib::get_file_state(path.to_string(), false), FileState::NotFound);
    }
}

#[test]
fn file_state_goes_by_the_last_segment() {
    assert_eq!(filelib::get_file_state("a.x".to_string(), true), FileState::Encrypted);
    assert_eq!(filelib::get_file_state("x".to_string(), true), FileState::Encrypted);
    assert_eq!(filelib::get_file_state(".x".to_string(), true), FileState::Encrypted);
    assert_eq!(filelib::get_file_state("a.xx".to_string(), true), FileState::Decrypted);
    assert_eq!(filelib::get_file_state("a.X".to_string(), true), FileState::Decrypted);
    assert_eq!(filelib::get_file_state("a.x.txt".to_string(), true), FileState::Decrypted);
    assert_eq!(filelib::get_file_state("ax".to_string(), true), FileState::Decrypted);
    assert_eq!(filelib::get_file_state("a.".to_string(), true), FileState::Decrypted);
    assert_eq!(filelib::get_file_state("".to_string(), true), FileState::Decrypted);
    assert_eq!(filelib::get_file_state("a.é".to_string(), true), FileState::Decrypted);
}

#[test]
fn get_log_db_path() {
    let path = filelib::log::get_log_db_path().expect("Can NOT get system data dir!!");
    assert_eq!(
        PathBuf::from(path),
        dirs::data_dir()
            .expect("Can NOT get system data dir!!")
            .join("XPManager/data/xpm-log.db"),
        "Path NOT match!!"
    )
}

#[test]
fn get_encrypted_db_path() {
    let db_path = filelib::pm::get_encrypted_db_path()
        .expect("can NOT get the system data directory path!!");
    assert_eq!(
        PathBuf::from(db_path),
        dirs::data_dir()
            .expect("can NOT get the system data directory path!!")
            .join("XPManager/data/passwords.db.x"),
        "Encryption path NOT match!!"
    );
}

#[test]
fn get_decrypted_db_path() {
    let db_path = filelib::pm::get_decrypted_db_path()
        .expect("can NOT get the system data directory path!!");
    assert_eq!(
        PathBuf::from(db_path),
        dirs::data_dir()
            .expect("can NOT get the system data directory path!!")
            .join("XPManager/data/passwords.db"),
        "Encryption path NOT match!!"
    );
}

#[test]
fn db_state() {
    let en_db_path = PathBuf::from(
        filelib::pm::get_encrypted_db_path().expect("can NOT get the system data directory path!!"),
    );
    let de_db_path = PathBuf::from(
        filelib::pm::get_decrypted_db_path().expect("can NOT get the system data directory path!!"),
    );
    let state = if en_db_path.exists() {
        FileState::Encrypted
    } else if de_db_path.exists() {
        FileState::Decrypted
    } else {
        FileState::NotFound
    };
    let result = state == filelib::pm::db_state(en_db_path.exists(), de_db_path.exists());
    assert_eq!(result, true, "Password manager database state NOT match!!");
}

#[test]
fn db_state_prefers_the_encrypted_database() {
    assert_eq!(filelib::pm::db_state(true, true), FileState::Encrypted);
    assert_eq!(filelib::pm::db_state(true, false), FileState::Encrypted);
    assert_eq!(filelib::pm::db_state(false, true), FileState::Decrypted);
    assert_eq!(filelib::pm::db_state(false, false), FileState::NotFound);
}

#[test]
fn warning_only_for_a_decrypted_database() {
    let lines = filelib::pm::warning_encrypt_database(FileState::Decrypted);
    assert_eq!(
        lines,
        vec![
            "password manager database found NOT encrypted!!".to_string(),
            "please use 'password-manager encrypt' to encrypt it!".to_string(),
        ]
    );
    assert!(filelib::pm::warning_encrypt_database(FileState::Encrypted).is_empty());
    assert!(filelib::pm::warning_encrypt_database(FileState::NotFound).is_empty());
}

#[test]
fn db_paths_lie_under_the_data_directory() {
    let dir = dirs::data_dir().expect("no data directory");
    let log = PathBuf::from(filelib::log::get_log_db_path().unwrap());
    let db = PathBuf::from(filelib::pm::get_decrypted_db_path().unwrap());
    assert!(log.starts_with(&dir));
    assert!(db.starts_with(&dir));
    assert_ne!(log, dir);
    assert!(log.ends_with("XPManager/data/xpm-log.db"));
    assert!(db.ends_with("XPManager/data/passwords.db"));
}

#[test]
fn without_a_data_directory_there_is_no_database_path() {
    assert_eq!(
        filelib::datadir::under_data_dir(None, "XPManager/data/xpm-log.db"),
        Err(xpmanager::errors::ErrorKind::SystemDataDirNotFound)
    );
    let path = filelib::datadir::under_data_dir(Some("/home/u/.local/share".to_string()), "a/b.db")
        .unwrap();
    assert_eq!(PathBuf::from(path), PathBuf::from("/home/u/.local/share").join("a/b.db"));
}
