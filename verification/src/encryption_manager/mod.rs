//! The container codec: a file is kept as length-prefixed blocks of
//! ciphertext, one block for every 64 KiB of plaintext.

pub mod cipher;
pub mod container;
pub mod decrypt_file;
pub mod encrypt_file;
pub mod lemmas;
