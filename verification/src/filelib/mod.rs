//! Paths, file states, erasure and directory collection.

pub mod datadir;
pub mod json;
pub mod log;
pub mod paths;
pub mod pm;
pub mod tree;
pub mod tree_lemmas;
pub mod wipe;
pub mod wipe_lemmas;

pub use paths::{get_file_state, make_decrypt_path, make_encrypt_path, FileState};
pub use tree::{dir_files_tree, DirAction, DirEvent, Entry, EntryKind, TreeWalk, WalkStage};
pub use wipe::{wipe_delete, Wipe, WipeAction, WipeEvent, WipePlan, WipeStage};
