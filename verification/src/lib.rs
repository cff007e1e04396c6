//! Helpers for copying a directory tree.
//!
//! The copy is run by [`copier::Copier`], a state machine that decides which
//! file-system operation comes next and leaves carrying it out to the caller.
//! [`laws`] states what a whole copy amounts to, over the file system of
//! [`world`].

pub mod copier;
pub mod laws;
pub mod run_lemmas;
pub mod tree;
pub mod tree_lemmas;
pub mod world;
