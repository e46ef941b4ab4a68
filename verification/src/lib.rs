//! Vault ciphers: the entries of a password vault, the rules on who may see and edit them, and
//! the JSON form in which clients receive them.

pub mod access;
pub mod actions;
pub mod changes;
pub mod cipher;
pub mod content;
pub mod dates;
pub mod details;
pub mod error;
pub mod finders;
pub mod ids;
pub mod joins;
pub mod json;
pub mod laws;
pub mod queries;
pub mod runs;
pub mod seqs;
pub mod stored;
pub mod sync;
pub mod tables;
pub mod text;
pub mod validate;

