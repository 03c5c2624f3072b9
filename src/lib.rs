//! A client library for a remote semantic-memory service: the records it
//! exchanges, the rules of each call, the import of text files, and the
//! decorated rendering of answers.

use vstd::prelude::*;

pub mod api;
pub mod commands;
pub mod config;
pub mod doc_id;
pub mod import;
pub mod output;
pub mod render;
pub mod text;

verus! {

} // verus!
