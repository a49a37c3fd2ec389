//! A spell checker for source code: tokenizer, ignore rules and editor
//! integration logic.
use vstd::prelude::*;

pub mod checker;
pub mod cli;
pub mod dictionary;
pub mod error;
pub mod handler;
pub mod interactor;
pub mod kak;
pub mod laws;
pub mod project;
pub mod repo;
pub mod repository;
pub mod search;
pub mod table;
pub mod text;
pub mod token;
pub mod tokens;
pub mod words;

verus! {

} // verus!
