//! The Kakoune integration.
pub mod checker;
pub mod cli;
pub mod helpers;
pub mod io;
