//! Asking the user.
use vstd::prelude::*;

verus! {

/// Asks the user questions and shows messages.
pub trait Interactor {
    /// A line of text.
    fn input(&self, prompt: &str) -> String;

    /// One of the letters of `choices`.
    fn input_letter(&self, prompt: &str, choices: &str) -> String;

    /// The index of one of `choices`, or nothing.
    fn select(&self, prompt: &str, choices: &[&str]) -> Option<usize>;

    /// Yes or no.
    fn confirm(&self, prompt: &str) -> bool;

    /// Shows a message.
    fn info(&self, message: &str);

    /// Shows an error.
    fn error(&self, message: &str);
}

} // verus!
