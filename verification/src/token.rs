//! The tokenizer of plain text: tokens are runs of word characters and of the
//! characters found in URLs and e-mail addresses.
use vstd::prelude::*;

use crate::words::{Scanner, word_in_token, word_views, words_from, extract_word_with};

verus! {

/// A token: word characters and the characters found in URLs and e-mails.
pub const TOKEN_PATTERN: &'static str = r"(\w|[+./:=?@_~])+";

/// An identifier inside a token: a run of alphabetic characters.
pub const IDENT_PATTERN: &'static str = r"\p{Alphabetic}+";

/// The words of a line, with their byte offsets.
pub open spec fn line_words(input: Seq<char>) -> Seq<(Seq<char>, int)> {
    words_from(input, 0, TOKEN_PATTERN@, IDENT_PATTERN@, 0)
}

/// Yields the words of a line with their byte offsets.
pub struct Tokenizer<'a> {
    scanner: Scanner<'a>,
}

impl<'a> Tokenizer<'a> {
    /// The words that are still to come.
    pub closed spec fn remaining(&self) -> Seq<(Seq<char>, int)> {
        self.scanner.remaining()
    }

    /// A tokenizer at the start of `input`.
    pub fn new(input: &'a str) -> (r: Self)
        ensures
            r.remaining() == line_words(input@),
    {
        Tokenizer { scanner: Scanner::new(input, TOKEN_PATTERN, IDENT_PATTERN, 0) }
    }

    /// The next word and its byte offset.
    pub fn next(&mut self) -> (r: Option<(&'a str, usize)>)
        ensures
            match r {
                Some((w, p)) => old(self).remaining() == seq![(w@, p as int)] + final(self).remaining(),
                None => old(self).remaining() == Seq::<(Seq<char>, int)>::empty()
                    && final(self).remaining() == Seq::<(Seq<char>, int)>::empty(),
            },
    {
        self.scanner.next()
    }

    /// Every word still to come, with its byte offset.
    pub fn words(self) -> (r: Vec<(&'a str, usize)>)
        ensures
            word_views(r@) == self.remaining(),
    {
        let mut scanner = self.scanner;
        scanner.collect_words()
    }
}

/// The word kept from a token and its byte offset in the token; `None` for
/// the lone `s` of a plural constant, URLs, e-mails, mentions and hashes.
pub fn extract_word(token: &str) -> (r: Option<(&str, usize)>)
    ensures
        match word_in_token(token@, IDENT_PATTERN@, 0) {
            Some((w, p)) => r matches Some((rw, rp)) && rw@ == w && rp == p,
            None => r is None,
        },
{
    extract_word_with(token, IDENT_PATTERN, 0)
}

} // verus!
