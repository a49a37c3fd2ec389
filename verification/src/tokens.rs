//! The tokenizer of source files: like the plain text one, and besides it
//! keeps words with one apostrophe (`doesn't`) and sees through `\n` and `\t`
//! escapes. The lines of a git commit message stop at the scissors line.
use vstd::prelude::*;

use crate::project::{file_name, path_file_name};
use crate::text::str_eq;
use crate::words::{Scanner, extract_word_with, word_in_token, word_views, words_from};

verus! {

/// A token: word characters, backslashes, apostrophes, dashes and the
/// characters found in URLs and e-mails.
pub const TOKEN_PATTERN: &'static str = r"(\w|[\\+./:=?@_~'-])+";

/// An identifier, as capture group `IDENT_GROUP`: alphabetic characters with
/// at most one apostrophe inside, maybe surrounded by `\n`, `\r` and `\t`
/// escapes.
pub const IDENT_PATTERN: &'static str =
    r"(\\[nrt])*(\p{Alphabetic}+'\p{Alphabetic}+|(\p{Alphabetic}+))(\\[nrt])*";

/// The capture group of `IDENT_PATTERN` that holds the identifier.
pub const IDENT_GROUP: usize = 2;

/// The line at which git stops reading a commit message.
pub const GIT_SCISSORS: &'static str = "# ------------------------ >8 ------------------------";

/// The name of the file in which git asks for a commit message.
pub const COMMIT_MESSAGE_FILE: &'static str = "COMMIT_EDITMSG";

/// The words of a line, with their byte offsets.
pub open spec fn line_words(input: Seq<char>) -> Seq<(Seq<char>, int)> {
    words_from(input, 0, TOKEN_PATTERN@, IDENT_PATTERN@, IDENT_GROUP)
}

/// Yields the words of a line with their byte offsets.
pub struct Tokenizer<'a> {
    scanner: Scanner<'a>,
}

impl<'a> Tokenizer<'a> {
    /// The words that are still to come.
    pub closed spec fn remaining(&self) -> Seq<(Seq<char>, int)> {
        self.scanner.remaining()
    }

    /// A tokenizer at the start of `input`.
    pub fn new(input: &'a str) -> (r: Self)
        ensures
            r.remaining() == line_words(input@),
    {
        Tokenizer { scanner: Scanner::new(input, TOKEN_PATTERN, IDENT_PATTERN, IDENT_GROUP) }
    }

    /// The next word and its byte offset.
    pub fn next(&mut self) -> (r: Option<(&'a str, usize)>)
        ensures
            match r {
                Some((w, p)) => old(self).remaining() == seq![(w@, p as int)] + final(self).remaining(),
                None => old(self).remaining() == Seq::<(Seq<char>, int)>::empty()
                    && final(self).remaining() == Seq::<(Seq<char>, int)>::empty(),
            },
    {
        self.scanner.next()
    }

    /// Every word still to come, with its byte offset.
    pub fn words(self) -> (r: Vec<(&'a str, usize)>)
        ensures
            word_views(r@) == self.remaining(),
    {
        let mut scanner = self.scanner;
        scanner.collect_words()
    }
}

/// The word kept from a token and its byte offset in the token; `None` for
/// the lone `s` of a plural constant, URLs, e-mails, mentions and hashes.
pub fn extract_word(token: &str) -> (r: Option<(&str, usize)>)
    ensures
        match word_in_token(token@, IDENT_PATTERN@, IDENT_GROUP) {
            Some((w, p)) => r matches Some((rw, rp)) && rw@ == w && rp == p,
            None => r is None,
        },
{
    extract_word_with(token, IDENT_PATTERN, IDENT_GROUP)
}

/// Whether a line is the scissors line of a commit message.
pub open spec fn is_scissors(line: Seq<char>) -> bool {
    line == GIT_SCISSORS@
}

/// How many lines of a file are checked: all of them, except in a git commit
/// message, which stops before its first scissors line.
pub open spec fn relevant_count(lines: Seq<Seq<char>>, is_git_message: bool) -> int {
    if is_git_message && exists|i: int| 0 <= i < lines.len() && #[trigger] is_scissors(lines[i]) {
        choose|i: int|
            0 <= i < lines.len() && #[trigger] is_scissors(lines[i]) && forall|k: int|
                0 <= k < i ==> !is_scissors(#[trigger] lines[k])
    } else {
        lines.len() as int
    }
}

/// The text of each line.
pub open spec fn line_views(lines: Seq<String>) -> Seq<Seq<char>> {
    lines.map_values(|l: String| l@)
}

/// The words of the first `n` lines, each with its line number (from 1) and
/// its byte offset in the line.
pub open spec fn lines_tokens(lines: Seq<Seq<char>>, n: int) -> Seq<(Seq<char>, int, int)>
    decreases n,
{
    if n <= 0 {
        Seq::empty()
    } else {
        lines_tokens(lines, n - 1) + line_words(lines[n - 1]).map_values(
            |x: (Seq<char>, int)| (x.0, n, x.1),
        )
    }
}

/// Whether a file of this name holds a git commit message.
pub fn is_git_message(file_name: Option<&str>) -> (r: bool)
    ensures
        r == (file_name matches Some(f) && f@ == COMMIT_MESSAGE_FILE@),
{
    match file_name {
        Some(f) => str_eq(f, COMMIT_MESSAGE_FILE),
        None => false,
    }
}

/// How many of `lines` are checked.
pub fn relevant_line_count(lines: &Vec<String>, is_git_message: bool) -> (n: usize)
    ensures
        n == relevant_count(line_views(lines@), is_git_message),
        n <= lines@.len(),
{
    let ghost views = line_views(lines@);
    if !is_git_message {
        return lines.len();
    }
    let mut i: usize = 0;
    while i < lines.len()
        invariant
            is_git_message,
            views == line_views(lines@),
            i <= lines.len(),
            forall|k: int| 0 <= k < i ==> !is_scissors(#[trigger] views[k]),
        decreases lines.len() - i,
    {
        if str_eq(lines[i].as_str(), GIT_SCISSORS) {
            proof {
                assert(views[i as int] == lines@[i as int]@);
                assert(views[i as int] == GIT_SCISSORS@);
                assert(0 <= i < views.len() && views[i as int] == GIT_SCISSORS@ && forall|k: int|
                    0 <= k < i ==> views[k] != GIT_SCISSORS@);
                let j = relevant_count(views, true);
                if j < i {
                    assert(views[j] != GIT_SCISSORS@);
                } else if j > i {
                    assert(views[i as int] != GIT_SCISSORS@);
                }
            }
            return i;
        }
        i = i + 1;
    }
    proof {
        if exists|k: int| 0 <= k < views.len() && #[trigger] is_scissors(views[k]) {
            let k = choose|k: int| 0 <= k < views.len() && #[trigger] is_scissors(views[k]);
            assert(!is_scissors(views[k]));
        }
    }
    lines.len()
}

/// Every word of the checked lines of a file, with its line number (from 1)
/// and its byte offset in the line.
pub fn tokens_of_lines(lines: &Vec<String>, is_git_message: bool) -> (r: Vec<(String, usize, usize)>)
    ensures
        r@.map_values(|x: (String, usize, usize)| (x.0@, x.1 as int, x.2 as int)) == lines_tokens(
            line_views(lines@),
            relevant_count(line_views(lines@), is_git_message),
        ),
{
    let n = relevant_line_count(lines, is_git_message);
    let ghost views = line_views(lines@);
    let mut out: Vec<(String, usize, usize)> = Vec::new();
    let mut i: usize = 0;
    while i < n
        invariant
            n <= lines.len(),
            views == line_views(lines@),
            i <= n,
            out@.map_values(|x: (String, usize, usize)| (x.0@, x.1 as int, x.2 as int))
                == lines_tokens(views, i as int),
        decreases n - i,
    {
        let words = Tokenizer::new(lines[i].as_str()).words();
        let ghost before = out@;
        let ghost lw = line_words(views[i as int]);
        assert(word_views(words@) == lw);
        let mut j: usize = 0;
        while j < words.len()
            invariant
                i < n <= lines.len(),
                views == line_views(lines@),
                word_views(words@) == lw,
                j <= words.len(),
                out@.map_values(|x: (String, usize, usize)| (x.0@, x.1 as int, x.2 as int))
                    == lines_tokens(views, i as int) + lw.take(j as int).map_values(
                    |x: (Seq<char>, int)| (x.0, i + 1, x.1),
                ),
            decreases words.len() - j,
        {
            let (w, p) = words[j];
            let ghost prev = out@;
            out.push((w.to_owned(), i + 1, p));
            proof {
                assert(lw[j as int] == (w@, p as int));
                assert(lw.take(j + 1) =~= lw.take(j as int).push(lw[j as int]));
                assert(out@.map_values(|x: (String, usize, usize)| (x.0@, x.1 as int, x.2 as int))
                    =~= prev.map_values(|x: (String, usize, usize)| (x.0@, x.1 as int, x.2 as int))
                    .push((w@, i + 1, p as int)));
                assert(lw.take(j + 1).map_values(|x: (Seq<char>, int)| (x.0, i + 1, x.1))
                    =~= lw.take(j as int).map_values(|x: (Seq<char>, int)| (x.0, i + 1, x.1))
                    .push((w@, i + 1, p as int)));
            }
            j = j + 1;
        }
        proof {
            assert(lw.take(words.len() as int) =~= lw);
        }
        i = i + 1;
    }
    out
}

/// A source file: its canonical path and the lines it holds.
pub struct TokenProcessor {
    path: String,
    lines: Vec<String>,
}

impl TokenProcessor {
    /// The file at `path`, with the lines read from it.
    pub fn new(path: &str, lines: Vec<String>) -> (r: Self)
        ensures
            r.path() == path@,
            r.lines() == line_views(lines@),
    {
        TokenProcessor { path: String::from_str(path), lines }
    }

    /// The path of the file, as text.
    pub fn path_str(&self) -> (r: &str)
        ensures
            r@ == self.path(),
    {
        self.path.as_str()
    }

    /// The path of the file.
    pub closed spec fn path(&self) -> Seq<char> {
        self.path@
    }

    /// The lines of the file.
    pub closed spec fn lines(&self) -> Seq<Seq<char>> {
        line_views(self.lines@)
    }

    /// Whether the file holds a git commit message.
    pub open spec fn is_commit_message(&self) -> bool {
        path_file_name(self.path()) == Some(COMMIT_MESSAGE_FILE@)
    }

    /// Every word of the checked lines, with its line number (from 1) and
    /// its byte offset in the line; a commit message stops at the scissors.
    pub fn tokens(&self) -> (r: Vec<(String, usize, usize)>)
        ensures
            r@.map_values(|x: (String, usize, usize)| (x.0@, x.1 as int, x.2 as int)) == lines_tokens(
                self.lines(),
                relevant_count(self.lines(), self.is_commit_message()),
            ),
    {
        let name = file_name(self.path.as_str());
        let git = match &name {
            Some(f) => is_git_message(Some(f.as_str())),
            None => is_git_message(None),
        };
        tokens_of_lines(&self.lines, git)
    }
}

} // verus!
