//! Talking to Kakoune: reading its variables and options from the
//! environment, writing commands, and parsing cursors and range specs.
use vstd::prelude::*;

use crate::error::Error;
use crate::text::{
    fields, parse_usize, parsed_usize, split_once, split_once_spec, split_whitespace, str_eq,
};

verus! {

/// The command that goes back to the previous buffer.
pub const GOTO_PREVIOUS_BUFFER: &'static str = "execute-keys ga\n";

/// The option that holds the language of the dictionary.
pub const SKYSPELL_LANG_OPT: &'static str = "skyspell_lang";

/// The option that holds the path of the project.
pub const SKYSPELL_PROJECT_OPT: &'static str = "skyspell_project";

/// An environment: the value of each variable that is set.
pub type Env = Map<Seq<char>, Seq<char>>;

/// What the operating system offers: environment variables and standard
/// output.
pub trait OperatingSystemIO {
    /// The environment: the value of each variable that is set.
    spec fn env(&self) -> Env;

    /// The value of an environment variable.
    fn get_env_var(&self, key: &str) -> (r: Result<String, Error>)
        ensures
            r matches Ok(v) ==> self.env().contains_key(key@) && v@ == self.env()[key@],
            r is Err ==> r matches Err(Error::Outside(_)),
    ;

    /// Writes text to standard output.
    fn print(&self, text: &str);
}

/// A position (line, column) as Kakoune writes it: `line.column`.
pub open spec fn cursor_of(pos: Seq<char>) -> Result<(usize, usize), Error> {
    match split_once_spec(pos, '.') {
        None => Err(Error::CursorWithoutDot),
        Some((a, b)) => match parsed_usize(a) {
            None => Err(Error::InvalidCursorStart),
            Some(line) => match parsed_usize(b) {
                None => Err(Error::InvalidCursorEnd),
                Some(column) => Ok((line, column)),
            },
        },
    }
}

/// A range `l1.c1,l2.c2|face`, read as (first line, first column, last
/// column).
pub open spec fn range_of(range: Seq<char>) -> Result<(usize, usize, usize), Error> {
    match split_once_spec(range, '|') {
        None => Err(Error::RangeWithoutFace),
        Some((r, _)) => match split_once_spec(r, ',') {
            None => Err(Error::RangeWithoutComma),
            Some((start, end)) => match cursor_of(start) {
                Err(e) => Err(e),
                Ok((line, column)) => match cursor_of(end) {
                    Err(e) => Err(e),
                    Ok((_, end_column)) => Ok((line, column, end_column)),
                },
            },
        },
    }
}

/// The ranges of a list of range texts; the first error stops the list.
#[verifier::opaque]
pub open spec fn ranges_of(fs: Seq<Seq<char>>) -> Result<Seq<(usize, usize, usize)>, Error>
    decreases fs.len(),
{
    if fs.len() == 0 {
        Ok(Seq::empty())
    } else {
        match range_of(fs[0]) {
            Err(e) => Err(e),
            Ok(r) => match ranges_of(fs.drop_first()) {
                Err(e) => Err(e),
                Ok(rs) => Ok(seq![r] + rs),
            },
        }
    }
}

/// A range spec: `0` when it is empty, else a timestamp followed by ranges,
/// all separated by white space.
pub open spec fn range_spec_of(spec: Seq<char>) -> Result<Seq<(usize, usize, usize)>, Error> {
    if spec == seq!['0'] {
        Ok(Seq::empty())
    } else if fields(spec).len() == 0 {
        Ok(Seq::empty())
    } else {
        ranges_of(fields(spec).drop_first())
    }
}

/// The range ends before the cursor: on an earlier line, or on the same
/// line with its last column before the cursor's column.
pub open spec fn ends_before(r: (usize, usize, usize), cursor: (usize, usize)) -> bool {
    r.0 < cursor.0 || (r.0 == cursor.0 && r.2 < cursor.1)
}

/// The range ends after the cursor.
pub open spec fn ends_after(r: (usize, usize, usize), cursor: (usize, usize)) -> bool {
    r.0 > cursor.0 || (r.0 == cursor.0 && r.2 > cursor.1)
}

/// Index of the range to go to backwards: the last one that ends before
/// the cursor, or else the last one (the search wraps around).
pub open spec fn previous_index(ranges: Seq<(usize, usize, usize)>, cursor: (usize, usize)) -> Option<int> {
    if exists|i: int| 0 <= i < ranges.len() && #[trigger] ends_before(ranges[i], cursor) {
        Some(
            choose|i: int|
                0 <= i < ranges.len() && #[trigger] ends_before(ranges[i], cursor) && forall|k: int|
                    i < k < ranges.len() ==> !#[trigger] ends_before(ranges[k], cursor),
        )
    } else if ranges.len() > 0 {
        Some(ranges.len() - 1)
    } else {
        None
    }
}

/// Index of the range to go to forwards: the first one that ends after the
/// cursor, or else the first one (the search wraps around).
pub open spec fn next_index(ranges: Seq<(usize, usize, usize)>, cursor: (usize, usize)) -> Option<int> {
    if exists|i: int| 0 <= i < ranges.len() && #[trigger] ends_after(ranges[i], cursor) {
        Some(
            choose|i: int|
                0 <= i < ranges.len() && #[trigger] ends_after(ranges[i], cursor) && forall|k: int|
                    0 <= k < i ==> !#[trigger] ends_after(ranges[k], cursor),
        )
    } else if ranges.len() > 0 {
        Some(0)
    } else {
        None
    }
}

/// The name of the environment variable that holds a Kakoune option.
pub open spec fn option_key_spec(name: Seq<char>) -> Seq<char> {
    "kak_opt_"@ + name
}

/// The name of the environment variable that holds a Kakoune option.
pub fn option_key(name: &str) -> (r: String)
    ensures
        r@ == option_key_spec(name@),
{
    String::from_str("kak_opt_").concat(name)
}

/// The command that writes a message in Kakoune's debug buffer.
pub fn debug_command(message: &str) -> (r: String)
    ensures
        r@ == "echo -debug "@ + message@,
{
    String::from_str("echo -debug ").concat(message)
}

/// Parses a position `line.column`.
pub fn parse_cursor(pos: &str) -> (r: Result<(usize, usize), Error>)
    ensures
        r == cursor_of(pos@),
{
    let (start, end) = match split_once(pos, '.') {
        None => return Err(Error::CursorWithoutDot),
        Some(x) => x,
    };
    let line = match parse_usize(start) {
        None => return Err(Error::InvalidCursorStart),
        Some(v) => v,
    };
    let column = match parse_usize(end) {
        None => return Err(Error::InvalidCursorEnd),
        Some(v) => v,
    };
    Ok((line, column))
}

/// Parses a range `l1.c1,l2.c2|face`.
pub fn parse_range(range: &str) -> (r: Result<(usize, usize, usize), Error>)
    ensures
        r == range_of(range@),
{
    let (range, _face) = match split_once(range, '|') {
        None => return Err(Error::RangeWithoutFace),
        Some(x) => x,
    };
    let (start, end) = match split_once(range, ',') {
        None => return Err(Error::RangeWithoutComma),
        Some(x) => x,
    };
    let (start_line, start_col) = parse_cursor(start)?;
    let (_end_line, end_col) = parse_cursor(end)?;
    Ok((start_line, start_col, end_col))
}

/// `p` followed by the ranges of `r`, or the error of `r`.
pub open spec fn prepend(
    p: Seq<(usize, usize, usize)>,
    r: Result<Seq<(usize, usize, usize)>, Error>,
) -> Result<Seq<(usize, usize, usize)>, Error> {
    match r {
        Ok(rs) => Ok(p + rs),
        Err(e) => Err(e),
    }
}

proof fn lemma_prepend_step(p: Seq<(usize, usize, usize)>, fs: Seq<Seq<char>>, r: (usize, usize, usize))
    requires
        fs.len() > 0,
        range_of(fs[0]) == Ok::<(usize, usize, usize), Error>(r),
    ensures
        prepend(p, ranges_of(fs)) == prepend(p.push(r), ranges_of(fs.drop_first())),
{
    reveal(ranges_of);
    match ranges_of(fs.drop_first()) {
        Ok(rs) => {
            assert(p + (seq![r] + rs) =~= p.push(r) + rs);
        },
        Err(_) => {},
    }
}

/// Parses a range spec.
pub fn parse_range_spec(range_spec: &str) -> (r: Result<Vec<(usize, usize, usize)>, Error>)
    ensures
        match range_spec_of(range_spec@) {
            Ok(rs) => r matches Ok(v) && v@ == rs,
            Err(e) => r == Err::<Vec<(usize, usize, usize)>, Error>(e),
        },
{
    let zero = "0";
    proof {
        reveal_strlit("0");
        assert(zero@ =~= seq!['0']);
    }
    if str_eq(range_spec, zero) {
        return Ok(Vec::new());
    }
    let fs = split_whitespace(range_spec);
    let ghost all = fs@.map_values(|x: String| x@);
    let mut out: Vec<(usize, usize, usize)> = Vec::new();
    if fs.len() == 0 {
        return Ok(out);
    }
    let mut i: usize = 1;
    let ghost target = range_spec_of(range_spec@);
    proof {
        assert(all.skip(1) =~= all.drop_first());
        assert(out@ + Seq::<(usize, usize, usize)>::empty() =~= out@);
        match ranges_of(all.skip(1)) {
            Ok(rs) => { assert(out@ + rs =~= rs); },
            Err(_) => {},
        }
    }
    while i < fs.len()
        invariant
            1 <= i <= fs@.len(),
            all == fs@.map_values(|x: String| x@),
            target == range_spec_of(range_spec@),
            target == prepend(out@, ranges_of(all.skip(i as int))),
        decreases fs@.len() - i,
    {
        proof {
            assert(all.skip(i as int).drop_first() =~= all.skip(i + 1));
            assert(all.skip(i as int)[0] == fs@[i as int]@);
        }
        match parse_range(fs[i].as_str()) {
            Err(e) => {
                proof {
                    reveal(ranges_of);
                }
                return Err(e);
            },
            Ok(r) => {
                proof {
                    lemma_prepend_step(out@, all.skip(i as int), r);
                }
                out.push(r);
            },
        }
        i = i + 1;
    }
    proof {
        reveal(ranges_of);
        assert(all.skip(i as int) =~= Seq::<Seq<char>>::empty());
        assert(out@ + Seq::<(usize, usize, usize)>::empty() =~= out@);
    }
    Ok(out)
}

/// The range to go to backwards from the cursor.
pub fn previous_selection<'a>(cursor: (usize, usize), ranges: &'a [(usize, usize, usize)]) -> (r:
    Option<&'a (usize, usize, usize)>)
    ensures
        match previous_index(ranges@, cursor) {
            Some(i) => r == Some(&ranges@[i]),
            None => r is None,
        },
{
    let n = ranges.len();
    let mut i: usize = n;
    while i > 0
        invariant
            n == ranges@.len(),
            i <= n,
            forall|k: int| i <= k < n ==> !#[trigger] ends_before(ranges@[k], cursor),
        decreases i,
    {
        let range = &ranges[i - 1];
        let (start_line, _start_col, end_col) = *range;
        let (cursor_line, cursor_col) = cursor;
        if !(start_line > cursor_line) && !(start_line == cursor_line && end_col >= cursor_col) {
            proof {
                let d = i - 1;
                assert(ends_before(ranges@[d], cursor));
                let j = previous_index(ranges@, cursor)->0;
                if j < d {
                    assert(!ends_before(ranges@[d], cursor));
                } else if j > d {
                    assert(!ends_before(ranges@[j], cursor));
                }
            }
            return Some(range);
        }
        i = i - 1;
    }
    proof {
        if exists|k: int| 0 <= k < ranges@.len() && #[trigger] ends_before(ranges@[k], cursor) {
            let k = choose|k: int| 0 <= k < ranges@.len() && #[trigger] ends_before(ranges@[k], cursor);
            assert(!ends_before(ranges@[k], cursor));
        }
    }
    if n > 0 {
        Some(&ranges[n - 1])
    } else {
        None
    }
}

/// The range to go to forwards from the cursor.
pub fn next_selection<'a>(cursor: (usize, usize), ranges: &'a [(usize, usize, usize)]) -> (r:
    Option<&'a (usize, usize, usize)>)
    ensures
        match next_index(ranges@, cursor) {
            Some(i) => r == Some(&ranges@[i]),
            None => r is None,
        },
{
    let n = ranges.len();
    let mut i: usize = 0;
    while i < n
        invariant
            n == ranges@.len(),
            i <= n,
            forall|k: int| 0 <= k < i ==> !#[trigger] ends_after(ranges@[k], cursor),
        decreases n - i,
    {
        let range = &ranges[i];
        let (start_line, _start_col, end_col) = *range;
        let (cursor_line, cursor_col) = cursor;
        if !(start_line < cursor_line) && !(start_line == cursor_line && end_col <= cursor_col) {
            proof {
                assert(ends_after(ranges@[i as int], cursor));
                let j = next_index(ranges@, cursor)->0;
                if j < i {
                    assert(!ends_after(ranges@[j], cursor));
                } else if j > i {
                    assert(!ends_after(ranges@[i as int], cursor));
                }
            }
            return Some(range);
        }
        i = i + 1;
    }
    proof {
        if exists|k: int| 0 <= k < ranges@.len() && #[trigger] ends_after(ranges@[k], cursor) {
            let k = choose|k: int| 0 <= k < ranges@.len() && #[trigger] ends_after(ranges@[k], cursor);
            assert(!ends_after(ranges@[k], cursor));
        }
    }
    if n > 0 {
        Some(&ranges[0])
    } else {
        None
    }
}

/// Reads an option that holds `true` or `false`.
pub fn parse_boolean(v: &str) -> (r: Result<bool, Error>)
    ensures
        v@ == "true"@ ==> r == Ok::<bool, Error>(true),
        v@ == "false"@ ==> r == Ok::<bool, Error>(false),
        v@ != "true"@ && v@ != "false"@ ==> (r matches Err(Error::InvalidBoolean(s)) && s@ == v@),
{
    proof {
        reveal_strlit("true");
        reveal_strlit("false");
        assert("true"@[0] != "false"@[0]);
    }
    if str_eq(v, "true") {
        Ok(true)
    } else if str_eq(v, "false") {
        Ok(false)
    } else {
        Err(Error::InvalidBoolean(String::from_str(v)))
    }
}

/// Reads Kakoune's variables and options, and writes Kakoune commands.
pub struct KakouneIO<S: OperatingSystemIO> {
    os_io: S,
}

/// The line and the column of the cursor are set and are numbers.
pub open spec fn cursor_readable(env: Map<Seq<char>, Seq<char>>) -> bool {
    &&& env.contains_key("kak_cursor_line"@) && parsed_usize(env["kak_cursor_line"@]) is Some
    &&& env.contains_key("kak_cursor_column"@) && parsed_usize(env["kak_cursor_column"@]) is Some
}

/// The cursor that the environment holds, when it is readable.
pub open spec fn env_cursor(env: Map<Seq<char>, Seq<char>>) -> (usize, usize) {
    (parsed_usize(env["kak_cursor_line"@])->0, parsed_usize(env["kak_cursor_column"@])->0)
}

/// The value of a variable, when it is set and `r` is `Ok`.
pub open spec fn read_var(env: Map<Seq<char>, Seq<char>>, key: Seq<char>, v: Seq<char>) -> bool {
    env.contains_key(key) && v == env[key]
}

impl<S: OperatingSystemIO> KakouneIO<S> {
    /// The environment Kakoune set for this command.
    pub closed spec fn env(&self) -> Map<Seq<char>, Seq<char>> {
        self.os_io.env()
    }

    /// The operating system Kakoune is reached through.
    pub closed spec fn os_io_spec(&self) -> S {
        self.os_io
    }

    /// Kakoune as seen through `os_io`.
    pub fn new(os_io: S) -> (r: Self)
        ensures
            r.os_io_spec() == os_io,
            r.env() == os_io.env(),
    {
        KakouneIO { os_io }
    }

    /// The operating system.
    pub fn os_io(&self) -> (r: &S)
        ensures
            *r == self.os_io_spec(),
    {
        &self.os_io
    }

    /// The operating system, for changes.
    pub fn os_io_mut(&mut self) -> (r: &mut S)
        ensures
            *r == old(self).os_io_spec(),
            final(self).os_io_spec() == *final(r),
            final(self).env() == final(r).env(),
    {
        &mut self.os_io
    }

    /// Writes a Kakoune command.
    pub fn print(&self, command: &str) {
        self.os_io.print(command)
    }

    /// Writes a message in Kakoune's debug buffer.
    pub fn debug(&self, message: &str) {
        self.os_io.print(debug_command(message).as_str())
    }

    /// The value of a Kakoune variable.
    pub fn get_variable(&self, key: &str) -> (r: Result<String, Error>)
        ensures
            r matches Ok(v) ==> read_var(self.env(), key@, v@),
            !self.env().contains_key(key@) ==> r is Err,
            r is Err ==> r matches Err(Error::Outside(_)),
    {
        self.os_io.get_env_var(key)
    }

    /// The value of a Kakoune option.
    pub fn get_option(&self, name: &str) -> (r: Result<String, Error>)
        ensures
            r matches Ok(v) ==> read_var(self.env(), option_key_spec(name@), v@),
            !self.env().contains_key(option_key_spec(name@)) ==> r is Err,
    {
        let key = option_key(name);
        self.os_io.get_env_var(key.as_str())
    }

    /// Parses a non-negative number.
    pub fn parse_usize(&self, v: &str) -> (r: Result<usize, Error>)
        ensures
            match parsed_usize(v@) {
                Some(n) => r == Ok::<usize, Error>(n),
                None => r matches Err(Error::InvalidNumber(s)) && s@ == v@,
            },
    {
        match parse_usize(v) {
            Some(n) => Ok(n),
            None => Err(Error::InvalidNumber(String::from_str(v))),
        }
    }

    /// The position of the cursor.
    pub fn get_cursor(&self) -> (r: Result<(usize, usize), Error>)
        ensures
            r matches Ok((l, c)) ==> (exists|a: Seq<char>, b: Seq<char>|
                read_var(self.env(), "kak_cursor_line"@, a) && read_var(
                    self.env(),
                    "kak_cursor_column"@,
                    b,
                ) && parsed_usize(a) == Some(l) && parsed_usize(b) == Some(c)),
            !cursor_readable(self.env()) ==> r is Err,
    {
        let line = self.get_variable("kak_cursor_line")?;
        let column = self.get_variable("kak_cursor_column")?;
        Ok((self.parse_usize(line.as_str())?, self.parse_usize(column.as_str())?))
    }

    /// The text of the selection.
    pub fn get_selection(&self) -> (r: Result<String, Error>)
        ensures
            r matches Ok(v) ==> read_var(self.env(), "kak_selection"@, v@),
            !self.env().contains_key("kak_selection"@) ==> r is Err,
            r is Err ==> r matches Err(Error::Outside(_)),
    {
        self.get_variable("kak_selection")
    }

    /// The path of the project, as the option holds it.
    pub fn get_project(&self) -> (r: Result<String, Error>)
        ensures
            r matches Ok(v) ==> read_var(self.env(), option_key_spec(SKYSPELL_PROJECT_OPT@), v@),
            !self.env().contains_key(option_key_spec(SKYSPELL_PROJECT_OPT@)) ==> r is Err,
    {
        self.get_option(SKYSPELL_PROJECT_OPT)
    }

    /// The language of the dictionary.
    pub fn get_lang(&self) -> (r: Result<String, Error>)
        ensures
            r matches Ok(v) ==> read_var(self.env(), option_key_spec(SKYSPELL_LANG_OPT@), v@),
            !self.env().contains_key(option_key_spec(SKYSPELL_LANG_OPT@)) ==> r is Err,
    {
        self.get_option(SKYSPELL_LANG_OPT)
    }

    /// The timestamp of the buffer.
    pub fn get_timestamp(&self) -> (r: Result<usize, Error>)
        ensures
            r matches Ok(t) ==> exists|v: Seq<char>|
                read_var(self.env(), "kak_timestamp"@, v) && parsed_usize(v) == Some(t),
            !(self.env().contains_key("kak_timestamp"@) && parsed_usize(self.env()["kak_timestamp"@])
                is Some) ==> r is Err,
    {
        let t = self.get_variable("kak_timestamp")?;
        self.parse_usize(t.as_str())
    }

    /// The value of an option that holds `true` or `false`.
    pub fn get_boolean_option(&self, name: &str) -> (r: Result<bool, Error>)
        ensures
            r matches Ok(b) ==> read_var(
                self.env(),
                option_key_spec(name@),
                if b {
                    "true"@
                } else {
                    "false"@
                },
            ),
            !(self.env().contains_key(option_key_spec(name@)) && (self.env()[option_key_spec(name@)]
                == "true"@ || self.env()[option_key_spec(name@)] == "false"@)) ==> r is Err,
    {
        let v = self.get_option(name)?;
        parse_boolean(v.as_str())
    }

    /// Goes back to the previous buffer.
    pub fn goto_previous_buffer(&self) -> (r: String)
        ensures
            r@ == GOTO_PREVIOUS_BUFFER@,
    {
        let command = String::from_str(GOTO_PREVIOUS_BUFFER);
        self.os_io.print(command.as_str());
        command
    }

    /// Parses a position `line.column`.
    pub fn parse_cursor(&self, pos: &str) -> (r: Result<(usize, usize), Error>)
        ensures
            r == cursor_of(pos@),
    {
        parse_cursor(pos)
    }

    /// Parses a range spec.
    pub fn parse_range_spec(&self, range_spec: &str) -> (r: Result<
        Vec<(usize, usize, usize)>,
        Error,
    >)
        ensures
            match range_spec_of(range_spec@) {
                Ok(rs) => r matches Ok(v) && v@ == rs,
                Err(e) => r == Err::<Vec<(usize, usize, usize)>, Error>(e),
            },
    {
        parse_range_spec(range_spec)
    }

    /// Parses a range `l1.c1,l2.c2|face`.
    pub fn parse_range(&self, range: &str) -> (r: Result<(usize, usize, usize), Error>)
        ensures
            r == range_of(range@),
    {
        parse_range(range)
    }

    /// The range to go to backwards from the cursor.
    pub fn get_previous_selection<'a>(
        &self,
        cursor: (usize, usize),
        ranges: &'a [(usize, usize, usize)],
    ) -> (r: Option<&'a (usize, usize, usize)>)
        ensures
            match previous_index(ranges@, cursor) {
                Some(i) => r == Some(&ranges@[i]),
                None => r is None,
            },
    {
        previous_selection(cursor, ranges)
    }

    /// The range to go to forwards from the cursor.
    pub fn get_next_selection<'a>(
        &self,
        cursor: (usize, usize),
        ranges: &'a [(usize, usize, usize)],
    ) -> (r: Option<&'a (usize, usize, usize)>)
        ensures
            match next_index(ranges@, cursor) {
                Some(i) => r == Some(&ranges@[i]),
                None => r is None,
            },
    {
        next_selection(cursor, ranges)
    }
}

} // verus!
