//! Word extraction shared by both tokenizers: a line is cut into tokens, URLs,
//! e-mails, hashes and the like are skipped, and one word is taken out of
//! each identifier (`camelCase`, `PascalCase`, `SCREAMING`, `HTTPError`).
use vstd::prelude::*;
use vstd::string::StringSliceAdditionalSpecFns;
use vstd::utf8::*;

use crate::search::{capture, char_is_lowercase, char_is_uppercase, is_lowercase, is_uppercase, regex_capture};
use crate::text::{
    byte_len, byte_slice, char_byte_len, contains_str, lemma_prefix_boundary, lemma_prefix_bytes,
    lemma_utf8_concat, lemma_utf8_injective, seq_contains, substr, suffix, utf8, valid_byte_range,
};

verus! {

broadcast use {vstd::utf8::encode_utf8_valid_utf8, vstd::utf8::encode_utf8_decode_utf8};

/// Only upper case letters, except maybe an `s` at the end (`URL`, `URLs`).
pub const CONSTANT_PATTERN: &'static str = r"^(\p{Lu}+)s?$";

/// Some upper case letters followed by an upper case and a lower case letter
/// (the `HTTP` in `HTTPError`).
pub const ABBREV_PATTERN: &'static str = r"(\p{Lu}+)\p{Lu}\p{Ll}";

/// At least five hexadecimal digits (git hashes, UUIDs).
pub const HEXA_PATTERN: &'static str = r"[a-f0-9]{5,}";

/// Index of the first upper case character of `s`, if any.
pub open spec fn first_upper(s: Seq<char>) -> Option<int> {
    if exists|i: int| 0 <= i < s.len() && #[trigger] char_is_uppercase(s[i]) {
        Some(
            choose|i: int|
                0 <= i < s.len() && #[trigger] char_is_uppercase(s[i]) && forall|k: int|
                    0 <= k < i ==> !char_is_uppercase(#[trigger] s[k]),
        )
    } else {
        None
    }
}

/// The byte range of a capture, when it is a valid range of `s`.
pub open spec fn capture_range(s: Seq<char>, cap: Option<Option<(usize, usize)>>) -> Option<
    (int, int),
> {
    match cap {
        Some(Some((b, e))) => if valid_byte_range(s, b as int, e as int) {
            Some((b as int, e as int))
        } else {
            None
        },
        _ => None,
    }
}

/// The word kept from an identifier that starts with an upper case letter,
/// given the captures of `CONSTANT_PATTERN` and `ABBREV_PATTERN` in it.
pub open spec fn upper_word(
    ident: Seq<char>,
    constant: Option<Option<(usize, usize)>>,
    abbrev: Option<Option<(usize, usize)>>,
) -> Seq<char> {
    if let Some((b, e)) = capture_range(ident, constant) {
        byte_slice(ident, b, e)
    } else if let Some((b, e)) = capture_range(ident, abbrev) {
        byte_slice(ident, b, e)
    } else if ident.len() <= 1 {
        ident
    } else if let Some(j) = first_upper(ident.drop_first()) {
        ident.take(j + 1)
    } else {
        ident
    }
}

/// The word kept from a non-empty identifier.
pub open spec fn word_in_ident(ident: Seq<char>) -> Seq<char>
    recommends
        ident.len() > 0,
{
    if char_is_lowercase(ident[0]) && first_upper(ident) is Some {
        ident.take(first_upper(ident)->0)
    } else if char_is_uppercase(ident[0]) {
        upper_word(
            ident,
            regex_capture(CONSTANT_PATTERN@, ident, 1),
            regex_capture(ABBREV_PATTERN@, ident, 1),
        )
    } else {
        ident
    }
}

/// The word kept from a token and its byte offset in the token, given the
/// match of `HEXA_PATTERN` and the identifier capture; `None` when the token
/// is to be skipped.
pub open spec fn token_word_given(
    token: Seq<char>,
    hexa: Option<Option<(usize, usize)>>,
    ident: Option<Option<(usize, usize)>>,
) -> Option<(Seq<char>, int)> {
    if token == seq!['s'] {
        None
    } else if seq_contains(token, seq![':', '/', '/']) {
        None
    } else if seq_contains(token, seq!['@']) {
        None
    } else if hexa is Some {
        None
    } else if let Some((b, e)) = capture_range(token, ident) {
        if byte_slice(token, b, e).len() == 0 {
            None
        } else {
            Some((word_in_ident(byte_slice(token, b, e)), b))
        }
    } else {
        None
    }
}

/// The word kept from a token, where identifiers are capture group `group` of
/// `ident_pattern`.
pub open spec fn word_in_token(token: Seq<char>, ident_pattern: Seq<char>, group: usize) -> Option<
    (Seq<char>, int),
> {
    token_word_given(
        token,
        regex_capture(HEXA_PATTERN@, token, 0),
        regex_capture(ident_pattern, token, group),
    )
}

/// The step of the tokenizer at byte offset `pos` of `input`: the next word,
/// its byte offset in `input` and the byte offset where the search resumes.
pub open spec fn next_word(
    input: Seq<char>,
    pos: int,
    token_pattern: Seq<char>,
    ident_pattern: Seq<char>,
    group: usize,
) -> Option<(Seq<char>, int, int)>
    decreases byte_len(input) - pos,
{
    if pos < 0 || pos > byte_len(input) || !is_char_boundary(utf8(input), pos) {
        None
    } else {
        let rest = byte_slice(input, pos, byte_len(input));
        match capture_range(rest, regex_capture(token_pattern, rest, 0)) {
            Some((b, e)) => match word_in_token(byte_slice(rest, b, e), ident_pattern, group) {
                Some((w, p)) => Some((w, pos + b + p, pos + b + p + byte_len(w))),
                None => if e > 0 && pos + e <= byte_len(input) {
                    next_word(input, pos + e, token_pattern, ident_pattern, group)
                } else {
                    None
                },
            },
            None => None,
        }
    }
}

/// Every word of `input` from byte offset `pos` on, with its byte offset.
/// The scan stops once it would not move forward.
pub open spec fn words_from(
    input: Seq<char>,
    pos: int,
    token_pattern: Seq<char>,
    ident_pattern: Seq<char>,
    group: usize,
) -> Seq<(Seq<char>, int)>
    decreases byte_len(input) - pos,
{
    match next_word(input, pos, token_pattern, ident_pattern, group) {
        Some((w, wp, np)) => if pos < np <= byte_len(input) {
            seq![(w, wp)] + words_from(input, np, token_pattern, ident_pattern, group)
        } else {
            seq![(w, wp)]
        },
        None => Seq::empty(),
    }
}

/// The number of UTF-8 bytes of `s`: what `str::len` returns.
pub fn str_byte_len(s: &str) -> (n: usize)
    ensures
        n as int == byte_len(s@),
{
    s.as_bytes().len()
}

/// Byte offset of the first upper case character of `s`, as
/// `str::find(char::is_uppercase)` gives it.
pub fn find_upper(s: &str) -> (r: Option<usize>)
    ensures
        match first_upper(s@) {
            Some(i) => 0 <= i < s@.len() && (r matches Some(b) && b == byte_len(s@.take(i)) && b
                <= byte_len(s@)),
            None => r is None,
        },
{
    let n = s.unicode_len();
    let total = str_byte_len(s);
    let mut i: usize = 0;
    let mut b: usize = 0;
    while i < n
        invariant
            n == s@.len(),
            total == byte_len(s@),
            i <= n,
            b == byte_len(s@.take(i as int)),
            forall|k: int| 0 <= k < i ==> !char_is_uppercase(#[trigger] s@[k]),
        decreases n - i,
    {
        let c = s.get_char(i);
        if is_uppercase(c) {
            proof {
                assert(0 <= i < s@.len() && char_is_uppercase(s@[i as int]) && forall|k: int|
                    0 <= k < i ==> !char_is_uppercase(#[trigger] s@[k]));
                let j = first_upper(s@)->0;
                assert(first_upper(s@) is Some);
                if j < i {
                    assert(!char_is_uppercase(s@[j]));
                } else if j > i {
                    assert(!char_is_uppercase(s@[i as int]));
                }
                lemma_prefix_bytes(s@, i as int);
            }
            return Some(b);
        }
        proof {
            assert(s@.take(i + 1) =~= s@.take(i as int) + seq![c]);
            lemma_utf8_concat(s@.take(i as int), seq![c]);
            lemma_prefix_bytes(s@, i + 1);
        }
        let cl = char_byte_len(c);
        b = b + cl;
        i = i + 1;
    }
    proof {
        assert(s@.take(n as int) =~= s@);
        if first_upper(s@) is Some {
            let j = choose|j: int| 0 <= j < s@.len() && #[trigger] char_is_uppercase(s@[j]);
            assert(!char_is_uppercase(s@[j]));
        }
    }
    None
}

/// The first `i` characters of `s`, cut at their byte length `b`.
fn prefix<'a>(s: &'a str, b: usize, Ghost(i): Ghost<int>) -> (r: &'a str)
    requires
        0 <= i <= s@.len(),
        b == byte_len(s@.take(i)),
    ensures
        r@ == s@.take(i),
{
    proof {
        lemma_prefix_boundary(s@, i);
        lemma_prefix_bytes(s@, i);
    }
    let (head, _) = s.split_at(b);
    proof {
        lemma_utf8_injective(head@, s@.take(i));
    }
    head
}

/// Whether `cap` holds a valid byte range of `s`, checked at run time.
pub fn checked_range(s: &str, cap: Option<Option<(usize, usize)>>) -> (r: Option<(usize, usize)>)
    ensures
        match capture_range(s@, cap) {
            Some((b, e)) => r == Some((b as usize, e as usize)),
            None => r is None,
        },
{
    match cap {
        Some(Some((b, e))) => {
            let n = str_byte_len(s);
            if b <= e && e <= n && s.is_char_boundary(b) && s.is_char_boundary(e) {
                Some((b, e))
            } else {
                None
            }
        },
        _ => None,
    }
}

/// The word kept from an identifier that starts with an upper case letter,
/// given what `CONSTANT_PATTERN` and `ABBREV_PATTERN` capture in it.
pub fn upper_ident_word<'a>(
    ident: &'a str,
    constant: Option<Option<(usize, usize)>>,
    abbrev: Option<Option<(usize, usize)>>,
) -> (r: &'a str)
    ensures
        r@ == upper_word(ident@, constant, abbrev),
{
    if let Some((b, e)) = checked_range(ident, constant) {
        return substr(ident, b, e);
    }
    if let Some((b, e)) = checked_range(ident, abbrev) {
        return substr(ident, b, e);
    }
    let n = ident.unicode_len();
    if n <= 1 {
        return ident;
    }
    pascal_head(ident)
}

/// The first character of `s`, its byte length and the rest of `s`.
fn split_first<'a>(s: &'a str) -> (r: (char, usize, &'a str))
    requires
        s@.len() >= 1,
    ensures
        r.0 == s@[0],
        r.1 == byte_len(seq![s@[0]]),
        r.2@ == s@.drop_first(),
{
    let first = s.get_char(0);
    let fl = char_byte_len(first);
    proof {
        assert(s@.take(1) =~= seq![first]);
        lemma_prefix_boundary(s@, 1);
        lemma_prefix_bytes(s@, 1);
        assert(s@.skip(1) =~= s@.drop_first());
    }
    let tail = suffix(s, fl);
    proof {
        lemma_utf8_injective(tail@, s@.drop_first());
    }
    (first, fl, tail)
}

/// Byte length of a prefix that starts with the first character.
proof fn lemma_head_len(s: Seq<char>, j: int)
    requires
        s.len() >= 1,
        0 <= j < s.len() - 1,
    ensures
        byte_len(s.take(j + 1)) == byte_len(seq![s[0]]) + byte_len(s.drop_first().take(j)),
        byte_len(s.take(j + 1)) <= byte_len(s),
{
    assert(s.take(j + 1) =~= seq![s[0]] + s.drop_first().take(j));
    lemma_utf8_concat(seq![s[0]], s.drop_first().take(j));
    lemma_prefix_bytes(s, j + 1);
}

/// `PascalCase` gives `Pascal`: the identifier up to its second upper case
/// character, or all of it.
fn pascal_head<'a>(ident: &'a str) -> (r: &'a str)
    requires
        ident@.len() >= 2,
    ensures
        r@ == (if let Some(j) = first_upper(ident@.drop_first()) {
            ident@.take(j + 1)
        } else {
            ident@
        }),
{
    let (_, fl, tail) = split_first(ident);
    let total = str_byte_len(ident);
    match find_upper(tail) {
        Some(b) => {
            let ghost j = first_upper(tail@)->0;
            proof {
                lemma_head_len(ident@, j);
            }
            prefix(ident, fl + b, Ghost(j + 1))
        },
        None => ident,
    }
}

/// The word kept from an identifier, with `pos` passed through.
pub fn word_from_ident<'a>(ident: &'a str, pos: usize) -> (r: Option<(&'a str, usize)>)
    requires
        ident@.len() > 0,
    ensures
        r matches Some((w, p)) && w@ == word_in_ident(ident@) && p == pos,
{
    let first = ident.get_char(0);
    if is_lowercase(first) {
        if let Some(b) = find_upper(ident) {
            let w = prefix(ident, b, Ghost(first_upper(ident@)->0));
            return Some((w, pos));
        }
    }
    if is_uppercase(first) {
        let constant = capture(CONSTANT_PATTERN, ident, 1);
        let abbrev = capture(ABBREV_PATTERN, ident, 1);
        return Some((upper_ident_word(ident, constant, abbrev), pos));
    }
    Some((ident, pos))
}

/// The word kept from a token and its byte offset in the token, given what
/// `HEXA_PATTERN` and the identifier pattern found in it.
pub fn token_word<'a>(
    token: &'a str,
    hexa: Option<Option<(usize, usize)>>,
    ident: Option<Option<(usize, usize)>>,
) -> (r: Option<(&'a str, usize)>)
    ensures
        match token_word_given(token@, hexa, ident) {
            Some((w, p)) => r matches Some((rw, rp)) && rw@ == w && rp == p,
            None => r is None,
        },
        r matches Some((rw, rp)) ==> rp <= byte_len(token@),
{
    let n = token.unicode_len();
    if n == 1 && token.get_char(0) == 's' {
        assert(token@ =~= seq!['s']);
        return None;
    }
    assert(token@ != seq!['s']) by {
        if token@ == seq!['s'] {
            assert(token@[0] == 's');
        }
    }
    let url = "://";
    let at = "@";
    proof {
        reveal_strlit("://");
        reveal_strlit("@");
        assert(url@ =~= seq![':', '/', '/']);
        assert(at@ =~= seq!['@']);
    }
    if contains_str(token, url) {
        return None;
    }
    if contains_str(token, at) {
        return None;
    }
    if hexa.is_some() {
        return None;
    }
    match checked_range(token, ident) {
        Some((b, e)) => {
            let id = substr(token, b, e);
            if id.unicode_len() == 0 {
                return None;
            }
            word_from_ident(id, b)
        },
        None => None,
    }
}

/// The word kept from a token, where identifiers are capture group `group` of
/// `ident_pattern`; `None` when the token is skipped.
pub fn extract_word_with<'a>(token: &'a str, ident_pattern: &str, group: usize) -> (r: Option<
    (&'a str, usize),
>)
    ensures
        match word_in_token(token@, ident_pattern@, group) {
            Some((w, p)) => r matches Some((rw, rp)) && rw@ == w && rp == p,
            None => r is None,
        },
        r matches Some((rw, rp)) ==> rp <= byte_len(token@),
{
    let hexa = capture(HEXA_PATTERN, token, 0);
    let ident = capture(ident_pattern, token, group);
    token_word(token, hexa, ident)
}

} // verus!

verus! {

/// The words and offsets held in a vector, as values.
pub open spec fn word_views<'a>(v: Seq<(&'a str, usize)>) -> Seq<(Seq<char>, int)> {
    v.map_values(|x: (&'a str, usize)| (x.0@, x.1 as int))
}

/// A scan over one line: yields the words of the line one at a time, with
/// their byte offsets.
pub struct Scanner<'a> {
    input: &'a str,
    pos: usize,
    done: bool,
    token_pattern: &'static str,
    ident_pattern: &'static str,
    group: usize,
}

impl<'a> Scanner<'a> {
    /// The words that the scan has yet to yield.
    pub closed spec fn remaining(&self) -> Seq<(Seq<char>, int)> {
        if self.done {
            Seq::empty()
        } else {
            words_from(
                self.input@,
                self.pos as int,
                self.token_pattern@,
                self.ident_pattern@,
                self.group,
            )
        }
    }

    /// A scan of `input` from its start, where tokens match `token_pattern`
    /// and identifiers are capture group `group` of `ident_pattern`.
    pub fn new(
        input: &'a str,
        token_pattern: &'static str,
        ident_pattern: &'static str,
        group: usize,
    ) -> (r: Self)
        ensures
            r.remaining() == words_from(input@, 0, token_pattern@, ident_pattern@, group),
    {
        Scanner { input, pos: 0, done: false, token_pattern, ident_pattern, group }
    }

    /// The next word and its byte offset in the line.
    pub fn next(&mut self) -> (r: Option<(&'a str, usize)>)
        ensures
            match r {
                Some((w, p)) => old(self).remaining() == seq![(w@, p as int)] + final(self).remaining(),
                None => old(self).remaining() == Seq::<(Seq<char>, int)>::empty()
                    && final(self).remaining() == Seq::<(Seq<char>, int)>::empty(),
            },
    {
        if self.done {
            return None;
        }
        let ghost start = self.pos as int;
        let ghost tp = self.token_pattern@;
        let ghost ip = self.ident_pattern@;
        let ghost input = self.input@;
        let total = str_byte_len(self.input);
        let mut p = self.pos;
        loop
            invariant
                *old(self) == *self,
                !self.done,
                start == self.pos,
                input == self.input@,
                tp == self.token_pattern@,
                ip == self.ident_pattern@,
                total == byte_len(input),
                start <= p,
                next_word(input, start, tp, ip, self.group) == next_word(
                    input,
                    p as int,
                    tp,
                    ip,
                    self.group,
                ),
            decreases total - p,
        {
            if p > total || !self.input.is_char_boundary(p) {
                self.done = true;
                return None;
            }
            let rest = suffix(self.input, p);
            let cap = capture(self.token_pattern, rest, 0);
            let range = checked_range(rest, cap);
            if range.is_none() {
                self.done = true;
                return None;
            }
            let (b, e) = range.unwrap();
            let token = substr(rest, b, e);
            match extract_word_with(token, self.ident_pattern, self.group) {
                Some((w, wpos)) => {
                    let wl = str_byte_len(w);
                    let wp = p + b + wpos;
                    match wp.checked_add(wl) {
                        Some(np) => {
                            if self.pos < np && np <= total {
                                self.pos = np;
                            } else {
                                self.done = true;
                            }
                        },
                        None => {
                            self.done = true;
                        },
                    }
                    return Some((w, wp));
                },
                None => {
                    if e > 0 && p + e <= total {
                        p = p + e;
                    } else {
                        self.done = true;
                        return None;
                    }
                },
            }
        }
    }

    /// All the words that the scan has yet to yield, with their byte offsets.
    pub fn collect_words(&mut self) -> (r: Vec<(&'a str, usize)>)
        ensures
            word_views(r@) == old(self).remaining(),
            final(self).remaining() == Seq::<(Seq<char>, int)>::empty(),
    {
        let mut out: Vec<(&'a str, usize)> = Vec::new();
        let ghost all = self.remaining();
        loop
            invariant
                word_views(out@) + self.remaining() == all,
                all == old(self).remaining(),
            decreases self.remaining().len(),
        {
            let ghost before = out@;
            match self.next() {
                Some(x) => {
                    out.push(x);
                    proof {
                        assert(out@ =~= before.push(x));
                        assert(word_views(out@) =~= word_views(before) + seq![(x.0@, x.1 as int)]);
                    }
                },
                None => {
                    return out;
                },
            }
        }
    }
}

} // verus!
