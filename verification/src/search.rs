//! Calls into the `regex` crate and into std's Unicode character tables,
//! and the white space test that std's `char::is_whitespace` makes.
use vstd::prelude::*;

use crate::text::valid_byte_range;

verus! {

/// What `regex` finds: compiling `pattern` with `regex::Regex::new` and
/// searching `haystack` with `Regex::captures` gives the byte range of
/// capture group `group` in the leftmost-first match. `None`: the pattern did
/// not compile or nothing matched; `Some(None)`: the group took no part in the
/// match.
pub uninterp spec fn regex_capture(pattern: Seq<char>, haystack: Seq<char>, group: usize) -> Option<
    Option<(usize, usize)>,
>;

/// What std's `str::to_lowercase` gives for a text (Unicode lower case
/// mapping of each character).
pub uninterp spec fn lowercase(s: Seq<char>) -> Seq<char>;

/// Whether std's `char::is_lowercase` holds (Unicode `Lowercase` property).
pub uninterp spec fn char_is_lowercase(c: char) -> bool;

/// Whether std's `char::is_uppercase` holds (Unicode `Uppercase` property).
pub uninterp spec fn char_is_uppercase(c: char) -> bool;

/// Whether `c` has the Unicode `White_Space` property, which std's
/// `char::is_whitespace` follows: tab to carriage return, space, next line,
/// no-break space, ogham space mark, the spaces from en quad to hair space,
/// the line and paragraph separators, narrow no-break space, medium
/// mathematical space and ideographic space.
pub open spec fn char_is_whitespace(c: char) -> bool {
    ||| ('\t' <= c && c <= '\r')
    ||| c == ' '
    ||| c == '\u{85}'
    ||| c == '\u{A0}'
    ||| c == '\u{1680}'
    ||| ('\u{2000}' <= c && c <= '\u{200A}')
    ||| c == '\u{2028}'
    ||| c == '\u{2029}'
    ||| c == '\u{202F}'
    ||| c == '\u{205F}'
    ||| c == '\u{3000}'
}

/// Calls `regex::Regex::new(pattern)` and `Regex::captures(haystack)`, then
/// `Captures::get(group)`, and hands back the byte offsets of that match.
/// The contract claims that the result is a function of the three arguments,
/// and what the `regex` documentation states of a `Match`: `start <= end`,
/// both on UTF-8 character boundaries of the haystack, and that group 0 is
/// present whenever there is a match. The regex is compiled on each call: a
/// compiled `Regex` has no value that Verus can name.
#[verifier::external_body]
pub(crate) fn capture(pattern: &str, haystack: &str, group: usize) -> (r: Option<
    Option<(usize, usize)>,
>)
    ensures
        r == regex_capture(pattern@, haystack@, group),
        r matches Some(Some((s, e))) ==> valid_byte_range(haystack@, s as int, e as int),
        group == 0 && r is Some ==> r->0 is Some,
{
    match regex::Regex::new(pattern) {
        Err(_) => None,
        Ok(re) => match re.captures(haystack) {
            None => None,
            Some(caps) => Some(caps.get(group).map(|m| (m.start(), m.end()))),
        },
    }
}

/// Calls std's `char::is_lowercase`; the contract only names its result.
#[verifier::external_body]
pub(crate) fn is_lowercase(c: char) -> (r: bool)
    ensures
        r == char_is_lowercase(c),
{
    c.is_lowercase()
}

/// Whether `c` is white space, as std's `char::is_whitespace` decides.
pub(crate) fn is_whitespace(c: char) -> (r: bool)
    ensures
        r == char_is_whitespace(c),
{
    ('\t' <= c && c <= '\r') || c == ' ' || c == '\u{85}' || c == '\u{A0}' || c == '\u{1680}'
        || ('\u{2000}' <= c && c <= '\u{200A}') || c == '\u{2028}' || c == '\u{2029}' || c
        == '\u{202F}' || c == '\u{205F}' || c == '\u{3000}'
}

/// Calls std's `char::is_uppercase`; the contract only names its result.
#[verifier::external_body]
pub(crate) fn is_uppercase(c: char) -> (r: bool)
    ensures
        r == char_is_uppercase(c),
{
    c.is_uppercase()
}

/// Calls std's `str::to_lowercase`; the contract only names the result.
#[verifier::external_body]
pub(crate) fn to_lowercase(s: &str) -> (r: String)
    ensures
        r@ == lowercase(s@),
{
    s.to_lowercase()
}

} // verus!
