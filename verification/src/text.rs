//! Text helpers: UTF-8 byte offsets, slicing and small string functions,
//! all stated over the `Seq<char>` view of strings.
use vstd::prelude::*;
use vstd::string::StringSliceAdditionalSpecFns;
use vstd::utf8::*;

use crate::search::{char_is_whitespace, is_whitespace};

verus! {

/// A text, as the sequence of its characters.
pub type Text = Seq<char>;

/// A list of texts.
pub type Texts = Seq<Text>;


broadcast use {
    vstd::utf8::encode_utf8_valid_utf8,
    vstd::utf8::encode_utf8_decode_utf8,
    vstd::utf8::is_char_boundary_start_end_of_seq,
    vstd::utf8::char_is_scalar,
};

/// The UTF-8 bytes of a character sequence.
pub open spec fn utf8(s: Seq<char>) -> Seq<u8> {
    encode_utf8(s)
}

/// Number of UTF-8 bytes of a character sequence: what `str::len` returns.
pub open spec fn byte_len(s: Seq<char>) -> int {
    encode_utf8(s).len() as int
}

/// The text held by bytes `from..to` of the UTF-8 encoding of `s`.
pub open spec fn byte_slice(s: Seq<char>, from: int, to: int) -> Seq<char> {
    decode_utf8(encode_utf8(s).subrange(from, to))
}

/// `from..to` is a valid byte range of `s`, cut on character boundaries.
pub open spec fn valid_byte_range(s: Seq<char>, from: int, to: int) -> bool {
    &&& 0 <= from <= to <= byte_len(s)
    &&& is_char_boundary(encode_utf8(s), from)
    &&& is_char_boundary(encode_utf8(s), to)
}

/// `needle` occurs in `hay`.
pub open spec fn seq_contains(hay: Seq<char>, needle: Seq<char>) -> bool {
    exists|i: int|
        0 <= i && i + needle.len() <= hay.len() && #[trigger] hay.subrange(i, i + needle.len())
            == needle
}

/// UTF-8 encoding distributes over concatenation.
pub proof fn lemma_utf8_concat(a: Seq<char>, b: Seq<char>)
    ensures
        encode_utf8(a + b) == encode_utf8(a) + encode_utf8(b),
    decreases a.len(),
{
    if a.len() == 0 {
        assert(a + b =~= b);
        assert(encode_utf8(a) =~= Seq::<u8>::empty());
        assert(encode_utf8(a) + encode_utf8(b) =~= encode_utf8(b));
    } else {
        assert((a + b).drop_first() =~= a.drop_first() + b);
        assert((a + b)[0] == a[0]);
        lemma_utf8_concat(a.drop_first(), b);
        assert(encode_utf8(a + b) =~= encode_scalar(a[0] as u32) + encode_utf8(a.drop_first() + b));
        assert(encode_utf8(a) + encode_utf8(b) =~= encode_scalar(a[0] as u32) + (encode_utf8(
            a.drop_first(),
        ) + encode_utf8(b)));
    }
}

/// UTF-8 encoding is injective.
pub proof fn lemma_utf8_injective(a: Seq<char>, b: Seq<char>)
    requires
        encode_utf8(a) == encode_utf8(b),
    ensures
        a == b,
{
    assert(decode_utf8(encode_utf8(a)) == a);
    assert(decode_utf8(encode_utf8(b)) == b);
}

/// The UTF-8 bytes of the first `i` characters are a prefix of the bytes of
/// the whole sequence, and the rest are the bytes of the remaining characters.
pub proof fn lemma_prefix_bytes(s: Seq<char>, i: int)
    requires
        0 <= i <= s.len(),
    ensures
        byte_len(s.take(i)) <= byte_len(s),
        encode_utf8(s).subrange(0, byte_len(s.take(i))) == encode_utf8(s.take(i)),
        encode_utf8(s).subrange(byte_len(s.take(i)), byte_len(s)) == encode_utf8(s.skip(i)),
{
    assert(s.take(i) + s.skip(i) =~= s);
    lemma_utf8_concat(s.take(i), s.skip(i));
    assert(encode_utf8(s).subrange(0, byte_len(s.take(i))) =~= encode_utf8(s.take(i)));
    assert(encode_utf8(s).subrange(byte_len(s.take(i)), byte_len(s)) =~= encode_utf8(s.skip(i)));
}

/// The UTF-8 bytes of a single character are its scalar encoding.
pub proof fn lemma_utf8_single(c: char)
    ensures
        encode_utf8(seq![c]) == encode_scalar(c as u32),
{
    assert(seq![c].drop_first() =~= Seq::<char>::empty());
    assert(encode_utf8(Seq::<char>::empty()) =~= Seq::<u8>::empty());
    assert(encode_utf8(seq![c]) =~= encode_scalar(c as u32) + Seq::<u8>::empty());
}

/// The byte length of the first `i` characters is a character boundary.
pub proof fn lemma_prefix_boundary(s: Seq<char>, i: int)
    requires
        0 <= i <= s.len(),
    ensures
        is_char_boundary(encode_utf8(s), byte_len(s.take(i))),
    decreases i,
{
    if i == 0 {
        assert(s.take(0) =~= Seq::<char>::empty());
        assert(encode_utf8(Seq::<char>::empty()) =~= Seq::<u8>::empty());
    } else {
        let bytes = encode_utf8(s);
        let rest = s.drop_first();
        encode_utf8_first_scalar(s);
        assert(pop_first_scalar(bytes) =~= encode_utf8(rest));
        lemma_prefix_boundary(rest, i - 1);
        assert(s.take(i) =~= seq![s[0]] + rest.take(i - 1));
        lemma_utf8_concat(seq![s[0]], rest.take(i - 1));
        lemma_utf8_single(s[0]);
        assert(byte_len(s.take(i)) == encode_scalar(s[0] as u32).len() + byte_len(
            rest.take(i - 1),
        ));
        lemma_prefix_bytes(s, i);
    }
}

/// Character boundaries of a suffix cut at a boundary are the boundaries of
/// the whole sequence, shifted.
pub proof fn lemma_suffix_boundary(b: Seq<u8>, pos: int, i: int)
    requires
        valid_utf8(b),
        0 <= pos <= b.len(),
        is_char_boundary(b, pos),
        0 <= i <= b.len() - pos,
    ensures
        valid_utf8(b.subrange(pos, b.len() as int)),
        is_char_boundary(b.subrange(pos, b.len() as int), i) <==> is_char_boundary(b, pos + i),
{
    broadcast use vstd::utf8::valid_utf8_split;

    let t = b.subrange(pos, b.len() as int);
    assert(valid_utf8(t));
    if i < t.len() {
        assert(t[i] == b[pos + i]);
        is_char_boundary_iff_not_is_continuation_byte(t, i);
        is_char_boundary_iff_not_is_continuation_byte(b, pos + i);
    } else {
        is_char_boundary_start_end_of_seq(t);
        is_char_boundary_start_end_of_seq(b);
        assert(pos + i == b.len());
    }
}

/// Bytes `from..to` of `s` as a string slice.
pub fn substr(s: &str, from: usize, to: usize) -> (r: &str)
    requires
        valid_byte_range(s@, from as int, to as int),
    ensures
        r@ == byte_slice(s@, from as int, to as int),
        encode_utf8(r@) == encode_utf8(s@).subrange(from as int, to as int),
{
    let ghost b = encode_utf8(s@);
    let (_, tail) = s.split_at(from);
    proof {
        lemma_suffix_boundary(b, from as int, (to - from) as int);
        assert(tail.spec_bytes() =~= b.subrange(from as int, b.len() as int));
    }
    let (mid, _) = tail.split_at(to - from);
    proof {
        assert(mid.spec_bytes() =~= b.subrange(from as int, to as int));
        assert(decode_utf8(encode_utf8(mid@)) == mid@);
    }
    mid
}

/// Bytes `from..` of `s` as a string slice.
pub fn suffix(s: &str, from: usize) -> (r: &str)
    requires
        from <= byte_len(s@),
        is_char_boundary(encode_utf8(s@), from as int),
    ensures
        r@ == byte_slice(s@, from as int, byte_len(s@)),
        encode_utf8(r@) == encode_utf8(s@).subrange(from as int, byte_len(s@)),
{
    let (_, tail) = s.split_at(from);
    proof {
        assert(decode_utf8(encode_utf8(tail@)) == tail@);
    }
    tail
}

/// The number of UTF-8 bytes of `c`: what `char::len_utf8` returns.
pub fn char_byte_len(c: char) -> (n: usize)
    ensures
        n as int == byte_len(seq![c]),
        1 <= n <= 4,
{
    proof {
        lemma_utf8_single(c);
    }
    let u = c as u32;
    if u < 0x80 {
        1
    } else if u < 0x800 {
        2
    } else if u < 0x10000 {
        3
    } else {
        4
    }
}

/// Whether `needle` occurs in `hay`, as `str::contains` decides.
pub fn contains_str(hay: &str, needle: &str) -> (r: bool)
    ensures
        r == seq_contains(hay@, needle@),
{
    let n = hay.unicode_len();
    let m = needle.unicode_len();
    if m > n {
        return false;
    }
    let mut i: usize = 0;
    while i <= n - m
        invariant
            n == hay@.len(),
            m == needle@.len(),
            m <= n,
            i <= n - m + 1,
            forall|k: int| 0 <= k < i ==> #[trigger] hay@.subrange(k, k + m) != needle@,
        decreases n - m + 1 - i,
    {
        let mut j: usize = 0;
        let mut same = true;
        while j < m
            invariant
                n == hay@.len(),
                m == needle@.len(),
                i + m <= n,
                j <= m,
                same == (forall|k: int| 0 <= k < j ==> hay@[i + k] == needle@[k]),
            decreases m - j,
        {
            if hay.get_char(i + j) != needle.get_char(j) {
                same = false;
            }
            j = j + 1;
        }
        if same {
            assert(hay@.subrange(i as int, i + m) =~= needle@);
            return true;
        }
        assert(hay@.subrange(i as int, i + m) != needle@) by {
            if hay@.subrange(i as int, i + m) == needle@ {
                assert forall|k: int| 0 <= k < m implies hay@[i + k] == needle@[k] by {
                    assert(hay@.subrange(i as int, i + m)[k] == hay@[i + k]);
                }
            }
        }
        i = i + 1;
    }
    assert forall|k: int| 0 <= k && k + m <= n implies #[trigger] hay@.subrange(k, k + m)
        != needle@ by {
        assert(k < i);
    }
    false
}

} // verus!

verus! {

/// Whether `a` and `b` hold the same text.
pub fn str_eq(a: &str, b: &str) -> (r: bool)
    ensures
        r == (a@ == b@),
{
    let n = a.unicode_len();
    if n != b.unicode_len() {
        return false;
    }
    let mut i: usize = 0;
    while i < n
        invariant
            n == a@.len(),
            n == b@.len(),
            i <= n,
            forall|k: int| 0 <= k < i ==> a@[k] == b@[k],
        decreases n - i,
    {
        if a.get_char(i) != b.get_char(i) {
            return false;
        }
        i = i + 1;
    }
    assert(a@ =~= b@);
    true
}

} // verus!

verus! {

/// The empty string.
pub fn empty_str() -> (r: &'static str)
    ensures
        r@ == Seq::<char>::empty(),
{
    let e = "";
    proof {
        reveal_strlit("");
        assert(e@.len() == 0);
        assert(e@ =~= Seq::<char>::empty());
    }
    e
}

/// Converting a pushed sequence into a set adds the element.
pub proof fn lemma_push_to_set<A>(s: Seq<A>, x: A)
    ensures
        s.push(x).to_set() == s.to_set().insert(x),
{
    assert forall|y: A| s.push(x).to_set().contains(y) <==> s.to_set().insert(x).contains(y) by {
        if s.push(x).contains(y) {
            let k = choose|k: int| 0 <= k < s.push(x).len() && s.push(x)[k] == y;
            if k < s.len() {
                assert(s[k] == y);
            }
        }
        if s.contains(y) {
            let k = choose|k: int| 0 <= k < s.len() && s[k] == y;
            assert(s.push(x)[k] == y);
        }
        if y == x {
            assert(s.push(x)[s.len() as int] == x);
        }
    }
    assert(s.push(x).to_set() =~= s.to_set().insert(x));
}

} // verus!

verus! {

/// The decimal digit for `d`.
pub open spec fn digit_char(d: nat) -> char {
    if d == 0 {
        '0'
    } else if d == 1 {
        '1'
    } else if d == 2 {
        '2'
    } else if d == 3 {
        '3'
    } else if d == 4 {
        '4'
    } else if d == 5 {
        '5'
    } else if d == 6 {
        '6'
    } else if d == 7 {
        '7'
    } else if d == 8 {
        '8'
    } else {
        '9'
    }
}

/// The decimal writing of `n`, without leading zeros.
pub open spec fn decimal(n: nat) -> Seq<char>
    decreases n,
{
    if n < 10 {
        seq![digit_char(n)]
    } else {
        decimal(n / 10).push(digit_char(n % 10))
    }
}

/// One decimal digit as a string.
fn digit_str(d: usize) -> (r: &'static str)
    requires
        d < 10,
    ensures
        r@ == seq![digit_char(d as nat)],
{
    let r = if d == 0 {
        "0"
    } else if d == 1 {
        "1"
    } else if d == 2 {
        "2"
    } else if d == 3 {
        "3"
    } else if d == 4 {
        "4"
    } else if d == 5 {
        "5"
    } else if d == 6 {
        "6"
    } else if d == 7 {
        "7"
    } else if d == 8 {
        "8"
    } else {
        "9"
    };
    proof {
        reveal_strlit("0");
        reveal_strlit("1");
        reveal_strlit("2");
        reveal_strlit("3");
        reveal_strlit("4");
        reveal_strlit("5");
        reveal_strlit("6");
        reveal_strlit("7");
        reveal_strlit("8");
        reveal_strlit("9");
        assert(r@ =~= seq![digit_char(d as nat)]);
    }
    r
}

/// The decimal writing of `n`, as `usize::to_string` gives it.
pub fn usize_to_string(n: usize) -> (r: String)
    ensures
        r@ == decimal(n as nat),
    decreases n,
{
    if n < 10 {
        String::from_str(digit_str(n))
    } else {
        let head = usize_to_string(n / 10);
        let r = head.concat(digit_str(n % 10));
        assert(r@ =~= decimal(n as nat));
        r
    }
}

/// Whether `c` is an ASCII decimal digit.
pub open spec fn is_digit(c: char) -> bool {
    '0' <= c <= '9'
}

/// The value of a run of decimal digits.
pub open spec fn digits_value(s: Seq<char>) -> nat
    decreases s.len(),
{
    if s.len() == 0 {
        0
    } else {
        digits_value(s.drop_last()) * 10 + (s.last() as nat - '0' as nat) as nat
    }
}

/// The digits that `usize::from_str` reads: all of `s`, after an optional `+`.
pub open spec fn unsigned_digits(s: Seq<char>) -> Seq<char> {
    if s.len() > 0 && s[0] == '+' {
        s.drop_first()
    } else {
        s
    }
}

/// What `s.parse::<usize>()` gives: the value of the digits after an
/// optional `+`, when there is at least one digit, nothing else, and the
/// value fits in `usize`.
pub open spec fn parsed_usize(s: Seq<char>) -> Option<usize> {
    let d = unsigned_digits(s);
    if d.len() > 0 && (forall|i: int| 0 <= i < d.len() ==> is_digit(#[trigger] d[i]))
        && digits_value(d) <= usize::MAX {
        Some(digits_value(d) as usize)
    } else {
        None
    }
}

/// Parses a non-negative decimal number, as `s.parse::<usize>()` does.
pub fn parse_usize(s: &str) -> (r: Option<usize>)
    ensures
        r == parsed_usize(s@),
{
    let n = s.unicode_len();
    let start: usize = if n > 0 && s.get_char(0) == '+' {
        1
    } else {
        0
    };
    let ghost d = unsigned_digits(s@);
    assert(d =~= s@.skip(start as int));
    if start == n {
        return None;
    }
    let mut value: usize = 0;
    let mut i: usize = start;
    while i < n
        invariant
            n == s@.len(),
            start <= i <= n,
            d == s@.skip(start as int),
            d == unsigned_digits(s@),
            forall|k: int| 0 <= k < i - start ==> is_digit(#[trigger] d[k]),
            value as nat == digits_value(d.take(i - start)),
        decreases n - i,
    {
        let c = s.get_char(i);
        let ghost k = i - start;
        assert(d[k] == c);
        if !('0' <= c && c <= '9') {
            assert(!is_digit(d[k]));
            return None;
        }
        assert(d.take(k + 1).drop_last() =~= d.take(k));
        assert(d.take(k + 1).last() == c);
        let digit = (c as u32 - '0' as u32) as usize;
        match value.checked_mul(10) {
            Some(v) => match v.checked_add(digit) {
                Some(w) => {
                    value = w;
                },
                None => {
                    proof {
                        if forall|j: int| 0 <= j < d.len() ==> is_digit(#[trigger] d[j]) {
                            lemma_digits_value_prefix(d, k + 1);
                            assert(digits_value(d.take(k + 1)) == v + digit);
                        }
                    }
                    return None;
                },
            },
            None => {
                proof {
                    if forall|j: int| 0 <= j < d.len() ==> is_digit(#[trigger] d[j]) {
                        lemma_digits_value_prefix(d, k + 1);
                        assert(digits_value(d.take(k + 1)) == value * 10 + digit) by (nonlinear_arith)
                            requires digits_value(d.take(k + 1)) == digits_value(d.take(k)) * 10 + (c as nat - '0' as nat) as nat,
                                value as nat == digits_value(d.take(k)),
                                digit == (c as u32 - '0' as u32);
                    }
                }
                return None;
            },
        }
        i = i + 1;
    }
    assert(d.take(n - start) =~= d);
    Some(value)
}

/// A run of digits is worth at least as much as each of its prefixes.
pub proof fn lemma_digits_value_prefix(d: Seq<char>, k: int)
    requires
        0 <= k <= d.len(),
        forall|i: int| 0 <= i < d.len() ==> is_digit(#[trigger] d[i]),
    ensures
        digits_value(d.take(k)) <= digits_value(d),
    decreases d.len() - k,
{
    if k < d.len() {
        lemma_digits_value_prefix(d, k + 1);
        assert(d.take(k + 1).drop_last() =~= d.take(k));
        assert(is_digit(d.take(k + 1).last()));
    } else {
        assert(d.take(k) =~= d);
    }
}

/// Index of the first `c` in `s`, if any.
pub open spec fn first_index(s: Seq<char>, c: char) -> Option<int> {
    if exists|i: int| 0 <= i < s.len() && #[trigger] s[i] == c {
        Some(
            choose|i: int|
                0 <= i < s.len() && #[trigger] s[i] == c && forall|k: int|
                    0 <= k < i ==> #[trigger] s[k] != c,
        )
    } else {
        None
    }
}

/// Index of the last `c` in `s`, if any.
pub open spec fn last_index(s: Seq<char>, c: char) -> Option<int> {
    if exists|i: int| 0 <= i < s.len() && #[trigger] s[i] == c {
        Some(
            choose|i: int|
                0 <= i < s.len() && #[trigger] s[i] == c && forall|k: int|
                    i < k < s.len() ==> #[trigger] s[k] != c,
        )
    } else {
        None
    }
}

/// What `str::split_once(c)` gives: the text before the first `c` and the
/// text after it.
pub open spec fn split_once_spec(s: Seq<char>, c: char) -> Option<(Seq<char>, Seq<char>)> {
    match first_index(s, c) {
        Some(i) => Some((s.take(i), s.skip(i + 1))),
        None => None,
    }
}

/// What `str::rsplit_once(c)` gives: the text before the last `c` and the
/// text after it.
pub open spec fn rsplit_once_spec(s: Seq<char>, c: char) -> Option<(Seq<char>, Seq<char>)> {
    match last_index(s, c) {
        Some(i) => Some((s.take(i), s.skip(i + 1))),
        None => None,
    }
}

/// Splits at the first `c`, as `str::split_once` does.
pub fn split_once<'a>(s: &'a str, c: char) -> (r: Option<(&'a str, &'a str)>)
    ensures
        match split_once_spec(s@, c) {
            Some((a, b)) => r matches Some((x, y)) && x@ == a && y@ == b,
            None => r is None,
        },
{
    let n = s.unicode_len();
    let mut i: usize = 0;
    while i < n
        invariant
            n == s@.len(),
            i <= n,
            forall|k: int| 0 <= k < i ==> #[trigger] s@[k] != c,
        decreases n - i,
    {
        if s.get_char(i) == c {
            proof {
                let j = first_index(s@, c)->0;
                assert(s@[i as int] == c);
                assert(first_index(s@, c) is Some);
                if j < i {
                    assert(s@[j] != c);
                } else if j > i {
                    assert(s@[i as int] != c);
                }
            }
            let a = s.substring_char(0, i);
            let b = s.substring_char(i + 1, n);
            assert(a@ =~= s@.take(i as int));
            assert(b@ =~= s@.skip(i + 1));
            return Some((a, b));
        }
        i = i + 1;
    }
    proof {
        if first_index(s@, c) is Some {
            let j = choose|j: int| 0 <= j < s@.len() && #[trigger] s@[j] == c;
            assert(s@[j] != c);
        }
    }
    None
}

/// Splits at the last `c`, as `str::rsplit_once` does.
pub fn rsplit_once<'a>(s: &'a str, c: char) -> (r: Option<(&'a str, &'a str)>)
    ensures
        match rsplit_once_spec(s@, c) {
            Some((a, b)) => r matches Some((x, y)) && x@ == a && y@ == b,
            None => r is None,
        },
{
    let n = s.unicode_len();
    let mut i: usize = n;
    while i > 0
        invariant
            n == s@.len(),
            i <= n,
            forall|k: int| i <= k < n ==> #[trigger] s@[k] != c,
        decreases i,
    {
        if s.get_char(i - 1) == c {
            let ghost d = i - 1;
            proof {
                let j = last_index(s@, c)->0;
                assert(s@[d] == c);
                assert(last_index(s@, c) is Some);
                if j < d {
                    assert(s@[d] != c);
                } else if j > d {
                    assert(s@[j] != c);
                }
            }
            let a = s.substring_char(0, i - 1);
            let b = s.substring_char(i, n);
            assert(a@ =~= s@.take(d));
            assert(b@ =~= s@.skip(d + 1));
            return Some((a, b));
        }
        i = i - 1;
    }
    proof {
        if last_index(s@, c) is Some {
            let j = choose|j: int| 0 <= j < s@.len() && #[trigger] s@[j] == c;
            assert(s@[j] != c);
        }
    }
    None
}

} // verus!

verus! {

/// Whether `c` separates fields: Unicode white space, or, when `ascii`,
/// the ASCII white space that `char::is_ascii_whitespace` accepts (space,
/// tab, line feed, form feed, carriage return).
pub open spec fn separates(c: char, ascii: bool) -> bool {
    if ascii {
        c == ' ' || c == '\t' || c == '\n' || c == '\x0C' || c == '\r'
    } else {
        char_is_whitespace(c)
    }
}

/// The fields of `s[i..]`, given the field `cur` being read and the fields
/// `acc` already read: the maximal runs of characters that do not separate
/// fields, as `str::split_whitespace` (or `split_ascii_whitespace`, when
/// `ascii`) yields them.
pub open spec fn fields_from(s: Seq<char>, i: int, cur: Seq<char>, acc: Seq<Seq<char>>, ascii: bool) -> Seq<
    Seq<char>,
>
    decreases s.len() - i,
{
    if i >= s.len() || i < 0 {
        if cur.len() > 0 {
            acc.push(cur)
        } else {
            acc
        }
    } else if separates(s[i], ascii) {
        fields_from(
            s,
            i + 1,
            Seq::empty(),
            if cur.len() > 0 {
                acc.push(cur)
            } else {
                acc
            },
            ascii,
        )
    } else {
        fields_from(s, i + 1, cur.push(s[i]), acc, ascii)
    }
}

/// The fields of `s`, as `str::split_whitespace` yields them.
pub open spec fn fields(s: Seq<char>) -> Seq<Seq<char>> {
    fields_from(s, 0, Seq::empty(), Seq::empty(), false)
}

/// The fields of `s`, as `str::split_ascii_whitespace` yields them.
pub open spec fn ascii_fields(s: Seq<char>) -> Seq<Seq<char>> {
    fields_from(s, 0, Seq::empty(), Seq::empty(), true)
}

/// Whether `c` separates fields.
fn is_separator(c: char, ascii: bool) -> (r: bool)
    ensures
        r == separates(c, ascii),
{
    if ascii {
        c == ' ' || c == '\t' || c == '\n' || c == '\x0C' || c == '\r'
    } else {
        is_whitespace(c)
    }
}

/// The fields of `s`, split on Unicode or on ASCII white space.
fn split_fields(s: &str, ascii: bool) -> (r: Vec<String>)
    ensures
        r@.map_values(|x: String| x@) == fields_from(s@, 0, Seq::empty(), Seq::empty(), ascii),
{
    let n = s.unicode_len();
    let mut out: Vec<String> = Vec::new();
    let mut start: usize = 0;
    let mut i: usize = 0;
    let ghost all = fields_from(s@, 0, Seq::empty(), Seq::empty(), ascii);
    assert(s@.subrange(0, 0) =~= Seq::<char>::empty());
    assert(out@.map_values(|x: String| x@) =~= Seq::<Seq<char>>::empty());
    while i < n
        invariant
            n == s@.len(),
            start <= i <= n,
            all == fields_from(s@, 0, Seq::empty(), Seq::empty(), ascii),
            all == fields_from(
                s@,
                i as int,
                s@.subrange(start as int, i as int),
                out@.map_values(|x: String| x@),
                ascii,
            ),
        decreases n - i,
    {
        let c = s.get_char(i);
        if is_separator(c, ascii) {
            if start < i {
                let ghost before = out@;
                out.push(String::from_str(s.substring_char(start, i)));
                assert(out@.map_values(|x: String| x@) =~= before.map_values(|x: String| x@).push(
                    s@.subrange(start as int, i as int),
                ));
            }
            assert(s@.subrange(i + 1, i + 1) =~= Seq::<char>::empty());
            start = i + 1;
        } else {
            assert(s@.subrange(start as int, i + 1) =~= s@.subrange(start as int, i as int).push(c));
        }
        i = i + 1;
    }
    if start < n {
        let ghost before = out@;
        out.push(String::from_str(s.substring_char(start, n)));
        assert(out@.map_values(|x: String| x@) =~= before.map_values(|x: String| x@).push(
            s@.subrange(start as int, n as int),
        ));
    }
    out
}

/// The fields of `s`.
pub fn split_whitespace(s: &str) -> (r: Vec<String>)
    ensures
        r@.map_values(|x: String| x@) == fields(s@),
{
    split_fields(s, false)
}

/// The fields of `s`, split on ASCII white space only.
pub fn split_ascii_whitespace(s: &str) -> (r: Vec<String>)
    ensures
        r@.map_values(|x: String| x@) == ascii_fields(s@),
{
    split_fields(s, true)
}

/// Whether `s` holds only white space, as `s.trim().is_empty()` decides.
pub fn is_blank(s: &str) -> (r: bool)
    ensures
        r == forall|i: int| 0 <= i < s@.len() ==> char_is_whitespace(#[trigger] s@[i]),
{
    let n = s.unicode_len();
    let mut i: usize = 0;
    while i < n
        invariant
            n == s@.len(),
            i <= n,
            forall|k: int| 0 <= k < i ==> char_is_whitespace(#[trigger] s@[k]),
        decreases n - i,
    {
        if !is_whitespace(s.get_char(i)) {
            return false;
        }
        i = i + 1;
    }
    true
}

} // verus!

verus! {

/// Index of the first place where `a` is directly followed by `b`, if any.
pub open spec fn pair_index(s: Seq<char>, a: char, b: char) -> Option<int> {
    if exists|i: int| 0 <= i && i + 1 < s.len() && #[trigger] s[i] == a && s[i + 1] == b {
        Some(
            choose|i: int|
                0 <= i && i + 1 < s.len() && #[trigger] s[i] == a && s[i + 1] == b && forall|k: int|
                    0 <= k < i ==> !(#[trigger] s[k] == a && s[k + 1] == b),
        )
    } else {
        None
    }
}

/// What `str::split_once` with the two-character separator `ab` gives.
pub open spec fn split_once_pair_spec(s: Seq<char>, a: char, b: char) -> Option<(Seq<char>, Seq<char>)> {
    match pair_index(s, a, b) {
        Some(i) => Some((s.take(i), s.skip(i + 2))),
        None => None,
    }
}

/// Splits at the first occurrence of the separator `ab`.
pub fn split_once_pair<'a>(s: &'a str, a: char, b: char) -> (r: Option<(&'a str, &'a str)>)
    ensures
        match split_once_pair_spec(s@, a, b) {
            Some((x, y)) => r matches Some((u, v)) && u@ == x && v@ == y,
            None => r is None,
        },
{
    let n = s.unicode_len();
    let mut i: usize = 0;
    while i < n && i + 1 < n
        invariant
            n == s@.len(),
            i <= n,
            forall|k: int| 0 <= k < i && k + 1 < n ==> !(#[trigger] s@[k] == a && s@[k + 1] == b),
        decreases n - i,
    {
        if s.get_char(i) == a && s.get_char(i + 1) == b {
            proof {
                assert(s@[i as int] == a && s@[i + 1] == b);
                let j = pair_index(s@, a, b)->0;
                if j < i {
                    assert(!(s@[j] == a && s@[j + 1] == b));
                } else if j > i {
                    assert(!(s@[i as int] == a && s@[i + 1] == b));
                }
            }
            let x = s.substring_char(0, i);
            let y = s.substring_char(i + 2, n);
            assert(x@ =~= s@.take(i as int));
            assert(y@ =~= s@.skip(i + 2));
            return Some((x, y));
        }
        i = i + 1;
    }
    proof {
        if pair_index(s@, a, b) is Some {
            let j = choose|j: int| 0 <= j && j + 1 < s@.len() && #[trigger] s@[j] == a && s@[j + 1] == b;
            assert(!(s@[j] == a && s@[j + 1] == b));
        }
    }
    None
}

/// `s` with each `c` replaced by `w`, as `str::replace` does.
pub open spec fn replaced(s: Seq<char>, c: char, w: Seq<char>) -> Seq<char>
    decreases s.len(),
{
    if s.len() == 0 {
        Seq::empty()
    } else {
        replaced(s.drop_last(), c, w) + if s.last() == c {
            w
        } else {
            seq![s.last()]
        }
    }
}

/// Replaces each `c` of `s` by `w`.
pub fn replace_char(s: &str, c: char, w: &str) -> (r: String)
    ensures
        r@ == replaced(s@, c, w@),
{
    let n = s.unicode_len();
    let mut out = String::new();
    let mut i: usize = 0;
    while i < n
        invariant
            n == s@.len(),
            i <= n,
            out@ == replaced(s@.take(i as int), c, w@),
        decreases n - i,
    {
        let ghost before = out@;
        assert(s@.take(i + 1).drop_last() =~= s@.take(i as int));
        if s.get_char(i) == c {
            out.append(w);
        } else {
            let one = s.substring_char(i, i + 1);
            assert(one@ =~= seq![s@[i as int]]);
            out.append(one);
        }
        i = i + 1;
    }
    assert(s@.take(n as int) =~= s@);
    out
}

/// Whether `s` starts and ends with `c` (a single `c` does both).
pub fn starts_and_ends_with(s: &str, c: char) -> (r: bool)
    ensures
        r == (s@.len() > 0 && s@[0] == c && s@.last() == c),
{
    let n = s.unicode_len();
    n > 0 && s.get_char(0) == c && s.get_char(n - 1) == c
}

/// Whether `s` starts with the two characters `ab`.
pub fn starts_with_pair(s: &str, a: char, b: char) -> (r: bool)
    ensures
        r == (s@.len() >= 2 && s@[0] == a && s@[1] == b),
{
    let n = s.unicode_len();
    n >= 2 && s.get_char(0) == a && s.get_char(1) == b
}

} // verus!
