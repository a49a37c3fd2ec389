//! Properties that hold across the operations of the library: what a read
//! gives back after a write, what a removal undoes, and how moving between
//! errors wraps around.
use vstd::prelude::*;

use crate::checker::Checker;
use crate::dictionary::Dictionary;
use crate::error::Error;
use crate::kak::checker::{
    ErrorView, KakouneChecker, buffer_header, code_text, error_line_text, error_range_text, range_piece,
    range_pieces, selection_text,
};
use crate::kak::cli::{
    Buffer, buffers_errors, checked_file, line_selection_of, menu_text, suggestion_entries,
    suggestion_entry, token_errors,
};
use crate::kak::io::{OperatingSystemIO, ends_after, ends_before, next_index, previous_index};
use crate::project::{extension_of, path_file_name};
use crate::repo::{RepoView, lookup, skipped};
use crate::repository::{ProjectInfo, Repository, RepositoryModel, gone_ids, ignores, project_id_of, skips};
use crate::search::{lowercase, regex_capture};
use crate::words::{HEXA_PATTERN, word_in_token};
use crate::tokens::{line_words, lines_tokens};
use crate::text::{
    byte_len, decimal, seq_contains, digit_char, digits_value, first_index, is_digit, pair_index, parsed_usize,
    split_once_pair_spec, split_once_spec, unsigned_digits,
};

verus! {

/// A word added to the global ignore list is ignored in every file of
/// every project.
pub proof fn law_global_ignore(m: RepositoryModel, word: Seq<char>, project_id: int, path: Seq<char>)
    ensures
        ignores(RepositoryModel { ignored: m.ignored.insert(lowercase(word)), ..m }, word, project_id, path),
{
}

/// A word added to the ignore list of an extension is ignored in every file
/// with that extension.
pub proof fn law_extension_ignore(
    m: RepositoryModel,
    word: Seq<char>,
    ext: Seq<char>,
    project_id: int,
    path: Seq<char>,
)
    requires
        path_file_name(path) matches Some(f) && extension_of(f) == Some(ext),
    ensures
        ignores(
            RepositoryModel {
                ignored_for_extension: m.ignored_for_extension.insert((ext, lowercase(word))),
                extensions: m.extensions.insert(ext),
                ..m
            },
            word,
            project_id,
            path,
        ),
{
}

/// A word added to the ignore list of a project is ignored in every file of
/// that project.
pub proof fn law_project_ignore(m: RepositoryModel, word: Seq<char>, project_id: int, path: Seq<char>)
    ensures
        ignores(
            RepositoryModel {
                ignored_for_project: m.ignored_for_project.insert((project_id, lowercase(word))),
                project_lists: m.project_lists.insert(project_id),
                ..m
            },
            word,
            project_id,
            path,
        ),
{
}

/// A word added to the ignore list of a file is ignored in that file.
pub proof fn law_path_ignore(m: RepositoryModel, word: Seq<char>, project_id: int, path: Seq<char>)
    ensures
        ignores(
            RepositoryModel {
                ignored_for_path: m.ignored_for_path.insert((project_id, path, lowercase(word))),
                path_lists: m.path_lists.insert((project_id, path)),
                ..m
            },
            word,
            project_id,
            path,
        ),
{
}

/// Ignore rules do not depend on case: two words with the same lowercase
/// form are ignored in the same files.
pub proof fn law_ignoring_ignores_case(
    m: RepositoryModel,
    a: Seq<char>,
    b: Seq<char>,
    project_id: int,
    path: Seq<char>,
)
    requires
        lowercase(a) == lowercase(b),
    ensures
        ignores(m, a, project_id, path) == ignores(m, b, project_id, path),
{
}

/// Adding a word to any ignore list never makes an ignored word checked
/// again.
pub proof fn law_adding_keeps_ignored(
    m: RepositoryModel,
    n: RepositoryModel,
    word: Seq<char>,
    project_id: int,
    path: Seq<char>,
)
    requires
        m.ignored.subset_of(n.ignored),
        m.ignored_for_extension.subset_of(n.ignored_for_extension),
        m.ignored_for_project.subset_of(n.ignored_for_project),
        m.ignored_for_path.subset_of(n.ignored_for_path),
        ignores(m, word, project_id, path),
    ensures
        ignores(n, word, project_id, path),
{
}

/// Removing a word from the global list right after adding it gives back
/// the same answers, when the word was not in the list before.
pub proof fn law_remove_undoes_ignore(
    m: RepositoryModel,
    word: Seq<char>,
    other: Seq<char>,
    project_id: int,
    path: Seq<char>,
)
    requires
        !m.ignored.contains(lowercase(word)),
    ensures
        ignores(
            RepositoryModel { ignored: m.ignored.insert(lowercase(word)).remove(lowercase(word)), ..m },
            other,
            project_id,
            path,
        ) == ignores(m, other, project_id, path),
{
    assert(m.ignored.insert(lowercase(word)).remove(lowercase(word)) =~= m.ignored);
}

/// Removing a word from the list of an extension right after adding it
/// gives back the same answers, when the word was not in that list before.
pub proof fn law_remove_undoes_extension_ignore(
    m: RepositoryModel,
    word: Seq<char>,
    ext: Seq<char>,
    other: Seq<char>,
    project_id: int,
    path: Seq<char>,
)
    requires
        !m.ignored_for_extension.contains((ext, lowercase(word))),
    ensures
        ignores(
            RepositoryModel {
                ignored_for_extension: m.ignored_for_extension.insert((ext, lowercase(word))).remove((ext, lowercase(word))),
                extensions: m.extensions.insert(ext),
                ..m
            },
            other,
            project_id,
            path,
        ) == ignores(m, other, project_id, path),
{
    assert(m.ignored_for_extension.insert((ext, lowercase(word))).remove((ext, lowercase(word))) =~= m.ignored_for_extension);
}

/// A skipped file name skips every file of that name.
pub proof fn law_skip_file_name(m: RepositoryModel, name: Seq<char>, project_id: int, path: Seq<char>)
    requires
        path_file_name(path) == Some(name),
    ensures
        skips(
            RepositoryModel { skipped_file_names: m.skipped_file_names.insert(name), ..m },
            project_id,
            path,
        ),
{
}

/// A skipped path of a project is skipped.
pub proof fn law_skip_path(m: RepositoryModel, project_id: int, path: Seq<char>)
    ensures
        skips(
            RepositoryModel { skipped_paths: m.skipped_paths.insert((project_id, path)), ..m },
            project_id,
            path,
        ),
{
}

/// Unskipping a file name right after skipping it gives back the same
/// answers, when it was not skipped before.
pub proof fn law_unskip_undoes_skip(m: RepositoryModel, name: Seq<char>, project_id: int, path: Seq<char>)
    requires
        !m.skipped_file_names.contains(name),
    ensures
        skips(
            RepositoryModel { skipped_file_names: m.skipped_file_names.insert(name).remove(name), ..m },
            project_id,
            path,
        ) == skips(m, project_id, path),
{
    assert(m.skipped_file_names.insert(name).remove(name) =~= m.skipped_file_names);
}

/// Unskipping a path right after skipping it gives back the same answers,
/// when it was not skipped before.
pub proof fn law_unskip_path_undoes_skip(m: RepositoryModel, project_id: int, path: Seq<char>, q: int, p: Seq<char>)
    requires
        !m.skipped_paths.contains((project_id, path)),
    ensures
        skips(
            RepositoryModel {
                skipped_paths: m.skipped_paths.insert((project_id, path)).remove((project_id, path)),
                ..m
            },
            q,
            p,
        ) == skips(m, q, p),
{
    assert(m.skipped_paths.insert((project_id, path)).remove((project_id, path)) =~= m.skipped_paths);
}

/// A project that was added exists.
pub proof fn law_new_project_exists(m: RepositoryModel, id: int, path: Seq<char>)
    ensures
        project_id_of(RepositoryModel { projects: m.projects.insert((id, path)), ..m }, path) is Some,
{
    let n = RepositoryModel { projects: m.projects.insert((id, path)), ..m };
    assert(n.projects.contains((id, path)));
}

/// In the first form of the repository, a word added to the global list is
/// fine in every file.
pub proof fn law_repo_ignored_is_fine(v: RepoView, word: Seq<char>, path: Seq<char>)
    ensures
        lookup(RepoView { ignored: v.ignored.insert(word), ..v }, word, path),
{
}

/// In the first form of the repository, a word added to the list of an
/// extension is fine in every file with that extension.
pub proof fn law_repo_extension_is_fine(v: RepoView, word: Seq<char>, ext: Seq<char>, path: Seq<char>)
    requires
        v.ext_lists.contains_key(ext),
        path_file_name(path) matches Some(f) && extension_of(f) == Some(ext),
    ensures
        lookup(
            RepoView { ext_lists: v.ext_lists.insert(ext, v.ext_lists[ext].insert(word)), ..v },
            word,
            path,
        ),
{
}

/// In the first form of the repository, a skipped file name skips every
/// file of that name, and unskipping it undoes that when the full path is
/// not skipped.
pub proof fn law_repo_skip_unskip(v: RepoView, name: Seq<char>, path: Seq<char>)
    requires
        path_file_name(path) == Some(name),
    ensures
        skipped(RepoView { skipped_names: v.skipped_names.insert(name), ..v }, path) == Some(true),
        !v.skipped_paths.contains(path) ==> skipped(
            RepoView { skipped_names: v.skipped_names.insert(name).remove(name), ..v },
            path,
        ) == Some(false),
{
}

/// When a range in `ranges[..n]` ends after the cursor, a first one does.
proof fn lemma_first_after(ranges: Seq<(usize, usize, usize)>, cursor: (usize, usize), n: int)
    requires
        0 <= n <= ranges.len(),
        exists|i: int| 0 <= i < n && #[trigger] ends_after(ranges[i], cursor),
    ensures
        exists|i: int|
            0 <= i < n && #[trigger] ends_after(ranges[i], cursor) && forall|k: int|
                0 <= k < i ==> !#[trigger] ends_after(ranges[k], cursor),
    decreases n,
{
    if exists|i: int| 0 <= i < n - 1 && #[trigger] ends_after(ranges[i], cursor) {
        lemma_first_after(ranges, cursor, n - 1);
        let i = choose|i: int|
            0 <= i < n - 1 && #[trigger] ends_after(ranges[i], cursor) && forall|k: int|
                0 <= k < i ==> !#[trigger] ends_after(ranges[k], cursor);
        assert(0 <= i < n && ends_after(ranges[i], cursor));
    } else {
        let i = choose|i: int| 0 <= i < n && #[trigger] ends_after(ranges[i], cursor);
        assert(i == n - 1);
        assert forall|k: int| 0 <= k < n - 1 implies !#[trigger] ends_after(ranges[k], cursor) by {}
        assert(ends_after(ranges[n - 1], cursor));
    }
}

/// When a range in `ranges[n..]` ends before the cursor, a last one does.
proof fn lemma_last_before(ranges: Seq<(usize, usize, usize)>, cursor: (usize, usize), n: int)
    requires
        0 <= n <= ranges.len(),
        exists|i: int| n <= i < ranges.len() && #[trigger] ends_before(ranges[i], cursor),
    ensures
        exists|i: int|
            n <= i < ranges.len() && #[trigger] ends_before(ranges[i], cursor) && forall|k: int|
                i < k < ranges.len() ==> !#[trigger] ends_before(ranges[k], cursor),
    decreases ranges.len() - n,
{
    if exists|i: int| n + 1 <= i < ranges.len() && #[trigger] ends_before(ranges[i], cursor) {
        lemma_last_before(ranges, cursor, n + 1);
        let i = choose|i: int|
            n + 1 <= i < ranges.len() && #[trigger] ends_before(ranges[i], cursor) && forall|k: int|
                i < k < ranges.len() ==> !#[trigger] ends_before(ranges[k], cursor);
        assert(n <= i < ranges.len() && ends_before(ranges[i], cursor));
    } else {
        let i = choose|i: int| n <= i < ranges.len() && #[trigger] ends_before(ranges[i], cursor);
        assert(i == n);
        assert forall|k: int| n < k < ranges.len() implies !#[trigger] ends_before(ranges[k], cursor) by {}
        assert(ends_before(ranges[n], cursor));
    }
}

/// Moving to the next error always lands on a range when there is one: the
/// first range that ends after the cursor, or else the first range.
pub proof fn law_next_wraps_around(ranges: Seq<(usize, usize, usize)>, cursor: (usize, usize))
    ensures
        (next_index(ranges, cursor) is Some) == (ranges.len() > 0),
        next_index(ranges, cursor) matches Some(i) ==> 0 <= i < ranges.len() && (ends_after(
            ranges[i],
            cursor,
        ) || (i == 0 && forall|k: int| 0 <= k < ranges.len() ==> !#[trigger] ends_after(ranges[k], cursor))),
        next_index(ranges, cursor) matches Some(i) ==> forall|k: int|
            0 <= k < i ==> !#[trigger] ends_after(ranges[k], cursor),
{
    if exists|i: int| 0 <= i < ranges.len() && #[trigger] ends_after(ranges[i], cursor) {
        lemma_first_after(ranges, cursor, ranges.len() as int);
    }
}

/// Moving to the previous error always lands on a range when there is one:
/// the last range that ends before the cursor (no later range ends before
/// it), or else the last range.
pub proof fn law_previous_wraps_around(ranges: Seq<(usize, usize, usize)>, cursor: (usize, usize))
    ensures
        (previous_index(ranges, cursor) is Some) == (ranges.len() > 0),
        previous_index(ranges, cursor) matches Some(i) ==> 0 <= i < ranges.len() && (ends_before(
            ranges[i],
            cursor,
        ) || (i == ranges.len() - 1 && forall|k: int|
            0 <= k < ranges.len() ==> !#[trigger] ends_before(ranges[k], cursor))),
        previous_index(ranges, cursor) matches Some(i) ==> forall|k: int|
            i < k < ranges.len() ==> !#[trigger] ends_before(ranges[k], cursor),
{
    if exists|i: int| 0 <= i < ranges.len() && #[trigger] ends_before(ranges[i], cursor) {
        lemma_last_before(ranges, cursor, 0);
    }
}

} // verus!

verus! {

/// The digit characters stand for their values.
proof fn lemma_digit_char(d: nat)
    requires
        d < 10,
    ensures
        is_digit(digit_char(d)),
        digit_char(d) as nat - '0' as nat == d,
        digit_char(d) != '+',
        digit_char(d) != ' ',
        digit_char(d) != ':',
{
}

/// The decimal writing of a number is made of digits, and their value is
/// the number.
pub proof fn lemma_decimal(n: nat)
    ensures
        decimal(n).len() > 0,
        forall|i: int| 0 <= i < decimal(n).len() ==> is_digit(#[trigger] decimal(n)[i]),
        digits_value(decimal(n)) == n,
    decreases n,
{
    if n < 10 {
        lemma_digit_char(n);
        let d = decimal(n);
        assert(d.drop_last() =~= Seq::<char>::empty());
        assert(digits_value(d.drop_last()) == 0);
        assert(digits_value(d) == digits_value(d.drop_last()) * 10 + (d.last() as nat - '0' as nat) as nat);
    } else {
        lemma_decimal(n / 10);
        lemma_digit_char(n % 10);
        let d = decimal(n);
        assert(d.drop_last() =~= decimal(n / 10));
        assert(d.last() == digit_char(n % 10));
        assert((n / 10) * 10 + n % 10 == n) by (nonlinear_arith);
        assert(digits_value(d) == digits_value(d.drop_last()) * 10 + (d.last() as nat - '0' as nat) as nat);
        assert(digits_value(d.drop_last()) == n / 10);
        assert forall|i: int| 0 <= i < d.len() implies is_digit(#[trigger] d[i]) by {
            if i < d.len() - 1 {
                assert(d[i] == decimal(n / 10)[i]);
            }
        }
    }
}

/// A number written by the library is read back as the same number.
pub proof fn law_decimal_parses_back(n: usize)
    ensures
        parsed_usize(decimal(n as nat)) == Some(n),
{
    lemma_decimal(n as nat);
    assert(is_digit(decimal(n as nat)[0]));
    assert(unsigned_digits(decimal(n as nat)) == decimal(n as nat));
}

} // verus!

verus! {

/// No character of the text is a space.
spec fn no_space(s: Seq<char>) -> bool {
    forall|i: int| 0 <= i < s.len() ==> #[trigger] s[i] != ' '
}

proof fn lemma_no_space_concat(a: Seq<char>, b: Seq<char>)
    requires
        no_space(a),
        no_space(b),
    ensures
        no_space(a + b),
{
    assert forall|i: int| 0 <= i < (a + b).len() implies #[trigger] (a + b)[i] != ' ' by {
        if i < a.len() {
            assert((a + b)[i] == a[i]);
        } else {
            assert((a + b)[i] == b[i - a.len()]);
        }
    }
}

proof fn lemma_decimal_no_space(n: nat)
    ensures
        no_space(decimal(n)),
{
    lemma_decimal(n);
    assert forall|i: int| 0 <= i < decimal(n).len() implies #[trigger] decimal(n)[i] != ' ' by {
        assert(is_digit(decimal(n)[i]));
    }
}

/// A selection holds no space.
proof fn lemma_selection_no_space(e: ErrorView)
    ensures
        no_space(selection_text(e)),
{
    reveal_strlit(".");
    reveal_strlit(",");
    assert(no_space("."@));
    assert(no_space(","@));
    lemma_decimal_no_space(e.line);
    lemma_decimal_no_space(e.column + 1);
    lemma_decimal_no_space((e.column + byte_len(e.token)) as nat);
    let l = decimal(e.line);
    let a = decimal(e.column + 1);
    let b = decimal((e.column + byte_len(e.token)) as nat);
    lemma_no_space_concat(l, "."@);
    lemma_no_space_concat(l + "."@, a);
    lemma_no_space_concat(l + "."@ + a, ","@);
    lemma_no_space_concat(l + "."@ + a + ","@, l);
    lemma_no_space_concat(l + "."@ + a + ","@ + l, "."@);
    lemma_no_space_concat(l + "."@ + a + ","@ + l + "."@, b);
}

/// The first space of `d + " " + t`, when `d` has none, ends `d`.
proof fn lemma_split_at_space(d: Seq<char>, t: Seq<char>)
    requires
        no_space(d),
    ensures
        split_once_spec(d + seq![' '] + t, ' ') == Some((d, t)),
{
    let s = d + seq![' '] + t;
    assert(s[d.len() as int] == ' ');
    assert forall|k: int| 0 <= k < d.len() implies #[trigger] s[k] != ' ' by {
        assert(s[k] == d[k]);
    }
    let j = first_index(s, ' ')->0;
    if j < d.len() {
        assert(s[j] == d[j]);
    } else if j > d.len() {
        assert(s[d.len() as int] != ' ');
    }
    assert(s.take(d.len() as int) =~= d);
    assert(s.skip(d.len() as int + 1) =~= t);
}

/// The first `: ` of `p + ": " + r`, when `p` has none, ends `p`.
proof fn lemma_split_at_colon(p: Seq<char>, r: Seq<char>)
    requires
        pair_index(p, ':', ' ') is None,
    ensures
        split_once_pair_spec(p + seq![':', ' '] + r, ':', ' ') == Some((p, r)),
{
    let s = p + seq![':', ' '] + r;
    let n = p.len() as int;
    assert(s[n] == ':' && s[n + 1] == ' ');
    assert forall|k: int| 0 <= k < n implies !(#[trigger] s[k] == ':' && s[k + 1] == ' ') by {
        assert(s[k] == p[k]);
        if k + 1 < n {
            assert(s[k + 1] == p[k + 1]);
            if p[k] == ':' && p[k + 1] == ' ' {
                assert(0 <= k && k + 1 < p.len() && p[k] == ':' && p[k + 1] == ' ');
            }
        } else {
            assert(s[k + 1] == ':');
        }
    }
    let j = pair_index(s, ':', ' ')->0;
    if j < n {
        assert(!(s[j] == ':' && s[j + 1] == ' '));
    } else if j > n {
        assert(!(s[n] == ':' && s[n + 1] == ' '));
    }
    assert(s.take(n) =~= p);
    assert(s.skip(n + 2) =~= r);
}

/// How the line `p: d t` is put together.
proof fn lemma_line_parts(p: Seq<char>, d: Seq<char>, t: Seq<char>)
    ensures
        p + ": "@ + d + " "@ + t == p + seq![':', ' '] + (d + seq![' '] + t),
{
    reveal_strlit(": ");
    reveal_strlit(" ");
    assert(": "@ =~= seq![':', ' ']);
    assert(" "@ =~= seq![' ']);
    assert(p + ": "@ + d + " "@ + t =~= p + seq![':', ' '] + (d + seq![' '] + t));
}

/// A line split at `: ` and then at a space gives its three parts.
proof fn lemma_line_of_parts(line: Seq<char>, p: Seq<char>, rest: Seq<char>, d: Seq<char>, t: Seq<char>)
    requires
        split_once_pair_spec(line, ':', ' ') == Some((p, rest)),
        split_once_spec(rest, ' ') == Some((d, t)),
    ensures
        line_selection_of(line) == Ok::<(Seq<char>, Seq<char>, Seq<char>), Error>((p, d, t)),
{
}

/// A line `p: d t` is read back as `p`, `d` and `t`, when `p` holds no
/// `: ` and `d` no space.
#[verifier::spinoff_prover]
proof fn lemma_line_parses(p: Seq<char>, d: Seq<char>, t: Seq<char>)
    requires
        pair_index(p, ':', ' ') is None,
        no_space(d),
    ensures
        line_selection_of(p + ": "@ + d + " "@ + t) == Ok::<(Seq<char>, Seq<char>, Seq<char>), Error>(
            (p, d, t),
        ),
{
    let rest = d + seq![' '] + t;
    lemma_line_parts(p, d, t);
    lemma_split_at_space(d, t);
    lemma_split_at_colon(p, rest);
    lemma_line_of_parts(p + ": "@ + d + " "@ + t, p, rest, d, t);
}

/// The line the checker writes in the spelling buffer for an error is read
/// back as the path, the selection and the word of that error, when the
/// path holds no `: `.
pub proof fn law_spelling_line_parses_back(e: ErrorView)
    requires
        pair_index(e.full_path, ':', ' ') is None,
    ensures
        line_selection_of(error_line_text(e)) == Ok::<(Seq<char>, Seq<char>, Seq<char>), Error>(
            (e.full_path, selection_text(e), e.token),
        ),
{
    lemma_selection_no_space(e);
    lemma_line_parses(e.full_path, selection_text(e), e.token);
}

} // verus!

verus! {

/// Tokens that hold `://` (URLs) or `@` (e-mails, mentions) give no word.
pub proof fn law_urls_and_emails_are_skipped(token: Seq<char>, ident_pattern: Seq<char>, group: usize)
    requires
        seq_contains(token, seq![':', '/', '/']) || seq_contains(token, seq!['@']),
    ensures
        word_in_token(token, ident_pattern, group) is None,
{
}

/// Tokens where five hexadecimal digits follow each other (hashes, UUIDs)
/// give no word.
pub proof fn law_hashes_are_skipped(token: Seq<char>, ident_pattern: Seq<char>, group: usize)
    requires
        regex_capture(HEXA_PATTERN@, token, 0) is Some,
    ensures
        word_in_token(token, ident_pattern, group) is None,
{
}

} // verus!

verus! {

/// Every error found among tokens is a word that the dictionary does not
/// know.
proof fn lemma_token_errors_unknown<D: Dictionary, R: Repository, S: OperatingSystemIO>(
    c: KakouneChecker<D, R, S>,
    name: Seq<char>,
    rel: Seq<char>,
    toks: Seq<(Seq<char>, int, int)>,
)
    ensures
        forall|i: int|
            0 <= i < token_errors(c, name, rel, toks).len() ==> !c.dictionary_view().knows(
                #[trigger] token_errors(c, name, rel, toks)[i].token,
            ),
    decreases toks.len(),
{
    if toks.len() > 0 {
        lemma_token_errors_unknown(c, name, rel, toks.drop_last());
        let e = token_errors(c, name, rel, toks);
        let a = token_errors(c, name, rel, toks.drop_last());
        assert forall|i: int| 0 <= i < e.len() implies !c.dictionary_view().knows(#[trigger] e[i].token) by {
            if i < a.len() {
                assert(e[i] == a[i]);
            }
        }
    }
}

/// A word that the dictionary knows is never reported by a check of
/// Kakoune buffers.
pub proof fn law_known_words_are_never_reported<D: Dictionary, R: Repository, S: OperatingSystemIO>(
    c: KakouneChecker<D, R, S>,
    bufs: Seq<Buffer>,
)
    ensures
        forall|i: int|
            0 <= i < buffers_errors(c, bufs).len() ==> !c.dictionary_view().knows(
                #[trigger] buffers_errors(c, bufs)[i].token,
            ),
    decreases bufs.len(),
{
    if bufs.len() > 0 {
        law_known_words_are_never_reported(c, bufs.drop_last());
        let e = buffers_errors(c, bufs);
        let a = buffers_errors(c, bufs.drop_last());
        match checked_file(c, bufs.last()) {
            Some((rel, toks)) => {
                lemma_token_errors_unknown(c, bufs.last().name@, rel, toks);
                let t = token_errors(c, bufs.last().name@, rel, toks);
                assert forall|i: int| 0 <= i < e.len() implies !c.dictionary_view().knows(#[trigger] e[i].token) by {
                    if i < a.len() {
                        assert(e[i] == a[i]);
                    } else {
                        assert(e[i] == t[i - a.len()]);
                    }
                }
            },
            None => {
                assert(e =~= a);
            },
        }
    }
}

} // verus!

verus! {

/// A project identifier is among the removed ones exactly when an entry
/// with that identifier is flagged as gone.
pub proof fn lemma_gone_ids(ps: Seq<(ProjectInfo, bool)>, id: int)
    ensures
        gone_ids(ps).contains(id) <==> exists|i: int|
            0 <= i < ps.len() && !(#[trigger] ps[i]).1 && ps[i].0.id() as int == id,
    decreases ps.len(),
{
    if ps.len() > 0 {
        let init = ps.drop_last();
        lemma_gone_ids(init, id);
        if exists|i: int| 0 <= i < init.len() && !(#[trigger] init[i]).1 && init[i].0.id() as int == id {
            let i = choose|i: int| 0 <= i < init.len() && !(#[trigger] init[i]).1 && init[i].0.id() as int == id;
            assert(ps[i] == init[i]);
        }
        if exists|i: int| 0 <= i < ps.len() && !(#[trigger] ps[i]).1 && ps[i].0.id() as int == id {
            let i = choose|i: int| 0 <= i < ps.len() && !(#[trigger] ps[i]).1 && ps[i].0.id() as int == id;
            if i < ps.len() - 1 {
                assert(init[i] == ps[i]);
            }
        }
    }
}

/// Cleaning with the listing of the projects, each flagged with whether
/// its path exists, keeps exactly the projects whose path exists.
pub proof fn law_clean_keeps_exactly_the_existing(
    m: RepositoryModel,
    ps: Seq<(ProjectInfo, bool)>,
    x: (int, Seq<char>),
)
    requires
        forall|y: (int, Seq<char>)|
            #[trigger] m.projects.contains(y) <==> exists|i: int|
                0 <= i < ps.len() && (#[trigger] ps[i]).0.id() as int == y.0 && ps[i].0.path_view() == y.1,
        forall|i: int, j: int|
            0 <= i < ps.len() && 0 <= j < ps.len() && i != j ==> (#[trigger] ps[i]).0.id() != (
            #[trigger] ps[j]).0.id(),
    ensures
        m.projects.filter(|y: (int, Seq<char>)| !gone_ids(ps).contains(y.0)).contains(x) <==> exists|
            i: int,
        |
            0 <= i < ps.len() && (#[trigger] ps[i]).1 && ps[i].0.id() as int == x.0
                && ps[i].0.path_view() == x.1,
{
    lemma_gone_ids(ps, x.0);
    if m.projects.contains(x) {
        let i = choose|i: int|
            0 <= i < ps.len() && (#[trigger] ps[i]).0.id() as int == x.0 && ps[i].0.path_view() == x.1;
        if gone_ids(ps).contains(x.0) {
            let j = choose|j: int| 0 <= j < ps.len() && !(#[trigger] ps[j]).1 && ps[j].0.id() as int == x.0;
            assert(i == j);
        }
    }
    if exists|i: int|
        0 <= i < ps.len() && (#[trigger] ps[i]).1 && ps[i].0.id() as int == x.0 && ps[i].0.path_view() == x.1 {
        let i = choose|i: int|
            0 <= i < ps.len() && (#[trigger] ps[i]).1 && ps[i].0.id() as int == x.0 && ps[i].0.path_view() == x.1;
        assert(m.projects.contains(x));
        if gone_ids(ps).contains(x.0) {
            let j = choose|j: int| 0 <= j < ps.len() && !(#[trigger] ps[j]).1 && ps[j].0.id() as int == x.0;
            assert(i == j);
        }
    }
}

} // verus!

verus! {

/// The tokens of the first `n` lines of a file: each one is a word of the
/// line it names (lines counted from 1), found at the offset it gives;
/// every word of each of those lines is among them with its own line; and
/// the line numbers never go down.
pub proof fn law_tokens_carry_their_line(lines: Seq<Seq<char>>, n: int)
    requires
        0 <= n <= lines.len(),
    ensures
        forall|t: int|
            0 <= t < lines_tokens(lines, n).len() ==> 1 <= (#[trigger] lines_tokens(lines, n)[t]).1 <= n
                && line_words(lines[lines_tokens(lines, n)[t].1 - 1]).contains(
                (lines_tokens(lines, n)[t].0, lines_tokens(lines, n)[t].2),
            ),
        forall|k: int, q: int|
            1 <= k <= n && 0 <= q < line_words(lines[k - 1]).len() ==> lines_tokens(lines, n).contains(
                (
                    (#[trigger] line_words(lines[k - 1])[q]).0,
                    k,
                    line_words(lines[k - 1])[q].1,
                ),
            ),
        forall|t1: int, t2: int|
            0 <= t1 < t2 < lines_tokens(lines, n).len() ==> (#[trigger] lines_tokens(lines, n)[t1]).1
                <= (#[trigger] lines_tokens(lines, n)[t2]).1,
    decreases n,
{
    if n > 0 {
        law_tokens_carry_their_line(lines, n - 1);
        let prev = lines_tokens(lines, n - 1);
        let lw = line_words(lines[n - 1]);
        let mapped = lw.map_values(|x: (Seq<char>, int)| (x.0, n, x.1));
        let all = lines_tokens(lines, n);
        assert(all == prev + mapped);
        assert forall|t: int| 0 <= t < all.len() implies 1 <= (#[trigger] all[t]).1 <= n
            && line_words(lines[all[t].1 - 1]).contains((all[t].0, all[t].2)) by {
            if t < prev.len() {
                assert(all[t] == prev[t]);
            } else {
                let q = t - prev.len();
                assert(all[t] == mapped[q]);
                assert(lw[q] == (all[t].0, all[t].2));
            }
        }
        assert forall|k: int, q: int|
            1 <= k <= n && 0 <= q < line_words(lines[k - 1]).len() implies all.contains(
            (
                (#[trigger] line_words(lines[k - 1])[q]).0,
                k,
                line_words(lines[k - 1])[q].1,
            ),
        ) by {
            let x = (line_words(lines[k - 1])[q].0, k, line_words(lines[k - 1])[q].1);
            if k < n {
                assert(prev.contains(x));
                let i = choose|i: int| 0 <= i < prev.len() && prev[i] == x;
                assert(all[i] == x);
            } else {
                assert(all[prev.len() + q] == mapped[q]);
            }
        }
        assert forall|t1: int, t2: int| 0 <= t1 < t2 < all.len() implies (#[trigger] all[t1]).1 <= (
        #[trigger] all[t2]).1 by {
            if t2 < prev.len() {
                assert(all[t1] == prev[t1] && all[t2] == prev[t2]);
            } else if t1 < prev.len() {
                assert(all[t1] == prev[t1]);
                assert(all[t2] == mapped[t2 - prev.len()]);
            } else {
                assert(all[t1] == mapped[t1 - prev.len()]);
                assert(all[t2] == mapped[t2 - prev.len()]);
            }
        }
    }
}

} // verus!

verus! {

/// `a` occurs in `b`.
pub open spec fn occurs_in(a: Seq<char>, b: Seq<char>) -> bool {
    exists|i: int| 0 <= i && i + a.len() <= b.len() && #[trigger] b.subrange(i, i + a.len()) == a
}

/// A text occurs in any text that holds it between two others.
pub proof fn lemma_occurs_between(x: Seq<char>, a: Seq<char>, y: Seq<char>)
    ensures
        occurs_in(a, x + a + y),
{
    let b = x + a + y;
    assert(b.subrange(x.len() as int, (x.len() + a.len()) as int) =~= a);
}

/// The text of the first `n` errors holds the text of each of them.
proof fn lemma_piece_in(errors: Seq<ErrorView>, n: int, i: int, t: nat, u: bool) -> (xy: (Seq<char>, Seq<char>))
    requires
        0 <= i < n,
    ensures
        range_pieces(errors, n, t, u) == xy.0 + range_piece(errors, i, t, u) + xy.1,
    decreases n,
{
    if i == n - 1 {
        let x = range_pieces(errors, n - 1, t, u);
        assert(range_pieces(errors, n, t, u) =~= x + range_piece(errors, i, t, u) + Seq::<char>::empty());
        (x, Seq::<char>::empty())
    } else {
        let (x, y) = lemma_piece_in(errors, n - 1, i, t, u);
        let y2 = y + range_piece(errors, n - 1, t, u);
        assert(range_pieces(errors, n, t, u) =~= x + range_piece(errors, i, t, u) + y2);
        (x, y2)
    }
}

/// Regrouping a concatenation around one of its parts.
proof fn lemma_regroup(
    pre: Seq<char>,
    x: Seq<char>,
    head: Seq<char>,
    mid: Seq<char>,
    y: Seq<char>,
    e: Seq<char>,
    st: Seq<char>,
)
    ensures
        pre + (x + (head + mid) + y + e) + st == (pre + x + head) + mid + (y + e + st),
{
    assert(pre + (x + (head + mid) + y + e) + st =~= (pre + x + head) + mid + (y + e + st));
}

/// The range of error `i`, and the header of its buffer when a run of
/// errors starts there, occur in what a Kakoune check writes.
#[verifier::spinoff_prover]
proof fn lemma_highlights_one(errors: Seq<ErrorView>, t: nat, u: bool, path: Seq<char>, i: int)
    requires
        0 <= i < errors.len(),
    ensures
        occurs_in(error_range_text(errors[i]) + " "@, code_text(errors, t, u, path)),
        (i == 0 || errors[i].buffer != errors[i - 1].buffer) ==> occurs_in(
            buffer_header(errors[i].buffer, t, u),
            code_text(errors, t, u, path),
        ),
{
    let (x, y) = lemma_piece_in(errors, errors.len() as int, i, t, u);
    let starts = i == 0 || errors[i].buffer != errors[i - 1].buffer;
    let nl: Seq<char> = if i > 0 {
        "\n"@
    } else {
        Seq::empty()
    };
    let hdr = buffer_header(errors[i].buffer, t, u);
    let head: Seq<char> = if starts {
        nl + hdr
    } else {
        Seq::empty()
    };
    let ert = error_range_text(errors[i]) + " "@;
    assert(range_piece(errors, i, t, u) == head + ert);
    let pre = crate::kak::checker::spelling_buffer_text(errors) + crate::kak::io::GOTO_PREVIOUS_BUFFER@;
    let e: Seq<char> = "\n"@;
    let st = crate::kak::checker::status_text(path, errors.len());
    assert(code_text(errors, t, u, path) == pre + (x + (head + ert) + y + e) + st);
    lemma_regroup(pre, x, head, ert, y, e, st);
    lemma_occurs_between(pre + x + head, ert, y + e + st);
    if starts {
        assert(pre + x + head == (pre + x + nl) + hdr) by {
            assert(pre + x + head =~= (pre + x + nl) + hdr);
        }
        assert(code_text(errors, t, u, path) == (pre + x + nl) + hdr + (ert + (y + e + st))) by {
            assert((pre + x + nl) + hdr + ert + (y + e + st) =~= (pre + x + nl) + hdr + (ert + (
            y + e + st)));
        }
        lemma_occurs_between(pre + x + nl, hdr, ert + (y + e + st));
    }
}

/// What a Kakoune check writes highlights every error it found: the range
/// of each error, and the `spell_errors` header of the buffer of each run of
/// errors, occur in it.
pub proof fn law_check_highlights_every_error(errors: Seq<ErrorView>, t: nat, u: bool, path: Seq<char>)
    ensures
        forall|i: int|
            0 <= i < errors.len() ==> occurs_in(
                error_range_text(#[trigger] errors[i]) + " "@,
                code_text(errors, t, u, path),
            ),
        forall|i: int|
            0 <= i < errors.len() && (i == 0 || errors[i].buffer != errors[i - 1].buffer) ==> occurs_in(
                buffer_header((#[trigger] errors[i]).buffer, t, u),
                code_text(errors, t, u, path),
            ),
{
    assert forall|i: int| 0 <= i < errors.len() implies occurs_in(
        error_range_text(#[trigger] errors[i]) + " "@,
        code_text(errors, t, u, path),
    ) && ((i == 0 || errors[i].buffer != errors[i - 1].buffer) ==> occurs_in(
        buffer_header(errors[i].buffer, t, u),
        code_text(errors, t, u, path),
    )) by {
        lemma_highlights_one(errors, t, u, path, i);
    }
}

/// The entries of the first `n` replacements hold the entry of each.
proof fn lemma_entry_in(s: Seq<Seq<char>>, n: int, i: int) -> (xy: (Seq<char>, Seq<char>))
    requires
        0 <= i < n,
    ensures
        suggestion_entries(s, n) == xy.0 + suggestion_entry(s[i]) + xy.1,
    decreases n,
{
    if i == n - 1 {
        let x = suggestion_entries(s, n - 1);
        assert(suggestion_entries(s, n) =~= x + suggestion_entry(s[i]) + Seq::<char>::empty());
        (x, Seq::<char>::empty())
    } else {
        let (x, y) = lemma_entry_in(s, n - 1, i);
        let y2 = y + suggestion_entry(s[n - 1]);
        assert(suggestion_entries(s, n) =~= x + suggestion_entry(s[i]) + y2);
        (x, y2)
    }
}

/// The menu of suggestions offers every replacement: the menu entry that
/// types each one in occurs in it.
pub proof fn law_menu_offers_every_replacement(reps: Seq<Seq<char>>)
    ensures
        forall|i: int| 0 <= i < reps.len() ==> occurs_in(suggestion_entry(#[trigger] reps[i]), menu_text(reps)),
{
    assert forall|i: int| 0 <= i < reps.len() implies occurs_in(
        suggestion_entry(#[trigger] reps[i]),
        menu_text(reps),
    ) by {
        let (x, y) = lemma_entry_in(reps, reps.len() as int, i);
        assert(menu_text(reps) =~= ("menu "@ + x) + suggestion_entry(reps[i]) + y);
        lemma_occurs_between("menu "@ + x, suggestion_entry(reps[i]), y);
    }
}

/// Jumping from the line the checker wrote for an error goes to that
/// error: the file of the error is opened and the range of its word is
/// selected.
pub proof fn law_jump_goes_to_the_error(e: ErrorView)
    requires
        pair_index(e.full_path, ':', ' ') is None,
    ensures
        line_selection_of(error_line_text(e)) matches Ok((p, s, w)) && "edit "@ + p + "\n"@ + "select "@
            + s + "\n"@ == "edit "@ + e.full_path + "\n"@ + "select "@ + selection_text(e) + "\n"@
            && w == e.token,
{
    law_spelling_line_parses_back(e);
}

} // verus!
