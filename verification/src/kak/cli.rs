//! The actions run from Kakoune: add a word to an ignore list, skip a file,
//! move between errors, suggest replacements, check the open buffers.
use vstd::prelude::*;

use crate::checker::Checker;
use crate::dictionary::Dictionary;
use crate::error::Error;
use crate::kak::checker::{ErrorView, KakouneChecker, code_text, underline_in};
use crate::kak::io::{
    KakouneIO, OperatingSystemIO, cursor_readable, env_cursor, next_index, next_selection, previous_index,
    previous_selection, range_spec_of,
};
use crate::project::{file_name, path_file_name};
use crate::repository::{Repository, RepositoryModel, ignores, skips};
use crate::project::{RelativePath, join_path, path_diff};
use crate::search::{char_is_whitespace, lowercase};
use crate::text::{
    parsed_usize,
    decimal, is_blank, replace_char, replaced, rsplit_once, rsplit_once_spec, split_once,
    split_once_pair, split_once_pair_spec, split_once_spec, starts_and_ends_with, starts_with_pair,
    usize_to_string,
};
use crate::tokens::{TokenProcessor, lines_tokens, relevant_count};

verus! {

/// A line of the spelling buffer: `path: selection word`.
pub struct LineSelection {
    /// The full path of the file.
    pub path: String,
    /// The misspelled word.
    pub word: String,
    /// The range of the word, `line.first,line.last`.
    pub selection: String,
}

/// Path, selection and word of a line of the spelling buffer, or the error
/// for a line without `: ` or without a space after the selection.
pub open spec fn line_selection_of(line: Seq<char>) -> Result<(Seq<char>, Seq<char>, Seq<char>), Error> {
    match split_once_pair_spec(line, ':', ' ') {
        None => Err(Error::SelectionWithoutPath),
        Some((path, rest)) => match split_once_spec(rest, ' ') {
            None => Err(Error::SelectionWithoutWord),
            Some((selection, word)) => Ok((path, selection, word)),
        },
    }
}

/// Parses a line of the spelling buffer.
pub fn parse_line_selection(line: &str) -> (r: Result<LineSelection, Error>)
    ensures
        match line_selection_of(line@) {
            Ok((p, s, w)) => r matches Ok(ls) && ls.path@ == p && ls.selection@ == s && ls.word@ == w,
            Err(e) => r matches Err(f) && f == e,
        },
{
    let (path, rest) = match split_once_pair(line, ':', ' ') {
        None => return Err(Error::SelectionWithoutPath),
        Some(x) => x,
    };
    let (selection, word) = match split_once(rest, ' ') {
        None => return Err(Error::SelectionWithoutWord),
        Some(x) => x,
    };
    Ok(
        LineSelection {
            path: String::from_str(path),
            word: String::from_str(word),
            selection: String::from_str(selection),
        },
    )
}

/// The extension of the path of a selection: what follows its last `.`.
pub fn selection_extension(path: &str) -> (r: Result<String, Error>)
    ensures
        match rsplit_once_spec(path@, '.') {
            Some((_, e)) => r matches Ok(s) && s@ == e,
            None => r matches Err(Error::NoExtension),
        },
{
    match rsplit_once(path, '.') {
        Some((_, e)) => Ok(String::from_str(e)),
        None => Err(Error::NoExtension),
    }
}

/// The message for a word added to the list of an extension.
pub open spec fn extension_message(word: Seq<char>, ext: Seq<char>) -> Seq<char> {
    "echo '\""@ + word + "\" added to the ignore list for  extension: \""@ + ext + "\"'"@
}

/// The message for a word added to the list of a file.
pub open spec fn file_message(word: Seq<char>, path: Seq<char>) -> Seq<char> {
    "echo '\""@ + word + "\" added to the ignore list for file: \""@ + path + "\"'"@
}

/// The message for a word added to the global list.
pub open spec fn global_message(word: Seq<char>) -> Seq<char> {
    "echo '\""@ + word + "\" added to global ignore list'"@
}

/// The message for a word added to the list of the project.
pub open spec fn project_message(word: Seq<char>) -> Seq<char> {
    "echo '\""@ + word + "\" added to ignore list for the current project'"@
}

/// The message for a skipped path.
pub open spec fn skip_path_message(path: Seq<char>) -> Seq<char> {
    "echo 'will now skip \""@ + path + "\"\n'"@
}

/// The message for a skipped file name.
pub open spec fn skip_name_message(name: Seq<char>) -> Seq<char> {
    "echo 'will now skip file named: \""@ + name + "\"'"@
}

/// The command that selects `line.start,line.end`.
pub open spec fn select_text(line: nat, start: nat, end: nat) -> Seq<char> {
    "select "@ + decimal(line) + "."@ + decimal(start) + ","@ + decimal(line) + "."@ + decimal(end)
        + "\n"@
}

/// The menu entry of one suggestion.
pub open spec fn suggestion_entry(s: Seq<char>) -> Seq<char> {
    "%{"@ + s + "} "@ + "%{execute-keys -itersel %{c"@ + s + "<esc>be} "@
        + ":write <ret> :skyspell-check <ret>}"@ + " "@
}

/// The entries of the first `n` suggestions.
pub open spec fn suggestion_entries(s: Seq<Seq<char>>, n: int) -> Seq<char>
    decreases n,
{
    if n <= 0 {
        Seq::empty()
    } else {
        suggestion_entries(s, n - 1) + suggestion_entry(s[n - 1])
    }
}

/// The menu of suggestions.
pub open spec fn menu_text(s: Seq<Seq<char>>) -> Seq<char> {
    "menu "@ + suggestion_entries(s, s.len() as int)
}

/// The message for a word added to the list of an extension.
pub fn extension_message_text(word: &str, ext: &str) -> (r: String)
    ensures
        r@ == extension_message(word@, ext@),
{
    let mut s = String::from_str("echo '\"");
    s.append(word);
    s.append("\" added to the ignore list for  extension: \"");
    s.append(ext);
    s.append("\"'");
    s
}

/// The message for a word added to the list of a file.
pub fn file_message_text(word: &str, path: &str) -> (r: String)
    ensures
        r@ == file_message(word@, path@),
{
    let mut s = String::from_str("echo '\"");
    s.append(word);
    s.append("\" added to the ignore list for file: \"");
    s.append(path);
    s.append("\"'");
    s
}

/// The message for a word added to the global list.
pub fn global_message_text(word: &str) -> (r: String)
    ensures
        r@ == global_message(word@),
{
    let mut s = String::from_str("echo '\"");
    s.append(word);
    s.append("\" added to global ignore list'");
    s
}

/// The message for a word added to the list of the project.
pub fn project_message_text(word: &str) -> (r: String)
    ensures
        r@ == project_message(word@),
{
    let mut s = String::from_str("echo '\"");
    s.append(word);
    s.append("\" added to ignore list for the current project'");
    s
}

/// The message for a skipped path.
pub fn skip_path_message_text(path: &str) -> (r: String)
    ensures
        r@ == skip_path_message(path@),
{
    let mut s = String::from_str("echo 'will now skip \"");
    s.append(path);
    s.append("\"\n'");
    s
}

/// The message for a skipped file name.
pub fn skip_name_message_text(name: &str) -> (r: String)
    ensures
        r@ == skip_name_message(name@),
{
    let mut s = String::from_str("echo 'will now skip file named: \"");
    s.append(name);
    s.append("\"'");
    s
}

/// The command that selects `line.start,line.end`.
pub fn select_command(line: usize, start: usize, end: usize) -> (r: String)
    ensures
        r@ == select_text(line as nat, start as nat, end as nat),
{
    let mut s = String::from_str("select ");
    s.append(usize_to_string(line).as_str());
    s.append(".");
    s.append(usize_to_string(start).as_str());
    s.append(",");
    s.append(usize_to_string(line).as_str());
    s.append(".");
    s.append(usize_to_string(end).as_str());
    s.append("\n");
    s
}

/// The menu of suggestions.
pub fn suggestion_menu(suggestions: &Vec<String>) -> (r: String)
    ensures
        r@ == menu_text(suggestions@.map_values(|x: String| x@)),
{
    let ghost sv = suggestions@.map_values(|x: String| x@);
    let mut s = String::from_str("menu ");
    let mut i: usize = 0;
    while i < suggestions.len()
        invariant
            sv == suggestions@.map_values(|x: String| x@),
            i <= suggestions@.len(),
            s@ == "menu "@ + suggestion_entries(sv, i as int),
        decreases suggestions@.len() - i,
    {
        let w = suggestions[i].as_str();
        s.append("%{");
        s.append(w);
        s.append("} ");
        s.append("%{execute-keys -itersel %{c");
        s.append(w);
        s.append("<esc>be} ");
        s.append(":write <ret> :skyspell-check <ret>}");
        s.append(" ");
        assert(sv[i as int] == w@);
        assert(s@ =~= "menu "@ + suggestion_entries(sv, i + 1));
        i = i + 1;
    }
    s
}

/// The index of the range to go to in a direction.
pub open spec fn target_index(
    ranges: Seq<(usize, usize, usize)>,
    cursor: (usize, usize),
    direction: Direction,
) -> Option<int> {
    match direction {
        Direction::Forward => next_index(ranges, cursor),
        Direction::Backward => previous_index(ranges, cursor),
    }
}

/// The command that selects the range to go to from the cursor, if there
/// is a range.
pub fn goto_command(cursor: (usize, usize), ranges: &Vec<(usize, usize, usize)>, direction: Direction) -> (r:
    Option<String>)
    ensures
        match target_index(ranges@, cursor, direction) {
            Some(i) => r matches Some(c) && c@ == select_text(
                ranges@[i].0 as nat,
                ranges@[i].1 as nat,
                ranges@[i].2 as nat,
            ),
            None => r is None,
        },
{
    let new_range = match direction {
        Direction::Forward => next_selection(cursor, ranges.as_slice()),
        Direction::Backward => previous_selection(cursor, ranges.as_slice()),
    };
    match new_range {
        None => None,
        Some(x) => {
            let (line, start, end) = *x;
            Some(select_command(line, start, end))
        },
    }
}

/// The text holds only white space.
pub open spec fn blank_text(s: Seq<char>) -> bool {
    forall|i: int| 0 <= i < s.len() ==> char_is_whitespace(#[trigger] s[i])
}

/// What suggesting replacements for the selection comes to, given whether
/// the dictionary knows it and the replacements it offers: the menu, or the
/// error for a blank selection, a known word, or no replacement.
pub fn suggestion_outcome(selection: String, known: bool, suggestions: &Vec<String>) -> (r: Result<
    String,
    Error,
>)
    ensures
        blank_text(selection@) ==> r == Err::<String, Error>(Error::BlankSelection),
        !blank_text(selection@) && known ==> (r matches Err(Error::NotAnError(w)) && w@ == selection@),
        !blank_text(selection@) && !known && suggestions@.len() == 0 ==> r == Err::<String, Error>(
            Error::NoSuggestions,
        ),
        !blank_text(selection@) && !known && suggestions@.len() > 0 ==> (r matches Ok(m) && m@
            == menu_text(suggestions@.map_values(|x: String| x@))),
{
    if is_blank(selection.as_str()) {
        return Err(Error::BlankSelection);
    }
    if known {
        return Err(Error::NotAnError(selection));
    }
    if suggestions.len() == 0 {
        return Err(Error::NoSuggestions);
    }
    Ok(suggestion_menu(suggestions))
}

/// Whether a buffer is one of Kakoune's own (`*debug*`, `*spelling*`).
pub open spec fn is_special_buffer_name(name: Seq<char>) -> bool {
    name.len() > 0 && name[0] == '*' && name.last() == '*'
}

/// Whether a buffer is one of Kakoune's own (`*debug*`, `*spelling*`).
pub fn is_special_buffer(name: &str) -> (r: bool)
    ensures
        r == is_special_buffer_name(name@),
{
    starts_and_ends_with(name, '*')
}

/// The name of a buffer with `~` replaced by the home directory.
pub fn expand_home(name: &str, home_dir: &str) -> (r: String)
    ensures
        r@ == replaced(name@, '~', home_dir@),
{
    replace_char(name, '~', home_dir)
}

/// The command that removes the errors set by the last check.
pub fn unset_errors_command(buffer: &str) -> (r: String)
    ensures
        r@ == "unset-option buffer="@ + buffer@ + " spell_errors\n"@,
{
    let mut s = String::from_str("unset-option buffer=");
    s.append(buffer);
    s.append(" spell_errors\n");
    s
}

/// The command that shows an error in Kakoune.
pub fn error_command(e: &Error) -> (r: String)
    ensures
        r@ == "echo -markup {Error}"@ + crate::error::message(*e),
{
    String::from_str("echo -markup {Error}").concat(e.to_string().as_str())
}

/// The options of the `kak` command.
pub struct Opts {
    /// The language of the dictionary.
    pub lang: Option<String>,
    /// The action.
    pub action: KakAction,
}

/// The actions of the `kak` command.
pub enum KakAction {
    /// Add the selection to the global ignore list.
    AddGlobal,
    /// Add the selection to the ignore list of its extension.
    AddExtension,
    /// Add the selection to the ignore list of its file.
    AddFile,
    /// Add the selection to the ignore list of the project.
    AddProject,
    /// Check the listed buffers.
    Check(Vec<String>),
    /// Show a menu of suggestions.
    Suggest,
    /// Skip the file name of the selection.
    SkipName,
    /// Skip the file of the selection.
    SkipFile,
    /// Write the initial Kakoune script.
    Init,
    /// Jump to the selected error.
    Jump,
    /// Select the previous error, given the range spec.
    PreviousError(String),
    /// Select the next error, given the range spec.
    NextError(String),
    /// Undo the last change of the repository.
    Undo,
}

/// Which way to move between errors.
pub enum Direction {
    /// To the next error.
    Forward,
    /// To the previous error.
    Backward,
}

/// An open buffer: its name, and the file it shows when that file exists
/// (with `~` replaced by the home directory).
pub struct Buffer {
    /// The name of the buffer, as Kakoune lists it.
    pub name: String,
    /// The file, with its lines, or `None` when no file has this name.
    pub file: Option<TokenProcessor>,
}

/// The errors among the tokens `toks` (word, line, column) of the file
/// `rel`, shown in the buffer `name`, for a checker in state `c`: the words
/// that its dictionary does not know and that no rule ignores.
pub open spec fn token_errors<D: Dictionary, R: Repository, S: OperatingSystemIO>(
    c: KakouneChecker<D, R, S>,
    name: Seq<char>,
    rel: Seq<char>,
    toks: Seq<(Seq<char>, int, int)>,
) -> Seq<ErrorView>
    decreases toks.len(),
{
    if toks.len() == 0 {
        Seq::empty()
    } else {
        let t = toks.last();
        token_errors(c, name, rel, toks.drop_last()) + if !c.dictionary_view().knows(t.0) && !ignores(
            c.repository_spec().model(),
            t.0,
            c.project_view().id() as int,
            rel,
        ) {
            seq![
                ErrorView {
                    line: t.1 as nat,
                    column: t.2 as nat,
                    buffer: name,
                    full_path: join_path(c.project_view().path()@, rel),
                    token: t.0,
                },
            ]
        } else {
            Seq::empty()
        }
    }
}

/// The file of a buffer that is checked, by its path relative to the
/// project, with its tokens: not one of Kakoune's own buffers, a file that
/// exists, inside the project and not skipped.
pub open spec fn checked_file<D: Dictionary, R: Repository, S: OperatingSystemIO>(
    c: KakouneChecker<D, R, S>,
    b: Buffer,
) -> Option<(Seq<char>, Seq<(Seq<char>, int, int)>)> {
    if b.name@.len() > 0 && b.name@[0] == '*' && b.name@.last() == '*' {
        None
    } else {
        match b.file {
            None => None,
            Some(f) => match path_diff(f.path(), c.project_view().path()@) {
                None => None,
                Some(rel) => if skips(c.repository_spec().model(), c.project_view().id() as int, rel)
                    || (rel.len() >= 2 && rel[0] == '.' && rel[1] == '.') {
                    None
                } else {
                    Some((rel, lines_tokens(f.lines(), relevant_count(f.lines(), f.is_commit_message()))))
                },
            },
        }
    }
}

/// The errors of the buffers, in order.
pub open spec fn buffers_errors<D: Dictionary, R: Repository, S: OperatingSystemIO>(
    c: KakouneChecker<D, R, S>,
    bufs: Seq<Buffer>,
) -> Seq<ErrorView>
    decreases bufs.len(),
{
    if bufs.len() == 0 {
        Seq::empty()
    } else {
        buffers_errors(c, bufs.drop_last()) + match checked_file(c, bufs.last()) {
            Some((rel, toks)) => token_errors(c, bufs.last().name@, rel, toks),
            None => Seq::empty(),
        }
    }
}

/// The two checkers have the same dictionary, repository, project and
/// environment.
pub open spec fn same_setup<D: Dictionary, R: Repository, S: OperatingSystemIO>(
    a: KakouneChecker<D, R, S>,
    b: KakouneChecker<D, R, S>,
) -> bool {
    &&& a.dictionary_view() == b.dictionary_view()
    &&& a.repository_spec() == b.repository_spec()
    &&& a.project_view() == b.project_view()
    &&& a.kakoune_io_spec() == b.kakoune_io_spec()
}

/// The errors of tokens depend only on the dictionary, the repository and
/// the project of the checker.
proof fn lemma_token_errors_setup<D: Dictionary, R: Repository, S: OperatingSystemIO>(
    a: KakouneChecker<D, R, S>,
    b: KakouneChecker<D, R, S>,
    name: Seq<char>,
    rel: Seq<char>,
    toks: Seq<(Seq<char>, int, int)>,
)
    requires
        same_setup(a, b),
    ensures
        token_errors(a, name, rel, toks) == token_errors(b, name, rel, toks),
    decreases toks.len(),
{
    if toks.len() > 0 {
        lemma_token_errors_setup(a, b, name, rel, toks.drop_last());
    }
}

/// The actions run from Kakoune.
pub struct KakCli<D: Dictionary, R: Repository, S: OperatingSystemIO> {
    checker: KakouneChecker<D, R, S>,
}

impl<D: Dictionary, R: Repository, S: OperatingSystemIO> KakCli<D, R, S> {
    /// The content of the repository.
    pub open spec fn model(&self) -> RepositoryModel {
        self.checker_spec().repository_spec().model()
    }

    /// The environment Kakoune set for this command.
    pub open spec fn env(&self) -> Map<Seq<char>, Seq<char>> {
        self.checker_spec().kakoune_io_spec().env()
    }

    /// The dictionary.
    pub open spec fn dict(&self) -> D {
        self.checker_spec().dictionary_view()
    }

    /// The identifier of the project.
    pub open spec fn project_id(&self) -> int {
        self.checker_spec().project_view().id() as int
    }

    /// The path of the project.
    pub open spec fn project_path(&self) -> Seq<char> {
        self.checker_spec().project_view().path()@
    }

    /// The selected line of the spelling buffer, parsed, when the selection
    /// is set.
    pub open spec fn selected(&self) -> Option<Result<(Seq<char>, Seq<char>, Seq<char>), Error>> {
        if self.env().contains_key("kak_selection"@) {
            Some(line_selection_of(self.env()["kak_selection"@]))
        } else {
            None
        }
    }

    /// The actions of a checker.
    pub fn new(checker: KakouneChecker<D, R, S>) -> (r: Self)
        ensures
            r.checker_spec() == checker,
    {
        KakCli { checker }
    }

    /// The checker.
    pub fn checker(&self) -> (r: &KakouneChecker<D, R, S>)
        ensures
            *r == self.checker_spec(),
    {
        &self.checker
    }

    /// How Kakoune is reached.
    pub fn kakoune_io(&self) -> (r: &KakouneIO<S>)
        ensures
            r.env() == self.env(),
    {
        self.checker.kakoune_io()
    }

    /// Writes a Kakoune command.
    pub fn print(&self, message: &str) {
        self.kakoune_io().print(message)
    }

    /// Parses the selected line of the spelling buffer.
    pub fn parse_line_selection(&self) -> (r: Result<LineSelection, Error>)
        ensures
            r matches Ok(ls) ==> self.selected() == Some(
                Ok::<(Seq<char>, Seq<char>, Seq<char>), Error>((ls.path@, ls.selection@, ls.word@)),
            ),
    {
        let line_selection = self.kakoune_io().get_selection()?;
        parse_line_selection(line_selection.as_str())
    }

    /// Adds the selected word to the ignore list of the extension of its
    /// file.
    pub fn add_extension(&mut self) -> (r: Result<(), Error>)
        ensures
            final(self).env() == old(self).env(),
            r is Ok ==> (old(self).selected() matches Some(Ok((p, _, w))) && rsplit_once_spec(p, '.') matches Some((_, e))
                && final(self).model() == (RepositoryModel {
                ignored_for_extension: old(self).model().ignored_for_extension.insert((e, lowercase(w))),
                extensions: old(self).model().extensions.insert(e),
                ..old(self).model()
            })),
    {
        let ls = self.parse_line_selection()?;
        let ext = selection_extension(ls.path.as_str())?;
        self.checker.repository_mut().ignore_for_extension(ls.word.as_str(), ext.as_str())?;
        self.recheck();
        self.print(extension_message_text(ls.word.as_str(), ext.as_str()).as_str());
        Ok(())
    }

    /// Adds the selected word to the ignore list of its file.
    pub fn add_file(&mut self) -> (r: Result<(), Error>)
        ensures
            final(self).env() == old(self).env(),
            r is Ok ==> (old(self).selected() matches Some(Ok((p, _, w))) && path_diff(p, old(self).project_path()) matches Some(rel)
                && final(self).model() == (RepositoryModel {
                ignored_for_path: old(self).model().ignored_for_path.insert((old(self).project_id(), rel, lowercase(w))),
                path_lists: old(self).model().path_lists.insert((old(self).project_id(), rel)),
                ..old(self).model()
            })),
    {
        let ls = self.parse_line_selection()?;
        let project = self.checker.project().clone();
        let relative_path = project.as_relative_path(ls.path.as_str())?;
        self.checker.repository_mut().ignore_for_path(ls.word.as_str(), project.id(), &relative_path)?;
        self.recheck();
        self.print(file_message_text(ls.word.as_str(), relative_path.as_str()).as_str());
        Ok(())
    }

    /// Adds the selected word to the global ignore list.
    pub fn add_global(&mut self) -> (r: Result<(), Error>)
        ensures
            final(self).env() == old(self).env(),
            r is Ok ==> (old(self).selected() matches Some(Ok((_, _, w))) && final(self).model() == (
            RepositoryModel { ignored: old(self).model().ignored.insert(lowercase(w)), ..old(self).model() })),
    {
        let ls = self.parse_line_selection()?;
        self.checker.repository_mut().ignore(ls.word.as_str())?;
        self.recheck();
        self.print(global_message_text(ls.word.as_str()).as_str());
        Ok(())
    }

    /// Adds the selected word to the ignore list of the project.
    pub fn add_project(&mut self) -> (r: Result<(), Error>)
        ensures
            final(self).env() == old(self).env(),
            r is Ok ==> (old(self).selected() matches Some(Ok((_, _, w))) && final(self).model() == (
            RepositoryModel {
                ignored_for_project: old(self).model().ignored_for_project.insert((old(self).project_id(), lowercase(w))),
                project_lists: old(self).model().project_lists.insert(old(self).project_id()),
                ..old(self).model()
            })),
    {
        let ls = self.parse_line_selection()?;
        let project_id = self.checker.project().id();
        self.checker.repository_mut().ignore_for_project(ls.word.as_str(), project_id)?;
        self.recheck();
        self.print(project_message_text(ls.word.as_str()).as_str());
        Ok(())
    }

    /// Opens the file of the selected error and selects the word.
    /// Gives back what it wrote: `edit` with the path of the selected line,
    /// then `select` with its range.
    pub fn jump(&self) -> (r: Result<String, Error>)
        ensures
            r is Ok ==> (self.selected() matches Some(Ok(_))),
            r matches Ok(t) ==> (self.selected() matches Some(Ok((p, s, _))) && t@ == "edit "@ + p
                + "\n"@ + "select "@ + s + "\n"@),
    {
        let ls = self.parse_line_selection()?;
        let mut edit = String::from_str("edit ");
        edit.append(ls.path.as_str());
        edit.append("\n");
        self.print(edit.as_str());
        let mut select = String::from_str("select ");
        select.append(ls.selection.as_str());
        select.append("\n");
        self.print(select.as_str());
        edit.append(select.as_str());
        Ok(edit)
    }

    /// The checker.
    pub closed spec fn checker_spec(&self) -> KakouneChecker<D, R, S> {
        self.checker
    }

    /// Checks the tokens of a file shown in a buffer.
    fn check_tokens(&mut self, name: &String, relative_path: &RelativePath, tokens: &Vec<(String, usize, usize)>) -> (r:
        Result<(), Error>)
        ensures
            r is Ok ==> same_setup(final(self).checker_spec(), old(self).checker_spec()),
            r is Ok ==> final(self).checker_spec().errors() == old(self).checker_spec().errors()
                + token_errors(
                old(self).checker_spec(),
                name@,
                relative_path@,
                tokens@.map_values(|x: (String, usize, usize)| (x.0@, x.1 as int, x.2 as int)),
            ),
            tokens@.len() == 0 ==> r is Ok && final(self).checker_spec() == old(self).checker_spec(),
    {
        let ghost c0 = self.checker;
        let ghost toks = tokens@.map_values(|x: (String, usize, usize)| (x.0@, x.1 as int, x.2 as int));
        let mut j: usize = 0;
        proof {
            assert(toks.take(0) =~= Seq::<(Seq<char>, int, int)>::empty());
            assert(self.checker.errors() =~= c0.errors() + token_errors(c0, name@, relative_path@, toks.take(0)));
        }
        while j < tokens.len()
            invariant
                j <= tokens@.len(),
                j == 0 ==> self.checker == c0,
                toks == tokens@.map_values(|x: (String, usize, usize)| (x.0@, x.1 as int, x.2 as int)),
                same_setup(self.checker, c0),
                self.checker.errors() == c0.errors() + token_errors(
                    c0,
                    name@,
                    relative_path@,
                    toks.take(j as int),
                ),
            decreases tokens@.len() - j,
        {
            let (word, line, column) = &tokens[j];
            let context = (name.clone(), *line, *column);
            let ghost before = self.checker.errors();
            self.checker.handle_token(word.as_str(), relative_path, &context)?;
            proof {
                assert(toks.take(j + 1).drop_last() =~= toks.take(j as int));
                assert(toks.take(j + 1).last() == toks[j as int]);
                assert(toks[j as int] == (word@, *line as int, *column as int));
                assert(self.checker.errors() =~= c0.errors() + token_errors(
                    c0,
                    name@,
                    relative_path@,
                    toks.take(j + 1),
                ));
            }
            j = j + 1;
        }
        proof {
            assert(toks.take(tokens@.len() as int) =~= toks);
        }
        Ok(())
    }

    /// Checks one buffer: Kakoune's own buffers, buffers of files that do
    /// not exist, skipped files and files outside the project are left out.
    fn check_buffer(&mut self, buffer: &Buffer) -> (r: Result<(), Error>)
        ensures
            r is Ok ==> same_setup(final(self).checker_spec(), old(self).checker_spec()),
            r is Ok ==> final(self).checker_spec().errors() == old(self).checker_spec().errors()
                + match checked_file(old(self).checker_spec(), *buffer) {
                Some((rel, toks)) => token_errors(old(self).checker_spec(), buffer.name@, rel, toks),
                None => Seq::empty(),
            },
            is_special_buffer_name(buffer.name@) || buffer.file is None ==> r is Ok
                && final(self).checker_spec() == old(self).checker_spec(),
            (buffer.file matches Some(f) && !is_special_buffer_name(buffer.name@) && path_diff(
                f.path(),
                old(self).checker_spec().project_view().path()@,
            ) is None) ==> r is Err,
    {
        if is_special_buffer(buffer.name.as_str()) {
            assert(self.checker.errors() =~= self.checker.errors() + Seq::<ErrorView>::empty());
            return Ok(());
        }
        self.print(unset_errors_command(buffer.name.as_str()).as_str());
        let source = match &buffer.file {
            None => {
                assert(self.checker.errors() =~= self.checker.errors() + Seq::<ErrorView>::empty());
                return Ok(());
            },
            Some(f) => f,
        };
        let relative_path = self.checker.project().as_relative_path(source.path_str())?;
        if self.checker.should_skip(&relative_path)? {
            assert(self.checker.errors() =~= self.checker.errors() + Seq::<ErrorView>::empty());
            return Ok(());
        }
        if starts_with_pair(relative_path.as_str(), '.', '.') {
            assert(self.checker.errors() =~= self.checker.errors() + Seq::<ErrorView>::empty());
            return Ok(());
        }
        let tokens = source.tokens();
        self.check_tokens(&buffer.name, &relative_path, &tokens)
    }

    /// Checks the open buffers of the project, then writes the errors: the
    /// errors found are those of `buffers_errors`, after the ones found
    /// before.
    pub fn check(&mut self, buffers: &Vec<Buffer>) -> (r: Result<String, Error>)
        ensures
            r matches Ok(s) ==> s@ == code_text(
                final(self).checker_spec().errors(),
                parsed_usize(old(self).env()["kak_timestamp"@])->0 as nat,
                underline_in(old(self).env()),
                old(self).project_path(),
            ),
            r is Ok ==> same_setup(final(self).checker_spec(), old(self).checker_spec()),
            r is Ok ==> final(self).checker_spec().errors() == old(self).checker_spec().errors()
                + buffers_errors(old(self).checker_spec(), buffers@),
            !(old(self).env().contains_key("kak_timestamp"@) && parsed_usize(
                old(self).env()["kak_timestamp"@],
            ) is Some) ==> r is Err,
    {
        let ghost c0 = self.checker;
        let mut i: usize = 0;
        proof {
            assert(buffers@.take(0) =~= Seq::<Buffer>::empty());
            assert(self.checker.errors() =~= c0.errors() + buffers_errors(c0, buffers@.take(0)));
        }
        while i < buffers.len()
            invariant
                i <= buffers@.len(),
                same_setup(self.checker, c0),
                self.checker.errors() == c0.errors() + buffers_errors(c0, buffers@.take(i as int)),
            decreases buffers@.len() - i,
        {
            let ghost before = self.checker;
            self.check_buffer(&buffers[i])?;
            proof {
                assert(buffers@.take(i + 1).drop_last() =~= buffers@.take(i as int));
                assert(buffers@.take(i + 1).last() == buffers@[i as int]);
                let b = buffers@[i as int];
                assert(checked_file(before, b) == checked_file(c0, b));
                if let Some((rel, toks)) = checked_file(c0, b) {
                    lemma_token_errors_setup(before, c0, b.name@, rel, toks);
                }
            }
            i = i + 1;
        }
        proof {
            assert(buffers@.take(buffers@.len() as int) =~= buffers@);
        }
        self.checker.write_code()
    }

    /// Selects the next or the previous error, given the ranges of the
    /// errors of the buffer.
    /// Gives back the command it wrote, if any.
    pub fn goto_error(&self, range_spec: &str, direction: Direction) -> (r: Result<Option<String>, Error>)
        ensures
            range_spec_of(range_spec@) is Err ==> r is Err,
            !cursor_readable(self.env()) ==> r is Err,
            r matches Ok(c) ==> cursor_readable(self.env()) && (range_spec_of(range_spec@) matches Ok(
                ranges,
            ) && match target_index(ranges, env_cursor(self.env()), direction) {
                Some(i) => c matches Some(t) && t@ == select_text(
                    ranges[i].0 as nat,
                    ranges[i].1 as nat,
                    ranges[i].2 as nat,
                ),
                None => c is None,
            }),
    {
        let cursor = self.kakoune_io().get_cursor()?;
        let ranges = self.kakoune_io().parse_range_spec(range_spec)?;
        let command = goto_command(cursor, &ranges, direction);
        if let Some(c) = &command {
            self.print(c.as_str());
        }
        Ok(command)
    }

    /// Selects the next error: the first range that ends after the cursor,
    /// or else the first range. Gives back the command it wrote, if any.
    pub fn goto_next_error(&self, range_spec: &str) -> (r: Result<Option<String>, Error>)
        ensures
            range_spec_of(range_spec@) is Err ==> r is Err,
            !cursor_readable(self.env()) ==> r is Err,
            r matches Ok(c) ==> cursor_readable(self.env()) && (range_spec_of(range_spec@) matches Ok(
                ranges,
            ) && match next_index(ranges, env_cursor(self.env())) {
                Some(i) => c matches Some(t) && t@ == select_text(
                    ranges[i].0 as nat,
                    ranges[i].1 as nat,
                    ranges[i].2 as nat,
                ),
                None => c is None,
            }),
    {
        self.goto_error(range_spec, Direction::Forward)
    }

    /// Selects the previous error: the last range that ends before the
    /// cursor, or else the last range. Gives back the command it wrote, if
    /// any.
    pub fn goto_previous_error(&self, range_spec: &str) -> (r: Result<Option<String>, Error>)
        ensures
            range_spec_of(range_spec@) is Err ==> r is Err,
            !cursor_readable(self.env()) ==> r is Err,
            r matches Ok(c) ==> cursor_readable(self.env()) && (range_spec_of(range_spec@) matches Ok(
                ranges,
            ) && match previous_index(ranges, env_cursor(self.env())) {
                Some(i) => c matches Some(t) && t@ == select_text(
                    ranges[i].0 as nat,
                    ranges[i].1 as nat,
                    ranges[i].2 as nat,
                ),
                None => c is None,
            }),
    {
        self.goto_error(range_spec, Direction::Backward)
    }

    /// Always skips the file of the selected error.
    pub fn skip_file(&mut self) -> (r: Result<(), Error>)
        ensures
            final(self).env() == old(self).env(),
            r is Ok ==> (old(self).selected() matches Some(Ok((p, _, _))) && path_diff(p, old(self).project_path()) matches Some(rel)
                && final(self).model() == (RepositoryModel {
                skipped_paths: old(self).model().skipped_paths.insert((old(self).project_id(), rel)),
                ..old(self).model()
            })),
    {
        let ls = self.parse_line_selection()?;
        let project = self.checker.project().clone();
        let relative_path = project.as_relative_path(ls.path.as_str())?;
        self.checker.repository_mut().skip_path(project.id(), &relative_path)?;
        self.recheck();
        self.print(skip_path_message_text(relative_path.as_str()).as_str());
        Ok(())
    }

    /// Always skips files with the name of the file of the selected error.
    pub fn skip_name(&mut self) -> (r: Result<(), Error>)
        ensures
            final(self).env() == old(self).env(),
            r is Ok ==> (old(self).selected() matches Some(Ok((p, _, _))) && path_file_name(p) matches Some(f)
                && final(self).model() == (RepositoryModel {
                skipped_file_names: old(self).model().skipped_file_names.insert(f),
                ..old(self).model()
            })),
    {
        let ls = self.parse_line_selection()?;
        let name = match file_name(ls.path.as_str()) {
            None => return Err(Error::NoFileName),
            Some(n) => n,
        };
        self.checker.repository_mut().skip_file_name(name.as_str())?;
        self.recheck();
        self.print(skip_name_message_text(name.as_str()).as_str());
        Ok(())
    }

    /// Shows a menu of replacements for the selected word: an error when
    /// the selection is blank, is a known word, or has no replacement.
    /// Gives back the menu it wrote.
    pub fn suggest(&mut self) -> (r: Result<String, Error>)
        ensures
            r is Ok ==> (old(self).env().contains_key("kak_selection"@) && ({
                let v = old(self).env()["kak_selection"@];
                &&& !(forall|i: int| 0 <= i < v.len() ==> char_is_whitespace(#[trigger] v[i]))
                &&& !old(self).dict().knows(v)
                &&& old(self).dict().replacements(v).len() > 0
            })),
            r matches Ok(m) ==> m@ == menu_text(old(self).dict().replacements(old(self).env()["kak_selection"@])),
            r matches Err(e) ==> e is Outside || (old(self).env().contains_key("kak_selection"@) && ({
                let v = old(self).env()["kak_selection"@];
                if blank_text(v) {
                    e == Error::BlankSelection
                } else if old(self).dict().knows(v) {
                    e matches Error::NotAnError(w) && w@ == v
                } else {
                    old(self).dict().replacements(v).len() == 0 && e == Error::NoSuggestions
                }
            })),
    {
        let selection = self.kakoune_io().get_selection()?;
        let blank = is_blank(selection.as_str());
        let known = if blank {
            false
        } else {
            self.checker.dictionary().check(selection.as_str())?
        };
        let suggestions = if blank || known {
            Vec::new()
        } else {
            self.checker.dictionary().suggest(selection.as_str())
        };
        let menu = suggestion_outcome(selection, known, &suggestions)?;
        self.print(menu.as_str());
        Ok(menu)
    }

    /// Runs an action; `buffers` are the open buffers, for `Check`.
    pub fn run(&mut self, action: &KakAction, buffers: &Vec<Buffer>) -> (r: Result<(), Error>)
        ensures
            action is Init ==> r matches Err(Error::NotImplemented(_)),
            action is Undo ==> r matches Err(Error::NotImplemented(_)),
            action matches KakAction::NextError(s) && range_spec_of(s@) is Err ==> r is Err,
            action matches KakAction::PreviousError(s) && range_spec_of(s@) is Err ==> r is Err,
    {
        match action {
            KakAction::AddExtension => self.add_extension(),
            KakAction::AddFile => self.add_file(),
            KakAction::AddGlobal => self.add_global(),
            KakAction::AddProject => self.add_project(),
            KakAction::Check(_) => match self.check(buffers) {
                Ok(_) => Ok(()),
                Err(e) => Err(e),
            },
            KakAction::Jump => match self.jump() {
                Ok(_) => Ok(()),
                Err(e) => Err(e),
            },
            KakAction::NextError(s) => match self.goto_next_error(s.as_str()) {
                Ok(_) => Ok(()),
                Err(e) => Err(e),
            },
            KakAction::PreviousError(s) => match self.goto_previous_error(s.as_str()) {
                Ok(_) => Ok(()),
                Err(e) => Err(e),
            },
            KakAction::SkipFile => self.skip_file(),
            KakAction::SkipName => self.skip_name(),
            KakAction::Suggest => match self.suggest() {
                Ok(_) => Ok(()),
                Err(e) => Err(e),
            },
            KakAction::Undo => Err(Error::NotImplemented(String::from_str("undo"))),
            KakAction::Init => Err(
                Error::NotImplemented(String::from_str("init needs no checker")),
            ),
        }
    }

    /// Saves the buffers and checks them again.
    pub fn recheck(&self) {
        self.print("write-all\n");
        self.print("skyspell-check\n");
        self.print("skyspell-list\n");
    }
}

} // verus!
