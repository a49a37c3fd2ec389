//! The command line actions: which ignore list or skip list an invocation
//! names, what is done with it, and the check of a list of files.
use vstd::prelude::*;

use crate::checker::{Checker, token_run, token_step, tokens_handled};
use crate::dictionary::Dictionary;
use crate::error::Error;
use crate::dictionary::texts;
use crate::project::{ProjectPath, RelativePath, path_diff};
use crate::repository::{Repository, RepositoryModel, lowercased, skips};
use crate::search::lowercase;
use crate::text::{ascii_fields, decimal, split_ascii_whitespace};
use crate::tokens::{TokenProcessor, lines_tokens, relevant_count};

verus! {

/// The ignore list that `add` and `remove` work on.
#[derive(Debug)]
pub enum ListKind {
    /// The global list.
    Global,
    /// The list of an extension.
    Extension,
    /// The list of a file of a project.
    Path,
    /// The list of a project.
    Project,
}

/// The list named by the options given: a project path, a relative path,
/// an extension.
pub open spec fn list_kind_spec(project_path: bool, relative_path: bool, extension: bool) -> Result<
    ListKind,
    Error,
> {
    if !project_path && !relative_path && !extension {
        Ok(ListKind::Global)
    } else if !project_path && extension {
        Ok(ListKind::Extension)
    } else if project_path && relative_path && !extension {
        Ok(ListKind::Path)
    } else if project_path && !relative_path && !extension {
        Ok(ListKind::Project)
    } else if !project_path && relative_path && !extension {
        Err(Error::RelativePathWithoutProject)
    } else {
        Err(Error::ExtensionWithProject)
    }
}

/// The list named by the options given.
pub fn list_kind(project_path: bool, relative_path: bool, extension: bool) -> (r: Result<ListKind, Error>)
    ensures
        r == list_kind_spec(project_path, relative_path, extension),
{
    match (project_path, relative_path, extension) {
        (false, false, false) => Ok(ListKind::Global),
        (false, _, true) => Ok(ListKind::Extension),
        (true, true, false) => Ok(ListKind::Path),
        (true, false, false) => Ok(ListKind::Project),
        (false, true, false) => Err(Error::RelativePathWithoutProject),
        (true, _, true) => Err(Error::ExtensionWithProject),
    }
}

/// An ignore list, with what it needs: an extension, a project (by its
/// canonical path), a file (by its canonical path).
pub enum IgnoreList {
    /// The global list.
    Global,
    /// The list of an extension.
    Extension(String),
    /// The list of a file of a project.
    Path(ProjectPath, String),
    /// The list of a project.
    Project(ProjectPath),
}

/// `b` is `a` with the project `id` at `project_path` (created when it was
/// missing), and the word added to the list of the file `rel` of it.
pub open spec fn added_for_path(
    a: RepositoryModel,
    b: RepositoryModel,
    id: int,
    project_path: Seq<char>,
    rel: Seq<char>,
    word: Seq<char>,
) -> bool {
    &&& b.projects.contains((id, project_path))
    &&& a.projects.subset_of(b.projects)
    &&& b == RepositoryModel {
        ignored_for_path: a.ignored_for_path.insert((id, rel, word)),
        path_lists: a.path_lists.insert((id, rel)),
        projects: b.projects,
        ..a
    }
}

/// `b` is `a` with the project `id` at `project_path` (created when it was
/// missing), and the word added to the list of the project.
pub open spec fn added_for_project(
    a: RepositoryModel,
    b: RepositoryModel,
    id: int,
    project_path: Seq<char>,
    word: Seq<char>,
) -> bool {
    &&& b.projects.contains((id, project_path))
    &&& a.projects.subset_of(b.projects)
    &&& b == RepositoryModel {
        ignored_for_project: a.ignored_for_project.insert((id, word)),
        project_lists: a.project_lists.insert(id),
        projects: b.projects,
        ..a
    }
}

/// The content after adding a word to a list, when that succeeds.
pub open spec fn add_effect(a: RepositoryModel, b: RepositoryModel, word: Seq<char>, list: IgnoreList) -> bool {
    match list {
        IgnoreList::Global => b == RepositoryModel { ignored: a.ignored.insert(lowercase(word)), ..a },
        IgnoreList::Extension(e) => b == RepositoryModel {
            ignored_for_extension: a.ignored_for_extension.insert((e@, lowercase(word))),
            extensions: a.extensions.insert(e@),
            ..a
        },
        IgnoreList::Path(p, source) => path_diff(source@, p@) matches Some(rel) && exists|id: int|
            added_for_path(a, b, id, p@, rel, lowercase(word)),
        IgnoreList::Project(p) => exists|id: int| added_for_project(a, b, id, p@, lowercase(word)),
    }
}

/// The content after removing a word from a list, when that succeeds.
pub open spec fn remove_effect(a: RepositoryModel, b: RepositoryModel, word: Seq<char>, list: IgnoreList) -> bool {
    match list {
        IgnoreList::Global => b == RepositoryModel { ignored: a.ignored.remove(lowercase(word)), ..a },
        IgnoreList::Extension(e) => b == RepositoryModel {
            ignored_for_extension: a.ignored_for_extension.remove((e@, lowercase(word))),
            ..a
        },
        IgnoreList::Path(p, source) => path_diff(source@, p@) matches Some(rel) && exists|id: int|
            a.projects.contains((id, p@)) && b == RepositoryModel {
                ignored_for_path: a.ignored_for_path.remove((id, rel, lowercase(word))),
                ..a
            },
        IgnoreList::Project(p) => exists|id: int|
            a.projects.contains((id, p@)) && b == RepositoryModel {
                ignored_for_project: a.ignored_for_project.remove((id, lowercase(word))),
                ..a
            },
    }
}

/// Adds a word to an ignore list; the project is created when it does not
/// exist yet.
pub fn add<R: Repository>(repository: &mut R, word: &str, list: &IgnoreList) -> (r: Result<(), Error>)
    ensures
        r is Ok ==> add_effect(old(repository).model(), final(repository).model(), word@, *list),
{
    match list {
        IgnoreList::Global => repository.ignore(word),
        IgnoreList::Extension(e) => repository.ignore_for_extension(word, e.as_str()),
        IgnoreList::Path(project_path, source) => {
            let project = repository.ensure_project(project_path)?;
            let relative_path = RelativePath::new(project_path, source.as_str())?;
            let r = repository.ignore_for_path(word, project.id(), &relative_path);
            proof {
                if r is Ok {
                    let b = repository.model();
                    assert(added_for_path(
                        old(repository).model(),
                        b,
                        project.id() as int,
                        project_path@,
                        relative_path@,
                        lowercase(word@),
                    ));
                }
            }
            r
        },
        IgnoreList::Project(project_path) => {
            repository.ensure_project(project_path)?;
            let project_id = repository.get_project_id(project_path)?;
            let r = repository.ignore_for_project(word, project_id);
            proof {
                if r is Ok {
                    assert(added_for_project(
                        old(repository).model(),
                        repository.model(),
                        project_id as int,
                        project_path@,
                        lowercase(word@),
                    ));
                }
            }
            r
        },
    }
}

/// Removes a word from an ignore list.
pub fn remove<R: Repository>(repository: &mut R, word: &str, list: &IgnoreList) -> (r: Result<(), Error>)
    ensures
        r is Ok ==> remove_effect(old(repository).model(), final(repository).model(), word@, *list),
{
    match list {
        IgnoreList::Global => repository.remove_ignored(word),
        IgnoreList::Extension(e) => repository.remove_ignored_for_extension(word, e.as_str()),
        IgnoreList::Path(project_path, source) => {
            let project_id = repository.get_project_id(project_path)?;
            let relative_path = RelativePath::new(project_path, source.as_str())?;
            let r = repository.remove_ignored_for_path(word, project_id, &relative_path);
            proof {
                if r is Ok {
                    assert(old(repository).model().projects.contains((project_id as int, project_path@)));
                }
            }
            r
        },
        IgnoreList::Project(project_path) => {
            let project_id = repository.get_project_id(project_path)?;
            let r = repository.remove_ignored_for_project(word, project_id);
            proof {
                if r is Ok {
                    assert(old(repository).model().projects.contains((project_id as int, project_path@)));
                }
            }
            r
        },
    }
}

/// The skip list that `skip` and `unskip` work on.
#[derive(Debug)]
pub enum SkipKind {
    /// A file of a project.
    Path,
    /// A file name.
    FileName,
}

/// The skip list named by the options given: a project path, a relative
/// path, a file name.
pub open spec fn skip_kind_spec(project_path: bool, relative_path: bool, file_name: bool) -> Result<
    SkipKind,
    Error,
> {
    if project_path && relative_path && !file_name {
        Ok(SkipKind::Path)
    } else if !relative_path && file_name {
        Ok(SkipKind::FileName)
    } else {
        Err(Error::InvalidSkipArguments)
    }
}

/// The skip list named by the options given.
pub fn skip_kind(project_path: bool, relative_path: bool, file_name: bool) -> (r: Result<SkipKind, Error>)
    ensures
        r == skip_kind_spec(project_path, relative_path, file_name),
{
    match (project_path, relative_path, file_name) {
        (true, true, false) => Ok(SkipKind::Path),
        (_, false, true) => Ok(SkipKind::FileName),
        (_, _, _) => Err(Error::InvalidSkipArguments),
    }
}

/// A skip rule: a file of a project (by canonical paths), or a file name.
pub enum SkipRule {
    /// A file of a project.
    Path(ProjectPath, String),
    /// A file name.
    FileName(String),
}

/// The content after adding a skip rule, when that succeeds.
pub open spec fn skip_effect(a: RepositoryModel, b: RepositoryModel, rule: SkipRule) -> bool {
    match rule {
        SkipRule::Path(p, source) => path_diff(source@, p@) matches Some(rel) && exists|id: int|
            b.projects.contains((id, p@)) && a.projects.subset_of(b.projects) && b == RepositoryModel {
                skipped_paths: a.skipped_paths.insert((id, rel)),
                projects: b.projects,
                ..a
            },
        SkipRule::FileName(f) => b == RepositoryModel {
            skipped_file_names: a.skipped_file_names.insert(f@),
            ..a
        },
    }
}

/// The content after removing a skip rule, when that succeeds.
pub open spec fn unskip_effect(a: RepositoryModel, b: RepositoryModel, rule: SkipRule) -> bool {
    match rule {
        SkipRule::Path(p, source) => path_diff(source@, p@) matches Some(rel) && exists|id: int|
            a.projects.contains((id, p@)) && b == RepositoryModel {
                skipped_paths: a.skipped_paths.remove((id, rel)),
                ..a
            },
        SkipRule::FileName(f) => b == RepositoryModel {
            skipped_file_names: a.skipped_file_names.remove(f@),
            ..a
        },
    }
}

/// Adds a skip rule; the project is created when it does not exist yet.
pub fn skip<R: Repository>(repository: &mut R, rule: &SkipRule) -> (r: Result<(), Error>)
    ensures
        r is Ok ==> skip_effect(old(repository).model(), final(repository).model(), *rule),
{
    match rule {
        SkipRule::Path(project_path, source) => {
            let project = repository.ensure_project(project_path)?;
            let relative_path = RelativePath::new(project_path, source.as_str())?;
            let r = repository.skip_path(project.id(), &relative_path);
            proof {
                if r is Ok {
                    let id = project.id() as int;
                    assert(repository.model().projects.contains((id, project_path@)));
                }
            }
            r
        },
        SkipRule::FileName(name) => repository.skip_file_name(name.as_str()),
    }
}

/// Removes a skip rule.
pub fn unskip<R: Repository>(repository: &mut R, rule: &SkipRule) -> (r: Result<(), Error>)
    ensures
        r is Ok ==> unskip_effect(old(repository).model(), final(repository).model(), *rule),
{
    match rule {
        SkipRule::Path(project_path, source) => {
            let project_id = repository.get_project_id(project_path)?;
            let relative_path = RelativePath::new(project_path, source.as_str())?;
            let r = repository.unskip_path(project_id, &relative_path);
            proof {
                if r is Ok {
                    assert(old(repository).model().projects.contains((project_id as int, project_path@)));
                }
            }
            r
        },
        SkipRule::FileName(name) => repository.unskip_file_name(name.as_str()),
    }
}

/// Adds the words of a personal dictionary (its text, words separated by
/// ASCII white space) to the global ignore list.
pub fn import_personal_dict<R: Repository>(repository: &mut R, dict: &str) -> (r: Result<(), Error>)
    ensures
        r is Ok ==> final(repository).model() == (RepositoryModel {
            ignored: old(repository).model().ignored.union(
                ascii_fields(dict@).map_values(|w: Seq<char>| lowercase(w)).to_set(),
            ),
            ..old(repository).model()
        }),
{
    let words = split_ascii_whitespace(dict);
    assert(lowercased(words@) =~= ascii_fields(dict@).map_values(|w: Seq<char>| lowercase(w))) by {
        assert(words@.map_values(|x: String| x@) == ascii_fields(dict@));
        assert forall|k: int| 0 <= k < words@.len() implies lowercased(words@)[k] == ascii_fields(
            dict@,
        ).map_values(|w: Seq<char>| lowercase(w))[k] by {
            assert(words@.map_values(|x: String| x@)[k] == words@[k]@);
        }
    }
    repository.insert_ignored_words(&words)
}

/// The replacements to show for a word: none when the dictionary knows it.
pub fn suggest<D: Dictionary>(dictionary: &D, word: &str) -> (r: Result<Vec<String>, Error>)
    ensures
        r matches Ok(v) ==> texts(v@) == if dictionary.knows(word@) {
            Seq::<Seq<char>>::empty()
        } else {
            dictionary.replacements(word@)
        },
{
    if dictionary.check(word)? {
        let v: Vec<String> = Vec::new();
        assert(texts(v@) =~= Seq::<Seq<char>>::empty());
        return Ok(v);
    }
    Ok(dictionary.suggest(word))
}

/// What checking the file `f` may turn the checker `a` into: nothing
/// changes when the file is skipped; else its tokens are handled in order.
/// `false` when the file is not inside the project (the check fails).
pub open spec fn file_handled<C: Checker<Context = (usize, usize)>>(a: C, b: C, f: TokenProcessor) -> bool {
    match path_diff(f.path(), a.project_view().path()@) {
        None => false,
        Some(rel) => if skips(a.repository_spec().model(), a.project_view().id() as int, rel) {
            b == a
        } else {
            tokens_handled(a, b, rel, lines_tokens(f.lines(), relevant_count(f.lines(), f.is_commit_message())))
        },
    }
}

/// The states `states` are those a checker goes through when it checks
/// the files in order.
pub open spec fn file_run<C: Checker<Context = (usize, usize)>>(states: Seq<C>, files: Seq<TokenProcessor>) -> bool {
    &&& states.len() == files.len() + 1
    &&& forall|i: int| 0 <= i < files.len() ==> #[trigger] file_handled(states[i], states[i + 1], files[i])
}

/// What checking the files in order may turn the checker `a` into.
pub open spec fn files_handled<C: Checker<Context = (usize, usize)>>(a: C, b: C, files: Seq<TokenProcessor>) -> bool {
    exists|states: Seq<C>| #[trigger] file_run(states, files) && states[0] == a && states.last() == b
}

/// How many files a check skipped and how many it checked.
#[derive(Debug)]
pub struct CheckSummary {
    /// The files skipped.
    pub skipped: usize,
    /// The files checked.
    pub checked: usize,
}

/// Checks the files with the checker, skipping those that the repository
/// skips; fails when the checker says it did not succeed.
pub fn check_with<C: Checker<Context = (usize, usize)>>(checker: &mut C, sources: &Vec<TokenProcessor>) -> (r:
    Result<CheckSummary, Error>)
    ensures
        r matches Ok(s) ==> s.skipped + s.checked == sources@.len(),
        r is Ok ==> final(checker).succeeded(),
        r is Ok ==> files_handled(*old(checker), *final(checker), sources@),
        sources@.len() == 0 ==> *final(checker) == *old(checker) && (r is Ok <==> old(
            checker,
        ).succeeded()),
{
    let ghost c0 = *checker;
    let ghost srcs = sources@;
    let ghost mut fstates: Seq<C> = seq![c0];
    let mut skipped: usize = 0;
    let mut checked: usize = 0;
    let mut i: usize = 0;
    while i < sources.len()
        invariant
            srcs == sources@,
            c0 == *old(checker),
            i <= sources@.len(),
            skipped + checked == i,
            i == 0 ==> *checker == *old(checker),
            file_run(fstates, srcs.take(i as int)),
            fstates[0] == c0,
            fstates.last() == *checker,
        decreases sources@.len() - i,
    {
        let ghost m = *checker;
        let source = &sources[i];
        let relative_path = checker.project().as_relative_path(source.path_str())?;
        if checker.should_skip(&relative_path)? {
            skipped = skipped + 1;
            assert(file_handled(m, *checker, srcs[i as int]));
        } else {
            let tokens = source.tokens();
            let ghost toks = tokens@.map_values(|x: (String, usize, usize)| (x.0@, x.1 as int, x.2 as int));
            let ghost mut tstates: Seq<C> = seq![m];
            let mut j: usize = 0;
            while j < tokens.len()
                invariant
                    j <= tokens@.len(),
                    i < sources@.len(),
                    toks == tokens@.map_values(|x: (String, usize, usize)| (x.0@, x.1 as int, x.2 as int)),
                    token_run(tstates, relative_path@, toks.take(j as int)),
                    tstates[0] == m,
                    tstates.last() == *checker,
                decreases tokens@.len() - j,
            {
                let ghost before = *checker;
                let (word, line, column) = &tokens[j];
                checker.handle_token(word.as_str(), &relative_path, &(*line, *column))?;
                proof {
                    let t = toks.take(j + 1);
                    let prev = tstates;
                    tstates = tstates.push(*checker);
                    assert(toks[j as int] == (word@, *line as int, *column as int));
                    assert(token_step(before, *checker, word@, relative_path@, (*line, *column)));
                    assert forall|k: int| 0 <= k < t.len() implies #[trigger] token_step(
                        tstates[k],
                        tstates[k + 1],
                        t[k].0,
                        relative_path@,
                        (t[k].1 as usize, t[k].2 as usize),
                    ) by {
                        if k < j {
                            assert(t[k] == toks.take(j as int)[k]);
                            assert(token_step(
                                prev[k],
                                prev[k + 1],
                                toks.take(j as int)[k].0,
                                relative_path@,
                                (toks.take(j as int)[k].1 as usize, toks.take(j as int)[k].2 as usize),
                            ));
                        }
                    }
                }
                j = j + 1;
            }
            proof {
                assert(toks.take(tokens@.len() as int) =~= toks);
                assert(token_run(tstates, relative_path@, toks));
                assert(tokens_handled(m, *checker, relative_path@, toks));
            }
            assert(file_handled(m, *checker, srcs[i as int]));
            checked = checked + 1;
        }
        proof {
            let f = srcs.take(i + 1);
            let prev = fstates;
            fstates = fstates.push(*checker);
            assert forall|k: int| 0 <= k < f.len() implies #[trigger] file_handled(
                fstates[k],
                fstates[k + 1],
                f[k],
            ) by {
                if k < i {
                    assert(f[k] == srcs.take(i as int)[k]);
                    assert(file_handled(prev[k], prev[k + 1], srcs.take(i as int)[k]));
                }
            }
        }
        i = i + 1;
    }
    proof {
        assert(srcs.take(srcs.len() as int) =~= srcs);
        assert(file_run(fstates, srcs));
    }
    checker.success()?;
    Ok(CheckSummary { skipped, checked })
}

/// The line that tells how many files were skipped, when some were.
pub open spec fn skipped_text(skipped: nat) -> Option<Seq<char>> {
    if skipped == 1 {
        Some("Skipped one file"@)
    } else if skipped >= 2 {
        Some("Skipped "@ + decimal(skipped) + " files"@)
    } else {
        None
    }
}

/// The line that tells how many files were skipped, when some were.
pub fn skipped_message(skipped: usize) -> (r: Option<String>)
    ensures
        match skipped_text(skipped as nat) {
            Some(t) => r matches Some(s) && s@ == t,
            None => r is None,
        },
{
    if skipped == 1 {
        Some(String::from_str("Skipped one file"))
    } else if skipped >= 2 {
        let mut s = String::from_str("Skipped ");
        s.append(crate::text::usize_to_string(skipped).as_str());
        s.append(" files");
        Some(s)
    } else {
        None
    }
}

/// The line that ends a successful check.
pub fn success_message(checked: usize) -> (r: String)
    ensures
        r@ == "Success. "@ + decimal(checked as nat) + " files checked."@,
{
    let mut s = String::from_str("Success. ");
    s.append(crate::text::usize_to_string(checked).as_str());
    s.append(" files checked.");
    s
}

/// The options of the command line.
pub struct Opts {
    /// The language of the dictionary.
    pub lang: Option<String>,
    /// The path of the repository.
    pub db_path: Option<String>,
    /// The action.
    pub action: Action,
}

impl Opts {
    /// The language of the dictionary: `en_US` unless one is given.
    pub fn lang(&self) -> (r: &str)
        ensures
            match self.lang {
                Some(l) => r@ == l@,
                None => r@ == "en_US"@,
            },
    {
        match &self.lang {
            Some(l) => l.as_str(),
            None => "en_US",
        }
    }
}

/// The actions of the command line.
pub enum Action {
    /// Add a word to an ignore list.
    Add(AddOpts),
    /// Remove a word from an ignore list.
    Remove(RemoveOpts),
    /// Check files.
    Check(CheckOpts),
    /// Remove the projects whose path no longer exists.
    Clean,
    /// Add the words of a personal dictionary to the global ignore list.
    ImportPersonalDict(ImportPersonalDictOpts),
    /// Suggest replacements for a word.
    Suggest(SuggestOpts),
    /// Add a skip rule.
    Skip(SkipOpts),
    /// Remove a skip rule.
    Unskip(UnskipOpts),
    /// The Kakoune actions.
    Kak(crate::kak::cli::Opts),
}

/// The options of `add`.
pub struct AddOpts {
    /// The path of the project.
    pub project_path: Option<String>,
    /// The word.
    pub word: String,
    /// The extension.
    pub extension: Option<String>,
    /// The path of the file.
    pub relative_path: Option<String>,
}

/// The options of `remove`.
pub struct RemoveOpts {
    /// The path of the project.
    pub project_path: Option<String>,
    /// The extension.
    pub extension: Option<String>,
    /// The path of the file.
    pub relative_path: Option<String>,
    /// The word.
    pub word: String,
}

/// The options of `check`.
pub struct CheckOpts {
    /// The path of the project.
    pub project_path: String,
    /// Report the errors instead of asking about each.
    pub non_interactive: bool,
    /// The files to check.
    pub sources: Vec<String>,
}

/// The options of `import-personal-dict`.
pub struct ImportPersonalDictOpts {
    /// The path of the personal dictionary.
    pub personal_dict_path: String,
}

/// The options of `skip`.
pub struct SkipOpts {
    /// The path of the project.
    pub project_path: Option<String>,
    /// The path of the file.
    pub relative_path: Option<String>,
    /// The file name.
    pub file_name: Option<String>,
}

/// The options of `unskip`.
pub struct UnskipOpts {
    /// The path of the project.
    pub project_path: Option<String>,
    /// The path of the file.
    pub relative_path: Option<String>,
    /// The file name.
    pub file_name: Option<String>,
}

/// The options of `suggest`.
pub struct SuggestOpts {
    /// The word.
    pub word: String,
}

impl AddOpts {
    /// The list the options name.
    pub fn list_kind(&self) -> (r: Result<ListKind, Error>)
        ensures
            r == list_kind_spec(
                self.project_path is Some,
                self.relative_path is Some,
                self.extension is Some,
            ),
    {
        list_kind(self.project_path.is_some(), self.relative_path.is_some(), self.extension.is_some())
    }
}

impl RemoveOpts {
    /// The list the options name.
    pub fn list_kind(&self) -> (r: Result<ListKind, Error>)
        ensures
            r == list_kind_spec(
                self.project_path is Some,
                self.relative_path is Some,
                self.extension is Some,
            ),
    {
        list_kind(self.project_path.is_some(), self.relative_path.is_some(), self.extension.is_some())
    }
}

impl SkipOpts {
    /// The skip list the options name.
    pub fn skip_kind(&self) -> (r: Result<SkipKind, Error>)
        ensures
            r == skip_kind_spec(
                self.project_path is Some,
                self.relative_path is Some,
                self.file_name is Some,
            ),
    {
        skip_kind(self.project_path.is_some(), self.relative_path.is_some(), self.file_name.is_some())
    }
}

impl UnskipOpts {
    /// The skip list the options name.
    pub fn skip_kind(&self) -> (r: Result<SkipKind, Error>)
        ensures
            r == skip_kind_spec(
                self.project_path is Some,
                self.relative_path is Some,
                self.file_name is Some,
            ),
    {
        skip_kind(self.project_path.is_some(), self.relative_path.is_some(), self.file_name.is_some())
    }
}

} // verus!
