//! The checker that asks the user what to do with each error.
use vstd::prelude::*;

use crate::checker::Checker;
use crate::dictionary::{Dictionary, contains_text, texts};
use crate::error::Error;
use crate::interactor::Interactor;
use crate::project::{Project, ProjectPath, RelativePath};
use crate::project::{extension_of, path_file_name};
use crate::repository::{Repository, RepositoryModel, ignores, same_lists, skips};
use crate::search::lowercase;
use crate::text::{str_eq, usize_to_string};

verus! {

/// The question asked for each error.
pub const PROMPT: &'static str = "What to do?
a : Add word to global ignore list
e : Add word to ignore list for this extension
p : Add word to ignore list for the current project
f : Add word to ignore list for the current file
n : Always skip this file name
s : Always skip this file path
x : Skip this error
q : Quit
> ";

/// The letters of the answers.
pub const CHOICES: &'static str = "aepfnsxq";

/// What the user can answer.
pub enum Answer {
    /// Add the word to the global ignore list.
    GlobalIgnore,
    /// Add the word to the ignore list of the extension of the file.
    ExtensionIgnore,
    /// Add the word to the ignore list of the project.
    ProjectIgnore,
    /// Add the word to the ignore list of the file.
    FileIgnore,
    /// Always skip files with this name.
    FileNameSkip,
    /// Always skip this file of the project.
    PathSkip,
    /// Skip this error for the rest of the check.
    SkipError,
    /// Stop the check.
    Quit,
}

/// The answer a letter stands for.
pub open spec fn answer_spec(letter: Seq<char>) -> Option<Answer> {
    if letter == "a"@ {
        Some(Answer::GlobalIgnore)
    } else if letter == "e"@ {
        Some(Answer::ExtensionIgnore)
    } else if letter == "p"@ {
        Some(Answer::ProjectIgnore)
    } else if letter == "f"@ {
        Some(Answer::FileIgnore)
    } else if letter == "n"@ {
        Some(Answer::FileNameSkip)
    } else if letter == "s"@ {
        Some(Answer::PathSkip)
    } else if letter == "x"@ {
        Some(Answer::SkipError)
    } else if letter == "q"@ {
        Some(Answer::Quit)
    } else {
        None
    }
}

/// The answer a letter stands for.
pub fn answer_of(letter: &str) -> (r: Option<Answer>)
    ensures
        r == answer_spec(letter@),
{
    if str_eq(letter, "a") {
        Some(Answer::GlobalIgnore)
    } else if str_eq(letter, "e") {
        Some(Answer::ExtensionIgnore)
    } else if str_eq(letter, "p") {
        Some(Answer::ProjectIgnore)
    } else if str_eq(letter, "f") {
        Some(Answer::FileIgnore)
    } else if str_eq(letter, "n") {
        Some(Answer::FileNameSkip)
    } else if str_eq(letter, "s") {
        Some(Answer::PathSkip)
    } else if str_eq(letter, "x") {
        Some(Answer::SkipError)
    } else if str_eq(letter, "q") {
        Some(Answer::Quit)
    } else {
        None
    }
}

/// `'a'` between `prefix` and `suffix`, as in `Added 'a' to ...`.
fn quoted(prefix: &str, a: &str, suffix: &str) -> (r: String)
    ensures
        r@ == prefix@ + "'"@ + a@ + "'"@ + suffix@,
{
    let mut s = String::from_str(prefix);
    s.append("'");
    s.append(a);
    s.append("'");
    s.append(suffix);
    s
}

/// The line that shows an error: `path:line:column error`.
pub fn error_line(path: &str, line: usize, column: usize, error: &str) -> (r: String)
    ensures
        r@ == path@ + ":"@ + crate::text::decimal(line as nat) + ":"@ + crate::text::decimal(
            column as nat,
        ) + " "@ + error@,
{
    let mut s = String::from_str(path);
    s.append(":");
    s.append(usize_to_string(line).as_str());
    s.append(":");
    s.append(usize_to_string(column).as_str());
    s.append(" ");
    s.append(error);
    s
}

/// `b` is `a`, or `a` with one rule added for the word in the file `path`
/// of the project: the word in one of the ignore lists that cover the file,
/// or the file skipped by its name or its path.
pub open spec fn one_rule_added(
    a: RepositoryModel,
    b: RepositoryModel,
    word: Seq<char>,
    project_id: int,
    path: Seq<char>,
) -> bool {
    ||| b == a
    ||| b == RepositoryModel { ignored: a.ignored.insert(lowercase(word)), ..a }
    ||| (path_file_name(path) matches Some(f) && extension_of(f) matches Some(e) && b
        == RepositoryModel {
        ignored_for_extension: a.ignored_for_extension.insert((e, lowercase(word))),
        extensions: a.extensions.insert(e),
        ..a
    })
    ||| b == RepositoryModel {
        ignored_for_project: a.ignored_for_project.insert((project_id, lowercase(word))),
        project_lists: a.project_lists.insert(project_id),
        ..a
    }
    ||| b == RepositoryModel {
        ignored_for_path: a.ignored_for_path.insert((project_id, path, lowercase(word))),
        path_lists: a.path_lists.insert((project_id, path)),
        ..a
    }
    ||| (path_file_name(path) matches Some(f) && b == RepositoryModel {
        skipped_file_names: a.skipped_file_names.insert(f),
        ..a
    })
    ||| b == RepositoryModel { skipped_paths: a.skipped_paths.insert((project_id, path)), ..a }
}

/// The model after the rule that an answer adds for the word in the file
/// `path` of the project; `None` for the answers that add no rule, and for
/// an extension or file name rule on a file without one.
pub open spec fn rule_of(
    answer: Answer,
    m: RepositoryModel,
    word: Seq<char>,
    project_id: int,
    path: Seq<char>,
) -> Option<RepositoryModel> {
    match answer {
        Answer::GlobalIgnore => Some(RepositoryModel { ignored: m.ignored.insert(lowercase(word)), ..m }),
        Answer::ExtensionIgnore => match path_file_name(path) {
            Some(f) => match extension_of(f) {
                Some(e) => Some(
                    RepositoryModel {
                        ignored_for_extension: m.ignored_for_extension.insert((e, lowercase(word))),
                        extensions: m.extensions.insert(e),
                        ..m
                    },
                ),
                None => None,
            },
            None => None,
        },
        Answer::ProjectIgnore => Some(
            RepositoryModel {
                ignored_for_project: m.ignored_for_project.insert((project_id, lowercase(word))),
                project_lists: m.project_lists.insert(project_id),
                ..m
            },
        ),
        Answer::FileIgnore => Some(
            RepositoryModel {
                ignored_for_path: m.ignored_for_path.insert((project_id, path, lowercase(word))),
                path_lists: m.path_lists.insert((project_id, path)),
                ..m
            },
        ),
        Answer::FileNameSkip => match path_file_name(path) {
            Some(f) => Some(RepositoryModel { skipped_file_names: m.skipped_file_names.insert(f), ..m }),
            None => None,
        },
        Answer::PathSkip => Some(
            RepositoryModel { skipped_paths: m.skipped_paths.insert((project_id, path)), ..m },
        ),
        Answer::SkipError => None,
        Answer::Quit => None,
    }
}

/// The checker that asks the user what to do with each error.
pub struct InteractiveChecker<I: Interactor, D: Dictionary, R: Repository> {
    project: Project,
    interactor: I,
    dictionary: D,
    repository: R,
    skipped: Vec<String>,
}

impl<I: Interactor, D: Dictionary, R: Repository> InteractiveChecker<I, D, R> {
    /// The errors skipped so far.
    pub closed spec fn skipped(&self) -> Set<Seq<char>> {
        texts(self.skipped@).to_set()
    }

    /// The project being checked.
    pub open spec fn project_spec(&self) -> &Project {
        &self.project_view()
    }

    /// The content of the repository.
    pub open spec fn model(&self) -> RepositoryModel {
        self.repository_spec().model()
    }

    /// The identifier of the project.
    pub open spec fn project_id(&self) -> int {
        self.project_view().id() as int
    }

    /// A checker of the project, which is created in the repository when it
    /// does not exist yet.
    pub fn new(project_path: ProjectPath, interactor: I, dictionary: D, repository: R) -> (r: Result<
        Self,
        Error,
    >)
        ensures
            r matches Ok(c) ==> c.skipped() == Set::<Seq<char>>::empty() && c.project_spec().path()@
                == project_path@ && c.dictionary_view() == dictionary && c.model().projects.contains(
                (c.project_id(), project_path@),
            ) && repository.model().projects.subset_of(c.model().projects) && same_lists(
                repository.model(),
                c.model(),
            ),
    {
        let mut repository = repository;
        let project = repository.ensure_project(&project_path)?;
        let c = InteractiveChecker { project, interactor, dictionary, repository, skipped: Vec::new() };
        assert(texts(c.skipped@) =~= Seq::<Seq<char>>::empty());
        assert(c.skipped() =~= Set::<Seq<char>>::empty());
        Ok(c)
    }

    /// The interactor.
    pub closed spec fn interactor_view(&self) -> I {
        self.interactor
    }

    /// The interactor.
    pub fn interactor(&self) -> (r: &I)
        ensures
            *r == self.interactor_view(),
    {
        &self.interactor
    }

    /// The dictionary, for changes.
    pub fn dictionary_mut(&mut self) -> (r: &mut D)
        ensures
            *r == old(self).dictionary_view(),
            final(self).dictionary_view() == *final(r),
            final(self).skipped() == old(self).skipped(),
            final(self).model() == old(self).model(),
            final(self).repository_spec() == old(self).repository_spec(),
            final(self).project_view() == old(self).project_view(),
            final(self).interactor_view() == old(self).interactor_view(),
    {
        &mut self.dictionary
    }

    /// Adds an error to the skipped ones.
    fn skip_error(&mut self, error: &str)
        ensures
            final(self).skipped() == old(self).skipped().insert(error@),
            final(self).project_spec() == old(self).project_spec(),
            final(self).interactor_view() == old(self).interactor_view(),
            final(self).model() == old(self).model(),
            final(self).dictionary_view() == old(self).dictionary_view(),
            final(self).project_view() == old(self).project_view(),
    {
        self.skipped.push(String::from_str(error));
        proof {
            assert(texts(self.skipped@) =~= texts(old(self).skipped@).push(error@));
            crate::text::lemma_push_to_set(texts(old(self).skipped@), error@);
        }
    }

    /// Shows the error, then asks what to do with it until an answer can be
    /// carried out.
    pub fn on_error(&mut self, path: &RelativePath, pos: (usize, usize), error: &str) -> (r: Result<
        (),
        Error,
    >)
        ensures
            final(self).project_spec() == old(self).project_spec(),
            final(self).dictionary_view() == old(self).dictionary_view(),
            final(self).project_view() == old(self).project_view(),
            final(self).skipped() == old(self).skipped() || final(self).skipped() == old(
                self,
            ).skipped().insert(error@),
            r is Err ==> final(self).skipped() == old(self).skipped(),
            r is Ok ==> one_rule_added(
                old(self).model(),
                final(self).model(),
                error@,
                old(self).project_id(),
                path@,
            ),
            r is Ok ==> ignores(final(self).model(), error@, old(self).project_id(), path@) || skips(
                final(self).model(),
                old(self).project_id(),
                path@,
            ) || final(self).skipped().contains(error@),
            r is Ok ==> (final(self).skipped() == old(self).skipped() && exists|a: Answer|
                #[trigger] rule_of(a, old(self).model(), error@, old(self).project_id(), path@) == Some(
                    final(self).model(),
                )) || (final(self).model() == old(self).model() && final(self).skipped() == old(
                self,
            ).skipped().insert(error@)),
    {
        let (lineno, column) = pos;
        self.interactor.info(error_line(path.as_str(), lineno, column, error).as_str());
        let mut attempts: usize = 0;
        while attempts < usize::MAX
            invariant
                self.project_spec() == old(self).project_spec(),
                self.skipped() == old(self).skipped(),
                self.model() == old(self).model(),
                self.dictionary_view() == old(self).dictionary_view(),
                self.project_view() == old(self).project_view(),
            decreases usize::MAX - attempts,
        {
            attempts = attempts + 1;
            let letter = self.interactor.input_letter(PROMPT, CHOICES);
            let answer = answer_of(letter.as_str());
            let ghost given = answer;
            if self.apply_answer(answer, letter, path, error)? {
                proof {
                    if let Some(a) = given {
                        if !(a is SkipError) {
                            assert(rule_of(a, old(self).model(), error@, old(self).project_id(), path@)
                                == Some(self.model()));
                        }
                    }
                }
                return Ok(());
            }
        }
        Err(Error::Interrupted)
    }

    /// Carries out an answer for the error `error` of the file `path`:
    /// `Ok(true)` when it is done, `Ok(false)` when it cannot apply to this
    /// file (no extension, no file name) and the user is to be asked again.
    /// A rule that is added to the repository is the one `rule_of` gives.
    pub fn apply_answer(
        &mut self,
        answer: Option<Answer>,
        letter: String,
        path: &RelativePath,
        error: &str,
    ) -> (r: Result<bool, Error>)
        ensures
            final(self).project_spec() == old(self).project_spec(),
            final(self).dictionary_view() == old(self).dictionary_view(),
            final(self).project_view() == old(self).project_view(),
            final(self).interactor_view() == old(self).interactor_view(),
            match answer {
                None => (r matches Err(Error::UnexpectedAnswer(l)) && l@ == letter@) && final(self).model()
                    == old(self).model() && final(self).skipped() == old(self).skipped(),
                Some(Answer::Quit) => r == Err::<bool, Error>(Error::Interrupted) && final(self).model()
                    == old(self).model() && final(self).skipped() == old(self).skipped(),
                Some(Answer::SkipError) => r == Ok::<bool, Error>(true) && final(self).model() == old(
                    self,
                ).model() && final(self).skipped() == old(self).skipped().insert(error@),
                Some(a) => final(self).skipped() == old(self).skipped() && match rule_of(
                    a,
                    old(self).model(),
                    error@,
                    old(self).project_id(),
                    path@,
                ) {
                    Some(m) => r is Ok ==> r == Ok::<bool, Error>(true) && final(self).model() == m,
                    None => r == Ok::<bool, Error>(false) && final(self).model() == old(self).model(),
                },
            },
    {
        match answer {
            Some(Answer::GlobalIgnore) => {
                self.repository.ignore(error)?;
                self.interactor.info(
                    quoted("Added ", error, " to the global ignore list").as_str(),
                );
                return Ok(true);
            },
            Some(Answer::ExtensionIgnore) => {
                match path.extension() {
                    None => {
                        self.interactor.error(
                            String::from_str(path.as_str()).concat(" has no extension").as_str(),
                        );
                    },
                    Some(extension) => {
                        self.repository.ignore_for_extension(error, extension.as_str())?;
                        let mut m = quoted("Added ", error, " to the ignore list for extension ");
                        m.append(quoted("", extension.as_str(), "").as_str());
                        self.interactor.info(m.as_str());
                        return Ok(true);
                    },
                }
            },
            Some(Answer::ProjectIgnore) => {
                self.repository.ignore_for_project(error, self.project.id())?;
                self.interactor.info(
                    quoted("Added ", error, " to the ignore list for the current project").as_str(),
                );
                return Ok(true);
            },
            Some(Answer::FileIgnore) => {
                self.repository.ignore_for_path(error, self.project.id(), path)?;
                let mut m = quoted("Added ", error, " to the ignore list for path ");
                m.append(quoted("", path.as_str(), "").as_str());
                self.interactor.info(m.as_str());
                return Ok(true);
            },
            Some(Answer::FileNameSkip) => {
                match path.file_name() {
                    None => {
                        self.interactor.error(
                            String::from_str(path.as_str()).concat(" has no file name").as_str(),
                        );
                    },
                    Some(file_name) => {
                        self.repository.skip_file_name(file_name.as_str())?;
                        self.interactor.info(
                            quoted(
                                "Added ",
                                file_name.as_str(),
                                " to the list of file names to skip",
                            ).as_str(),
                        );
                        return Ok(true);
                    },
                }
            },
            Some(Answer::PathSkip) => {
                self.repository.skip_path(self.project.id(), path)?;
                self.interactor.info(
                    quoted(
                        "Added ",
                        path.as_str(),
                        " to the list of files to skip for the current project",
                    ).as_str(),
                );
                return Ok(true);
            },
            Some(Answer::Quit) => {
                return Err(Error::Interrupted);
            },
            Some(Answer::SkipError) => {
                self.skip_error(error);
                return Ok(true);
            },
            None => {
                return Err(Error::UnexpectedAnswer(letter));
            },
        }
        Ok(false)
    }
}

impl<I: Interactor, D: Dictionary, R: Repository> Checker for InteractiveChecker<I, D, R> {
    type Context = (usize, usize);

    type Dict = D;

    type Repo = R;

    /// Skipped files and skipped errors are left alone; the user is asked
    /// about the others.
    fn handle_error(&mut self, error: &str, path: &RelativePath, context: &Self::Context) -> (r:
        Result<(), Error>)
        ensures
            final(self).project_spec() == old(self).project_spec(),
            final(self).skipped() == old(self).skipped() || final(self).skipped() == old(
                self,
            ).skipped().insert(error@),
            r is Err ==> final(self).skipped() == old(self).skipped(),
            old(self).skipped().contains(error@) ==> final(self).skipped() == old(self).skipped(),
            r is Ok && (old(self).skipped().contains(error@) || skips(
                old(self).model(),
                old(self).project_id(),
                path@,
            )) ==> final(self).model() == old(self).model() && final(self).skipped() == old(
                self,
            ).skipped(),
            r is Ok ==> one_rule_added(
                old(self).model(),
                final(self).model(),
                error@,
                old(self).project_id(),
                path@,
            ),
            r is Ok ==> ignores(final(self).model(), error@, old(self).project_id(), path@) || skips(
                final(self).model(),
                old(self).project_id(),
                path@,
            ) || final(self).skipped().contains(error@),
    {
        let (line, column) = *context;
        assert(self.repository_spec() == self.repository && self.project_view() == self.project);
        if self.should_skip(path)? {
            return Ok(());
        }
        if contains_text(&self.skipped, error) {
            return Ok(());
        }
        self.on_error(path, (line, column), error)
    }

    open spec fn succeeded(&self) -> bool {
        self.skipped().is_empty()
    }

    /// An error when some errors were skipped.
    fn success(&self) -> (r: Result<(), Error>)
        ensures
            r is Ok <==> self.skipped().is_empty(),
            r is Err ==> r == Err::<(), Error>(Error::SkippedErrors),
    {
        if self.skipped.len() > 0 {
            proof {
                assert(self.skipped().contains(texts(self.skipped@)[0]));
            }
            Err(Error::SkippedErrors)
        } else {
            proof {
                assert(texts(self.skipped@) =~= Seq::<Seq<char>>::empty());
                assert(self.skipped() =~= Set::<Seq<char>>::empty());
            }
            Ok(())
        }
    }

    open spec fn handled(&self, after: Self, error: Seq<char>, path: Seq<char>, context: (usize, usize)) -> bool {
        &&& after.project_view() == self.project_view()
        &&& after.dictionary_view() == self.dictionary_view()
        &&& one_rule_added(self.model(), after.model(), error, self.project_id(), path)
        &&& (after.skipped() == self.skipped() || after.skipped() == self.skipped().insert(error))
        &&& (ignores(after.model(), error, self.project_id(), path) || skips(
            after.model(),
            self.project_id(),
            path,
        ) || after.skipped().contains(error))
    }

    closed spec fn repository_spec(&self) -> R {
        self.repository
    }

    closed spec fn project_view(&self) -> Project {
        self.project
    }

    closed spec fn dictionary_view(&self) -> D {
        self.dictionary
    }

    fn repository(&self) -> &R {
        &self.repository
    }

    fn dictionary(&self) -> &D {
        assert(self.dictionary_view() == self.dictionary);
        &self.dictionary
    }

    fn project(&self) -> &Project {
        &self.project
    }
}

} // verus!
