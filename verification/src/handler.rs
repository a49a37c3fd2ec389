//! Asks the user where to add a word that is not in the dictionary, for
//! the first form of the repository.
use vstd::prelude::*;

use crate::checker::interactive::error_line;
use crate::error::Error;
use crate::interactor::Interactor;
use crate::project::{extension, extension_of, file_name, path_file_name};
use crate::repo::{AddFor, Repo, RepoView, language_of};
use crate::text::str_eq;

verus! {

/// The question asked for each error.
pub const HANDLER_PROMPT: &'static str = "
        Add to (n)atural language ignore list
        Add to (p)rogramming language ignore list
        Ignore just for this (f)ile
        (q)uit

        What to do?
        ";

/// The letters of the answers.
pub const HANDLER_CHOICES: &'static str = "npfq";

/// What the user can answer.
pub enum Choice {
    /// The ignore list of natural language words.
    NaturalLanguage,
    /// The ignore list of the programming language of the file.
    ProgrammingLanguage,
    /// The ignore list of the file.
    File,
    /// Stop.
    Quit,
}

/// The choice a letter stands for.
pub open spec fn choice_spec(letter: Seq<char>) -> Option<Choice> {
    if letter == "n"@ {
        Some(Choice::NaturalLanguage)
    } else if letter == "p"@ {
        Some(Choice::ProgrammingLanguage)
    } else if letter == "f"@ {
        Some(Choice::File)
    } else if letter == "q"@ {
        Some(Choice::Quit)
    } else {
        None
    }
}

/// The choice a letter stands for.
pub fn choice_of(letter: &str) -> (r: Option<Choice>)
    ensures
        r == choice_spec(letter@),
{
    if str_eq(letter, "n") {
        Some(Choice::NaturalLanguage)
    } else if str_eq(letter, "p") {
        Some(Choice::ProgrammingLanguage)
    } else if str_eq(letter, "f") {
        Some(Choice::File)
    } else if str_eq(letter, "q") {
        Some(Choice::Quit)
    } else {
        None
    }
}

/// The extension of the file name of a path, as std's `Path::extension`
/// gives it.
pub open spec fn path_extension(path: Seq<char>) -> Option<Seq<char>> {
    match path_file_name(path) {
        Some(f) => extension_of(f),
        None => None,
    }
}

/// Asks the user where to add the words that are not in the dictionary.
pub struct Handler<'repo, R: Repo, I: Interactor> {
    repo: &'repo mut R,
    interactor: I,
}

impl<'repo, R: Repo, I: Interactor> Handler<'repo, R, I> {
    /// The content of the repository the handler adds to.
    pub closed spec fn repo_contents(&self) -> RepoView {
        self.repo.contents()
    }

    /// The languages set for extensions in the repository.
    pub closed spec fn repo_languages(&self) -> Map<Seq<char>, i32> {
        self.repo.languages()
    }

    /// A handler that adds words to `repo` and asks `interactor`.
    pub fn new(repo: &'repo mut R, interactor: I) -> (r: Self)
        ensures
            r.repo_contents() == old(repo).contents(),
    {
        Handler { repo, interactor }
    }

    /// The extension of the path; tells the user when there is none.
    pub fn get_ext(&self, path: &str) -> (r: Option<String>)
        ensures
            match path_extension(path@) {
                Some(e) => r matches Some(s) && s@ == e,
                None => r is None,
            },
    {
        let res = match file_name(path) {
            Some(f) => extension(f.as_str()),
            None => None,
        };
        if res.is_none() {
            self.interactor.error("path has no extension");
        }
        res
    }

    /// The programming language of the extension of the path: `None` when
    /// there is no extension, or when the extension is new and the user
    /// does not add it.
    pub fn get_language_from_path(&self, path: &str) -> (r: Result<Option<i32>, Error>)
        ensures
            path_extension(path@) is None ==> r == Ok::<Option<i32>, Error>(None),
            r matches Ok(Some(i)) ==> (path_extension(path@) matches Some(e) && language_of(
                self.repo_languages(),
                e,
            ) == Some(i)),
            r is Ok ==> match path_extension(path@) {
                Some(e) => language_of(self.repo_languages(), e) is Some ==> r == Ok::<
                    Option<i32>,
                    Error,
                >(language_of(self.repo_languages(), e)),
                None => true,
            },
    {
        let ext = self.get_ext(path);
        match ext {
            None => Ok(None),
            Some(e) => match self.repo.lookup_extension(e.as_str())? {
                None => self.handle_new_extension(e.as_str()),
                Some(r) => Ok(Some(r)),
            },
        }
    }

    /// Asks whether to add a new extension; choosing its language is not
    /// supported yet.
    pub fn handle_new_extension(&self, ext: &str) -> (r: Result<Option<i32>, Error>)
        ensures
            r is Ok ==> r == Ok::<Option<i32>, Error>(None),
            r is Err ==> r matches Err(Error::NotImplemented(_)),
    {
        let mut question = String::from_str("Add extension ");
        question.append(ext);
        question.append(" to the db (y/n)?");
        let should_add = self.interactor.confirm(question.as_str());
        if should_add {
            return Err(Error::NotImplemented(String::from_str("choosing the language of an extension")));
        }
        Ok(None)
    }

    /// Shows the error, asks where to add the word, and adds it.
    ///
    /// Whatever the answer, the global list gains at most the word: it
    /// gains it on `n`, and keeps its content on the other answers.
    pub fn handle(&mut self, path: &str, pos: (usize, usize), error: &str) -> (r: Result<(), Error>)
        ensures
            r is Ok ==> final(self).repo_contents().ignored == old(self).repo_contents().ignored.insert(
                error@,
            ) || final(self).repo_contents().ignored == old(self).repo_contents().ignored,
    {
        let (line, column) = pos;
        self.interactor.info(error_line(path, line, column, error).as_str());
        let answer = self.interactor.input_letter(HANDLER_PROMPT, HANDLER_CHOICES);
        let choice = choice_of(answer.as_str());
        let language = match choice {
            Some(Choice::ProgrammingLanguage) => self.get_language_from_path(path)?,
            _ => None,
        };
        let add_for = add_for_choice(choice, answer, language)?;
        self.repo.add_word(error, &add_for)
    }
}

/// Where the word goes for a choice: `answer` is the letter the user gave,
/// `language` the language of the file, which only `p` needs.
pub fn add_for_choice(choice: Option<Choice>, answer: String, language: Option<i32>) -> (r: Result<
    AddFor,
    Error,
>)
    ensures
        match choice {
            Some(Choice::NaturalLanguage) => r == Ok::<AddFor, Error>(AddFor::NaturalLanguage),
            Some(Choice::ProgrammingLanguage) => match language {
                Some(i) => r == Ok::<AddFor, Error>(AddFor::ProgrammingLanguage(i)),
                None => r matches Err(Error::NotImplemented(_)),
            },
            Some(Choice::File) => r == Ok::<AddFor, Error>(AddFor::File(2)),
            Some(Choice::Quit) => r == Err::<AddFor, Error>(Error::Interrupted),
            None => r matches Err(Error::UnexpectedAnswer(s)) && s@ == answer@,
        },
{
    match choice {
        Some(Choice::NaturalLanguage) => Ok(AddFor::NaturalLanguage),
        Some(Choice::ProgrammingLanguage) => match language {
            Some(i) => Ok(AddFor::ProgrammingLanguage(i)),
            None => Err(Error::NotImplemented(String::from_str("a file without a known language"))),
        },
        Some(Choice::File) => Ok(AddFor::File(2)),
        Some(Choice::Quit) => Err(Error::Interrupted),
        None => Err(Error::UnexpectedAnswer(answer)),
    }
}

} // verus!
