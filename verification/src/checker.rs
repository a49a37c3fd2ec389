//! What every checker does with the words of a file.
use vstd::prelude::*;

use crate::dictionary::Dictionary;
use crate::error::Error;
use crate::project::{Project, RelativePath};
use crate::repository::{Repository, ignores, skips};

pub mod interactive;
pub mod non_interactive;

verus! {

/// What a checker does when a word is neither in the dictionary nor ignored.
pub enum TokenOutcome {
    /// The dictionary knows the word.
    Known,
    /// An ignore rule covers the word.
    Ignored,
    /// The word is a spelling error.
    Error,
}

/// The outcome for a word, given what the dictionary and the repository
/// answered; the repository is only asked when the dictionary does not
/// know the word.
pub fn token_outcome(in_dictionary: bool, ignored: bool) -> (r: TokenOutcome)
    ensures
        in_dictionary ==> r is Known,
        !in_dictionary && ignored ==> r is Ignored,
        !in_dictionary && !ignored ==> r is Error,
{
    if in_dictionary {
        TokenOutcome::Known
    } else if ignored {
        TokenOutcome::Ignored
    } else {
        TokenOutcome::Error
    }
}

/// What handling the word `word` of the file `path`, found at `context`,
/// may turn the checker `a` into: nothing changes when the dictionary knows
/// the word or an ignore rule covers it; else the word is handled as an
/// error.
pub open spec fn token_step<C: Checker<Context = (usize, usize)>>(
    a: C,
    b: C,
    word: Seq<char>,
    path: Seq<char>,
    context: (usize, usize),
) -> bool {
    if !a.dictionary_view().knows(word) && !ignores(
        a.repository_spec().model(),
        word,
        a.project_view().id() as int,
        path,
    ) {
        a.handled(b, word, path, context)
    } else {
        b == a
    }
}

/// The states `states` are those a checker goes through when it handles
/// the tokens `toks` (word, line, column) of the file `path` in order.
pub open spec fn token_run<C: Checker<Context = (usize, usize)>>(
    states: Seq<C>,
    path: Seq<char>,
    toks: Seq<(Seq<char>, int, int)>,
) -> bool {
    &&& states.len() == toks.len() + 1
    &&& forall|i: int|
        0 <= i < toks.len() ==> #[trigger] token_step(
            states[i],
            states[i + 1],
            toks[i].0,
            path,
            (toks[i].1 as usize, toks[i].2 as usize),
        )
}

/// What handling the tokens `toks` of the file `path` in order may turn the
/// checker `a` into.
pub open spec fn tokens_handled<C: Checker<Context = (usize, usize)>>(
    a: C,
    b: C,
    path: Seq<char>,
    toks: Seq<(Seq<char>, int, int)>,
) -> bool {
    exists|states: Seq<C>| #[trigger] token_run(states, path, toks) && states[0] == a && states.last() == b
}

/// Checks the words of the files of a project.
pub trait Checker: Sized {
    /// Where an error was found (line and column, with a buffer name for
    /// editors).
    type Context;

    /// The dictionary.
    type Dict: Dictionary;

    /// The repository.
    type Repo: Repository;

    /// What handling the spelling error `error` of the file `path`, found
    /// at `context`, may turn the checker into.
    spec fn handled(&self, after: Self, error: Seq<char>, path: Seq<char>, context: Self::Context) -> bool;

    /// Handles a spelling error.
    fn handle_error(&mut self, error: &str, path: &RelativePath, context: &Self::Context) -> (r: Result<
        (),
        Error,
    >)
        ensures
            r is Ok ==> old(self).handled(*final(self), error@, path@, *context),
    ;

    /// Whether the errors met so far leave the check successful.
    spec fn succeeded(&self) -> bool;

    /// Whether all errors were handled.
    fn success(&self) -> (r: Result<(), Error>)
        ensures
            r is Ok <==> self.succeeded(),
    ;

    /// The repository.
    fn repository(&self) -> (r: &Self::Repo)
        ensures
            *r == self.repository_spec(),
    ;

    /// The dictionary.
    fn dictionary(&self) -> (r: &Self::Dict)
        ensures
            *r == self.dictionary_view(),
    ;

    /// The project.
    fn project(&self) -> (r: &Project)
        ensures
            *r == self.project_view(),
    ;

    /// The repository.
    spec fn repository_spec(&self) -> Self::Repo;

    /// The project.
    spec fn project_view(&self) -> Project;

    /// The dictionary.
    spec fn dictionary_view(&self) -> Self::Dict;

    /// Whether the file is skipped.
    fn should_skip(&self, path: &RelativePath) -> (r: Result<bool, Error>)
        ensures
            r matches Ok(b) ==> b == skips(
                self.repository_spec().model(),
                self.project_view().id() as int,
                path@,
            ),
    {
        let project_id = self.project().id();
        self.repository().should_skip(project_id, path)
    }

    /// Checks a word: nothing happens when the dictionary knows it or when
    /// an ignore rule covers it; else it is handled as an error.
    fn handle_token(&mut self, token: &str, relative_path: &RelativePath, context: &Self::Context) -> (r:
        Result<(), Error>)
        ensures
            r is Ok ==> if !old(self).dictionary_view().knows(token@) && !ignores(
                old(self).repository_spec().model(),
                token@,
                old(self).project_view().id() as int,
                relative_path@,
            ) {
                old(self).handled(*final(self), token@, relative_path@, *context)
            } else {
                *final(self) == *old(self)
            },
    {
        let in_dict = self.dictionary().check(token)?;
        if in_dict {
            return Ok(());
        }
        let project_id = self.project().id();
        let ignored = self.repository().should_ignore(token, project_id, relative_path)?;
        match token_outcome(in_dict, ignored) {
            TokenOutcome::Error => self.handle_error(token, relative_path, context),
            _ => Ok(()),
        }
    }
}

} // verus!
