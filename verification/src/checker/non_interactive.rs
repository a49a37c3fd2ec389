//! The checker that reports each error and fails when there is one.
use vstd::prelude::*;

use crate::checker::Checker;
use crate::checker::interactive::error_line;
use crate::dictionary::{Dictionary, texts};
use crate::error::Error;
use crate::project::{Project, ProjectPath, RelativePath};
use crate::repository::Repository;
use crate::text::decimal;

verus! {

/// The line that reports an error: `path:line:column error`.
pub open spec fn report_line(path: Seq<char>, line: nat, column: nat, error: Seq<char>) -> Seq<char> {
    path + ":"@ + decimal(line) + ":"@ + decimal(column) + " "@ + error
}

/// The checker that reports each error.
pub struct NonInteractiveChecker<D: Dictionary, R: Repository> {
    project: Project,
    dictionary: D,
    repository: R,
    errors_found: bool,
    report: Vec<String>,
}

impl<D: Dictionary, R: Repository> NonInteractiveChecker<D, R> {
    /// The lines that report the errors found so far, in order.
    pub closed spec fn report_spec(&self) -> Seq<Seq<char>> {
        texts(self.report@)
    }

    /// Whether an error was found.
    pub closed spec fn errors_found(&self) -> bool {
        self.errors_found
    }

    /// The project being checked.
    pub open spec fn project_spec(&self) -> &Project {
        &self.project_view()
    }

    /// A checker of the project, which is created in the repository when it
    /// does not exist yet.
    pub fn new(project_path: ProjectPath, dictionary: D, repository: R) -> (r: Result<Self, Error>)
        ensures
            r matches Ok(c) ==> !c.errors_found() && c.report_spec() == Seq::<Seq<char>>::empty()
                && c.project_spec().path()@ == project_path@,
    {
        let mut repository = repository;
        let project = repository.ensure_project(&project_path)?;
        let c = NonInteractiveChecker {
            project,
            dictionary,
            repository,
            errors_found: false,
            report: Vec::new(),
        };
        assert(c.report_spec() =~= Seq::<Seq<char>>::empty());
        Ok(c)
    }

    /// The lines that report the errors found so far.
    pub fn report(&self) -> (r: &Vec<String>)
        ensures
            texts(r@) == self.report_spec(),
    {
        &self.report
    }
}

impl<D: Dictionary, R: Repository> Checker for NonInteractiveChecker<D, R> {
    type Context = (usize, usize);

    type Dict = D;

    type Repo = R;

    /// Reports the error.
    fn handle_error(&mut self, token: &str, path: &RelativePath, context: &Self::Context) -> (r: Result<
        (),
        Error,
    >)
        ensures
            r is Ok,
            final(self).errors_found(),
            final(self).report_spec() == old(self).report_spec().push(
                report_line(path@, context.0 as nat, context.1 as nat, token@),
            ),
            final(self).project_spec() == old(self).project_spec(),
    {
        let (line, column) = *context;
        self.errors_found = true;
        self.report.push(error_line(path.as_str(), line, column, token));
        proof {
            assert(self.report_spec() =~= old(self).report_spec().push(
                report_line(path@, context.0 as nat, context.1 as nat, token@),
            ));
        }
        Ok(())
    }

    open spec fn succeeded(&self) -> bool {
        !self.errors_found()
    }

    /// An error when an error was found.
    fn success(&self) -> (r: Result<(), Error>)
        ensures
            self.errors_found() ==> r == Err::<(), Error>(Error::SpellingErrors),
            !self.errors_found() ==> r is Ok,
    {
        if self.errors_found {
            Err(Error::SpellingErrors)
        } else {
            Ok(())
        }
    }

    open spec fn handled(&self, after: Self, error: Seq<char>, path: Seq<char>, context: (usize, usize)) -> bool {
        &&& after.errors_found()
        &&& after.report_spec() == self.report_spec().push(
            report_line(path, context.0 as nat, context.1 as nat, error),
        )
        &&& after.repository_spec() == self.repository_spec()
        &&& after.dictionary_view() == self.dictionary_view()
        &&& after.project_view() == self.project_view()
    }

    closed spec fn repository_spec(&self) -> R {
        self.repository
    }

    closed spec fn project_view(&self) -> Project {
        self.project
    }

    closed spec fn dictionary_view(&self) -> D {
        self.dictionary
    }

    fn repository(&self) -> &R {
        &self.repository
    }

    fn dictionary(&self) -> &D {
        assert(self.dictionary_view() == self.dictionary);
        &self.dictionary
    }

    fn project(&self) -> &Project {
        &self.project
    }
}

} // verus!
