//! Where ignore rules are kept: the `Repository` trait, and an in-memory
//! repository whose behaviour is stated over a model of sets.
use vstd::prelude::*;

use crate::error::Error;
use crate::project::{Project, ProjectId, ProjectPath, RelativePath, path_file_name, extension_of};
use crate::table::{Row, Table};
use crate::search::{lowercase, to_lowercase};
use crate::text::{empty_str, lemma_push_to_set};

verus! {

/// A project as listed by a repository: its identifier and its path as text.
pub struct ProjectInfo {
    id: ProjectId,
    path: String,
}

impl ProjectInfo {
    /// A project entry.
    pub fn new(id: ProjectId, path: &str) -> (r: Self)
        ensures
            r.id() == id,
            r.path_view() == path@,
    {
        ProjectInfo { id, path: String::from_str(path) }
    }

    /// The identifier.
    pub closed spec fn id_spec(&self) -> ProjectId {
        self.id
    }

    /// The identifier.
    #[verifier::when_used_as_spec(id_spec)]
    pub fn id(&self) -> (r: ProjectId)
        ensures
            r == self.id_spec(),
    {
        self.id
    }

    /// The path.
    pub closed spec fn path_view(&self) -> Seq<char> {
        self.path@
    }

    /// The path.
    pub fn path(&self) -> (r: &str)
        ensures
            r@ == self.path_view(),
    {
        self.path.as_str()
    }
}

/// A store of ignore rules and skip rules.
///
/// Each method is stated over `model`, the content of the repository as
/// sets: a change that succeeds changes the model as said, and a read that
/// succeeds answers from the model.
pub trait Repository {
    /// The content of the repository.
    spec fn model(&self) -> RepositoryModel;

    /// Adds the words to the global ignore list.
    fn insert_ignored_words(&mut self, words: &Vec<String>) -> (r: Result<(), Error>)
        ensures
            r is Ok ==> final(self).model() == (RepositoryModel {
                ignored: old(self).model().ignored.union(lowercased(words@).to_set()),
                ..old(self).model()
            }),
    ;

    /// Adds the word to the global ignore list.
    fn ignore(&mut self, word: &str) -> (r: Result<(), Error>)
        ensures
            r is Ok ==> final(self).model() == (RepositoryModel {
                ignored: old(self).model().ignored.insert(lowercase(word@)),
                ..old(self).model()
            }),
    ;

    /// Whether the word is in the global ignore list.
    fn is_ignored(&self, word: &str) -> (r: Result<bool, Error>)
        ensures
            r matches Ok(b) ==> b == self.model().ignored.contains(lowercase(word@)),
    ;

    /// Adds a project.
    fn new_project(&mut self, project_path: &ProjectPath) -> (r: Result<ProjectId, Error>)
        ensures
            r matches Ok(id) ==> project_id_of(old(self).model(), project_path@) is None
                && final(self).model() == (RepositoryModel {
                projects: old(self).model().projects.insert((id as int, project_path@)),
                ..old(self).model()
            }),
    ;

    /// Whether a project with this path exists.
    fn project_exists(&self, project_path: &ProjectPath) -> (r: Result<bool, Error>)
        ensures
            r matches Ok(b) ==> b == (project_id_of(self.model(), project_path@) is Some),
    ;

    /// Removes a project.
    fn remove_project(&mut self, project_id: ProjectId) -> (r: Result<(), Error>)
        ensures
            r is Ok ==> final(self).model() == (RepositoryModel {
                projects: old(self).model().projects.filter(
                    |x: (int, Seq<char>)| x.0 != project_id as int,
                ),
                ..old(self).model()
            }),
    ;

    /// The identifier of the project with this path.
    fn get_project_id(&self, project_path: &ProjectPath) -> (r: Result<ProjectId, Error>)
        ensures
            r matches Ok(id) ==> self.model().projects.contains((id as int, project_path@)),
            r is Err ==> project_id_of(self.model(), project_path@) is None,
    ;

    /// Every project.
    fn projects(&self) -> (r: Result<Vec<ProjectInfo>, Error>)
        ensures
            r matches Ok(v) ==> forall|x: (int, Seq<char>)|
                #[trigger] self.model().projects.contains(x) <==> listed(v@, x),
    ;

    /// Removes the projects whose path no longer exists: each entry pairs a
    /// project with whether its path exists. Gives back the paths of the
    /// removed projects, in order.
    fn clean(&mut self, projects: &Vec<(ProjectInfo, bool)>) -> (r: Result<Vec<String>, Error>)
        ensures
            r matches Ok(removed) ==> string_views(removed@) == gone_paths(projects@)
                && final(self).model() == (RepositoryModel {
                projects: old(self).model().projects.filter(
                    |x: (int, Seq<char>)| !gone_ids(projects@).contains(x.0),
                ),
                ..old(self).model()
            }),
            (forall|i: int| 0 <= i < projects@.len() ==> #[trigger] projects@[i].1) ==> (r matches Ok(
                removed,
            ) && removed@.len() == 0 && final(self).model() == old(self).model()),
    {
        let ghost m0 = self.model();
        let ghost s = projects@;
        let ghost all_exist = forall|i: int| 0 <= i < s.len() ==> #[trigger] s[i].1;
        let mut removed: Vec<String> = Vec::new();
        let mut i: usize = 0;
        assert(s.take(0) =~= Seq::<(ProjectInfo, bool)>::empty());
        assert(m0.projects.filter(|x: (int, Seq<char>)| !gone_ids(s.take(0)).contains(x.0)) =~= m0.projects);
        assert(string_views(removed@) =~= gone_paths(s.take(0)));
        while i < projects.len()
            invariant
                s == projects@,
                i <= s.len(),
                all_exist == forall|k: int| 0 <= k < s.len() ==> #[trigger] s[k].1,
                all_exist ==> removed@.len() == 0 && self.model() == m0,
                string_views(removed@) == gone_paths(s.take(i as int)),
                self.model() == (RepositoryModel {
                    projects: m0.projects.filter(
                        |x: (int, Seq<char>)| !gone_ids(s.take(i as int)).contains(x.0),
                    ),
                    ..m0
                }),
            decreases s.len() - i,
        {
            let ghost before = self.model();
            assert(s.take(i + 1).drop_last() =~= s.take(i as int));
            assert(s.take(i + 1).last() == s[i as int]);
            let (project, exists) = &projects[i];
            assert(*exists == s[i as int].1);
            if !*exists {
                self.remove_project(project.id())?;
                let ghost prev = removed@;
                removed.push(String::from_str(project.path()));
                assert(string_views(removed@) =~= string_views(prev).push(project.path_view()));
            }
            assert(self.model().projects =~= m0.projects.filter(
                |x: (int, Seq<char>)| !gone_ids(s.take(i + 1)).contains(x.0),
            ));
            i = i + 1;
        }
        assert(s.take(s.len() as int) =~= s);
        Ok(removed)
    }

    /// Always skip files with this name (`Cargo.lock`, `yarn.lock`, ...).
    fn skip_file_name(&mut self, file_name: &str) -> (r: Result<(), Error>)
        ensures
            r is Ok ==> final(self).model() == (RepositoryModel {
                skipped_file_names: old(self).model().skipped_file_names.insert(file_name@),
                ..old(self).model()
            }),
    ;

    /// Whether files with this name are skipped.
    fn is_skipped_file_name(&self, file_name: &str) -> (r: Result<bool, Error>)
        ensures
            r matches Ok(b) ==> b == self.model().skipped_file_names.contains(file_name@),
    ;

    /// Adds the word to the ignore list of the extension.
    fn ignore_for_extension(&mut self, word: &str, extension: &str) -> (r: Result<(), Error>)
        ensures
            r is Ok ==> final(self).model() == (RepositoryModel {
                ignored_for_extension: old(self).model().ignored_for_extension.insert(
                    (extension@, lowercase(word@)),
                ),
                extensions: old(self).model().extensions.insert(extension@),
                ..old(self).model()
            }),
    ;

    /// Whether the word is in the ignore list of the extension.
    fn is_ignored_for_extension(&self, word: &str, extension: &str) -> (r: Result<bool, Error>)
        ensures
            r matches Ok(b) ==> b == self.model().ignored_for_extension.contains((extension@, lowercase(word@))),
    ;

    /// Adds the word to the ignore list of the project.
    fn ignore_for_project(&mut self, word: &str, project_id: ProjectId) -> (r: Result<(), Error>)
        ensures
            r is Ok ==> final(self).model() == (RepositoryModel {
                ignored_for_project: old(self).model().ignored_for_project.insert(
                    (project_id as int, lowercase(word@)),
                ),
                project_lists: old(self).model().project_lists.insert(project_id as int),
                ..old(self).model()
            }),
    ;

    /// Whether the word is in the ignore list of the project.
    fn is_ignored_for_project(&self, word: &str, project_id: ProjectId) -> (r: Result<bool, Error>)
        ensures
            r matches Ok(b) ==> b == self.model().ignored_for_project.contains(
                (project_id as int, lowercase(word@)),
            ),
    ;

    /// Adds the word to the ignore list of a path of a project.
    fn ignore_for_path(&mut self, word: &str, project_id: ProjectId, relative_path: &RelativePath) -> (r:
        Result<(), Error>)
        ensures
            r is Ok ==> final(self).model() == (RepositoryModel {
                ignored_for_path: old(self).model().ignored_for_path.insert(
                    (project_id as int, relative_path@, lowercase(word@)),
                ),
                path_lists: old(self).model().path_lists.insert((project_id as int, relative_path@)),
                ..old(self).model()
            }),
    ;

    /// Whether the word is in the ignore list of a path of a project.
    fn is_ignored_for_path(&self, word: &str, project_id: ProjectId, relative_path: &RelativePath) -> (r:
        Result<bool, Error>)
        ensures
            r matches Ok(b) ==> b == self.model().ignored_for_path.contains(
                (project_id as int, relative_path@, lowercase(word@)),
            ),
    ;

    /// Removes the word from the global ignore list.
    fn remove_ignored(&mut self, word: &str) -> (r: Result<(), Error>)
        ensures
            r is Ok ==> old(self).model().ignored.contains(lowercase(word@)),
            r is Ok ==> final(self).model() == (RepositoryModel {
                ignored: old(self).model().ignored.remove(lowercase(word@)),
                ..old(self).model()
            }),
    ;

    /// Removes the word from the ignore list of the extension.
    fn remove_ignored_for_extension(&mut self, word: &str, extension: &str) -> (r: Result<(), Error>)
        ensures
            r is Ok ==> old(self).model().ignored_for_extension.contains((extension@, lowercase(word@))),
            r is Ok ==> final(self).model() == (RepositoryModel {
                ignored_for_extension: old(self).model().ignored_for_extension.remove(
                    (extension@, lowercase(word@)),
                ),
                ..old(self).model()
            }),
    ;

    /// Removes the word from the ignore list of a path of a project.
    fn remove_ignored_for_path(
        &mut self,
        word: &str,
        project_id: ProjectId,
        relative_path: &RelativePath,
    ) -> (r: Result<(), Error>)
        ensures
            r is Ok ==> old(self).model().ignored_for_path.contains(
                (project_id as int, relative_path@, lowercase(word@)),
            ),
            r is Ok ==> final(self).model() == (RepositoryModel {
                ignored_for_path: old(self).model().ignored_for_path.remove(
                    (project_id as int, relative_path@, lowercase(word@)),
                ),
                ..old(self).model()
            }),
    ;

    /// Removes the word from the ignore list of the project.
    fn remove_ignored_for_project(&mut self, word: &str, project_id: ProjectId) -> (r: Result<
        (),
        Error,
    >)
        ensures
            r is Ok ==> final(self).model() == (RepositoryModel {
                ignored_for_project: old(self).model().ignored_for_project.remove(
                    (project_id as int, lowercase(word@)),
                ),
                ..old(self).model()
            }),
    ;

    /// Always skip this path of the project.
    fn skip_path(&mut self, project_id: ProjectId, relative_path: &RelativePath) -> (r: Result<
        (),
        Error,
    >)
        ensures
            r is Ok ==> final(self).model() == (RepositoryModel {
                skipped_paths: old(self).model().skipped_paths.insert(
                    (project_id as int, relative_path@),
                ),
                ..old(self).model()
            }),
    ;

    /// Whether this path of the project is skipped.
    fn is_skipped_path(&self, project_id: ProjectId, relative_path: &RelativePath) -> (r: Result<
        bool,
        Error,
    >)
        ensures
            r matches Ok(b) ==> b == self.model().skipped_paths.contains(
                (project_id as int, relative_path@),
            ),
    ;

    /// Removes the file name from the skip list.
    fn unskip_file_name(&mut self, file_name: &str) -> (r: Result<(), Error>)
        ensures
            r is Ok ==> old(self).model().skipped_file_names.contains(file_name@),
            r is Ok ==> final(self).model() == (RepositoryModel {
                skipped_file_names: old(self).model().skipped_file_names.remove(file_name@),
                ..old(self).model()
            }),
    ;

    /// Removes the path of the project from the skip list.
    fn unskip_path(&mut self, project_id: ProjectId, relative_path: &RelativePath) -> (r: Result<
        (),
        Error,
    >)
        ensures
            r is Ok ==> old(self).model().skipped_paths.contains((project_id as int, relative_path@)),
            r is Ok ==> final(self).model() == (RepositoryModel {
                skipped_paths: old(self).model().skipped_paths.remove(
                    (project_id as int, relative_path@),
                ),
                ..old(self).model()
            }),
    ;

    /// The project with this path, created when it does not exist yet.
    fn ensure_project(&mut self, project_path: &ProjectPath) -> (r: Result<Project, Error>)
        ensures
            r matches Ok(p) ==> p.path()@ == project_path@ && final(self).model().projects.contains(
                (p.id() as int, project_path@),
            ) && old(self).model().projects.subset_of(final(self).model().projects)
                && same_lists(old(self).model(), final(self).model()),
            r is Ok && project_id_of(old(self).model(), project_path@) is Some ==> final(self).model()
                == old(self).model(),
            (r is Ok && project_id_of(old(self).model(), project_path@) is None)
                ==> final(self).model() == (RepositoryModel {
                projects: old(self).model().projects.insert((r->Ok_0.id() as int, project_path@)),
                ..old(self).model()
            }),
    {
        let ghost m0 = self.model();
        let ghost created: Option<int> = None;
        if !self.project_exists(project_path)? {
            let new_id = self.new_project(project_path)?;
            proof {
                created = Some(new_id as int);
            }
        }
        let id = self.get_project_id(project_path)?;
        proof {
            if let Some(c) = created {
                assert(m0.projects.insert((c, project_path@)).contains((id as int, project_path@)));
                if id as int != c {
                    assert(m0.projects.contains((id as int, project_path@)));
                }
            }
        }
        Ok(Project::new(id, project_path.clone()))
    }

    /// Whether a file of the project is skipped: its file name is skipped,
    /// or its path in this project is.
    fn should_skip(&self, project_id: ProjectId, relative_path: &RelativePath) -> (r: Result<
        bool,
        Error,
    >)
        ensures
            r matches Ok(b) ==> b == skips(self.model(), project_id as int, relative_path@),
    {
        if let Some(f) = relative_path.file_name() {
            if self.is_skipped_file_name(f.as_str())? {
                return Ok(true);
            }
        }
        self.is_skipped_path(project_id, relative_path)
    }

    /// Whether a word that is not in the dictionary is ignored: it is in the
    /// global ignore list, or in the list of the extension of the path, or
    /// in the list of the project, or in the list of the path.
    fn should_ignore(&self, word: &str, project_id: ProjectId, relative_path: &RelativePath) -> (r:
        Result<bool, Error>)
        ensures
            r matches Ok(b) ==> b == ignores(self.model(), word@, project_id as int, relative_path@),
    {
        if self.is_ignored(word)? {
            return Ok(true);
        }
        if let Some(e) = relative_path.extension() {
            if self.is_ignored_for_extension(word, e.as_str())? {
                return Ok(true);
            }
        }
        if self.is_ignored_for_project(word, project_id)? {
            return Ok(true);
        }
        self.is_ignored_for_path(word, project_id, relative_path)
    }
}

/// The two contents have the same ignore lists and skip lists.
pub open spec fn same_lists(a: RepositoryModel, b: RepositoryModel) -> bool {
    a == RepositoryModel { projects: a.projects, ..b }
}

/// The content of a repository, as sets of values.
pub struct RepositoryModel {
    /// The global ignore list.
    pub ignored: Set<Seq<char>>,
    /// Pairs (extension, word) of the ignore lists of extensions.
    pub ignored_for_extension: Set<(Seq<char>, Seq<char>)>,
    /// Extensions that have an ignore list.
    pub extensions: Set<Seq<char>>,
    /// Pairs (project, word) of the ignore lists of projects.
    pub ignored_for_project: Set<(int, Seq<char>)>,
    /// Projects that have an ignore list.
    pub project_lists: Set<int>,
    /// Triples (project, path, word) of the ignore lists of paths.
    pub ignored_for_path: Set<(int, Seq<char>, Seq<char>)>,
    /// Pairs (project, path) that have an ignore list.
    pub path_lists: Set<(int, Seq<char>)>,
    /// Pairs (identifier, path) of the projects.
    pub projects: Set<(int, Seq<char>)>,
    /// File names that are skipped.
    pub skipped_file_names: Set<Seq<char>>,
    /// Pairs (project, path) that are skipped.
    pub skipped_paths: Set<(int, Seq<char>)>,
}

/// The identifier of the project with this path, if there is one.
pub open spec fn project_id_of(m: RepositoryModel, path: Seq<char>) -> Option<int> {
    if exists|id: int| #[trigger] m.projects.contains((id, path)) {
        Some(choose|id: int| #[trigger] m.projects.contains((id, path)))
    } else {
        None
    }
}

/// Whether a file is skipped.
pub open spec fn skips(m: RepositoryModel, project_id: int, path: Seq<char>) -> bool {
    (path_file_name(path) matches Some(f) && m.skipped_file_names.contains(f))
        || m.skipped_paths.contains((project_id, path))
}

/// Whether a word that the dictionary does not know is ignored.
pub open spec fn ignores(m: RepositoryModel, word: Seq<char>, project_id: int, path: Seq<char>) -> bool {
    ||| m.ignored.contains(lowercase(word))
    ||| (path_file_name(path) matches Some(f) && extension_of(f) matches Some(e)
        && m.ignored_for_extension.contains((e, lowercase(word))))
    ||| m.ignored_for_project.contains((project_id, lowercase(word)))
    ||| m.ignored_for_path.contains((project_id, path, lowercase(word)))
}

/// The texts of a set of rows.
pub open spec fn words_of(t: Set<Row>) -> Set<Seq<char>> {
    Set::new(|w: Seq<char>| t.contains((0, Seq::empty(), w)))
}

/// The (key, word) pairs of a set of rows.
pub open spec fn keyed_words_of(t: Set<Row>) -> Set<(Seq<char>, Seq<char>)> {
    Set::new(|x: (Seq<char>, Seq<char>)| t.contains((0, x.0, x.1)))
}

/// The keys of a set of rows.
pub open spec fn keys_of(t: Set<Row>) -> Set<Seq<char>> {
    Set::new(|k: Seq<char>| t.contains((0, k, Seq::empty())))
}

/// The (project, word) pairs of a set of rows.
pub open spec fn project_words_of(t: Set<Row>) -> Set<(int, Seq<char>)> {
    Set::new(|x: (int, Seq<char>)| t.contains((x.0, Seq::empty(), x.1)))
}

/// The projects of a set of rows.
pub open spec fn projects_of(t: Set<Row>) -> Set<int> {
    Set::new(|p: int| t.contains((p, Seq::empty(), Seq::empty())))
}

/// The (project, key) pairs of a set of rows.
pub open spec fn project_keys_of(t: Set<Row>) -> Set<(int, Seq<char>)> {
    Set::new(|x: (int, Seq<char>)| t.contains((x.0, x.1, Seq::empty())))
}

/// An in-memory repository.
pub struct FakeRepository {
    global: Table,
    by_extension: Table,
    extensions: Table,
    by_project: Table,
    project_lists: Table,
    by_path: Table,
    path_lists: Table,
    projects: Table,
    skipped_file_names: Table,
    skipped_paths: Table,
}

impl FakeRepository {
    /// The content of the repository.
    pub closed spec fn contents(&self) -> RepositoryModel {
        RepositoryModel {
            ignored: words_of(self.global@),
            ignored_for_extension: keyed_words_of(self.by_extension@),
            extensions: keys_of(self.extensions@),
            ignored_for_project: project_words_of(self.by_project@),
            project_lists: projects_of(self.project_lists@),
            ignored_for_path: Set::new(
                |x: (int, Seq<char>, Seq<char>)| self.by_path@.contains(x),
            ),
            path_lists: project_keys_of(self.path_lists@),
            projects: project_keys_of(self.projects@),
            skipped_file_names: words_of(self.skipped_file_names@),
            skipped_paths: project_keys_of(self.skipped_paths@),
        }
    }

    /// Each path has at most one project identifier, and each identifier at
    /// most one path.
    pub closed spec fn wf(&self) -> bool {
        &&& forall|a: Row, b: Row|
            #![trigger self.projects@.contains(a), self.projects@.contains(b)]
            self.projects@.contains(a) && self.projects@.contains(b) && a.1 == b.1 ==> a.0 == b.0
        &&& forall|a: Row, b: Row|
            #![trigger self.projects@.contains(a), self.projects@.contains(b)]
            self.projects@.contains(a) && self.projects@.contains(b) && a.0 == b.0 ==> a.1 == b.1
        &&& forall|a: Row| self.projects@.contains(a) ==> a.2 == Seq::<char>::empty()
    }

    /// An empty repository.
    pub fn new() -> (r: Self)
        ensures
            r.wf(),
            r.model() == (RepositoryModel {
                ignored: Set::empty(),
                ignored_for_extension: Set::empty(),
                extensions: Set::empty(),
                ignored_for_project: Set::empty(),
                project_lists: Set::empty(),
                ignored_for_path: Set::empty(),
                path_lists: Set::empty(),
                projects: Set::empty(),
                skipped_file_names: Set::empty(),
                skipped_paths: Set::empty(),
            }),
    {
        let r = FakeRepository {
            global: Table::new(),
            by_extension: Table::new(),
            extensions: Table::new(),
            by_project: Table::new(),
            project_lists: Table::new(),
            by_path: Table::new(),
            path_lists: Table::new(),
            projects: Table::new(),
            skipped_file_names: Table::new(),
            skipped_paths: Table::new(),
        };
        assert(r.model().ignored =~= Set::empty());
        assert(r.model().ignored_for_extension =~= Set::empty());
        assert(r.model().extensions =~= Set::empty());
        assert(r.model().ignored_for_project =~= Set::empty());
        assert(r.model().project_lists =~= Set::empty());
        assert(r.model().ignored_for_path =~= Set::empty());
        assert(r.model().path_lists =~= Set::empty());
        assert(r.model().projects =~= Set::empty());
        assert(r.model().skipped_file_names =~= Set::empty());
        assert(r.model().skipped_paths =~= Set::empty());
        r
    }
}

/// The list holds a project with this identifier and path.
pub open spec fn listed(v: Seq<ProjectInfo>, x: (int, Seq<char>)) -> bool {
    exists|i: int| 0 <= i < v.len() && (#[trigger] v[i]).id() as int == x.0 && v[i].path_view() == x.1
}

/// The identifiers of the projects whose path no longer exists.
pub open spec fn gone_ids(s: Seq<(ProjectInfo, bool)>) -> Set<int>
    decreases s.len(),
{
    if s.len() == 0 {
        Set::empty()
    } else if !s.last().1 {
        gone_ids(s.drop_last()).insert(s.last().0.id() as int)
    } else {
        gone_ids(s.drop_last())
    }
}

/// The paths of the projects whose path no longer exists, in order.
pub open spec fn gone_paths(s: Seq<(ProjectInfo, bool)>) -> Seq<Seq<char>>
    decreases s.len(),
{
    if s.len() == 0 {
        Seq::empty()
    } else if !s.last().1 {
        gone_paths(s.drop_last()).push(s.last().0.path_view())
    } else {
        gone_paths(s.drop_last())
    }
}

/// The lower-case form of each string.
pub open spec fn lowercased(v: Seq<String>) -> Seq<Seq<char>> {
    v.map_values(|s: String| lowercase(s@))
}

/// The text of each string.
pub open spec fn string_views(v: Seq<String>) -> Seq<Seq<char>> {
    v.map_values(|s: String| s@)
}

impl Repository for FakeRepository {
    closed spec fn model(&self) -> RepositoryModel {
        self.contents()
    }

    fn insert_ignored_words(&mut self, words: &Vec<String>) -> (r: Result<(), Error>)
        ensures
            r is Ok,
            final(self).model() == (RepositoryModel {
                ignored: old(self).model().ignored.union(lowercased(words@).to_set()),
                ..old(self).model()
            }),
            old(self).wf() ==> final(self).wf(),
    {
        let mut i: usize = 0;
        proof {
            assert(lowercased(words@).take(0) =~= Seq::<Seq<char>>::empty());
            assert(old(self).model().ignored.union(lowercased(words@).take(0).to_set()) =~= old(self).model().ignored);
        }
        while i < words.len()
            invariant
                i <= words@.len(),
                self.model() == (RepositoryModel {
                    ignored: old(self).model().ignored.union(
                        lowercased(words@).take(i as int).to_set(),
                    ),
                    ..old(self).model()
                }),
                self.projects == old(self).projects,
            decreases words@.len() - i,
        {
            let ghost before = self.model();
            let lowered = to_lowercase(words[i].as_str());
            self.global.insert(0, empty_str(), lowered.as_str());
            proof {
                let w = lowercase(words@[i as int]@);
                assert(lowercased(words@).take(i + 1) =~= lowercased(words@).take(i as int).push(w));
                lemma_push_to_set(lowercased(words@).take(i as int), w);
                let s0 = lowercased(words@).take(i as int).to_set();
                assert(old(self).model().ignored.union(s0.insert(w)) =~= old(self).model().ignored.union(s0).insert(w));
                assert(self.model().ignored =~= before.ignored.insert(w));
            }
            i = i + 1;
        }
        proof {
            assert(lowercased(words@).take(words@.len() as int) =~= lowercased(words@));
        }
        Ok(())
    }

    fn ignore(&mut self, word: &str) -> (r: Result<(), Error>)
        ensures
            r is Ok,
            final(self).model() == (RepositoryModel {
                ignored: old(self).model().ignored.insert(lowercase(word@)),
                ..old(self).model()
            }),
            old(self).wf() ==> final(self).wf(),
    {
        let lowered = to_lowercase(word);
        let word = lowered.as_str();
        self.global.insert(0, empty_str(), word);
        proof {
            assert(self.model().ignored =~= old(self).model().ignored.insert(word@));
        }
        Ok(())
    }

    fn is_ignored(&self, word: &str) -> (r: Result<bool, Error>)
        ensures
            r == Ok::<bool, Error>(self.model().ignored.contains(lowercase(word@))),
    {
        let lowered = to_lowercase(word);
        let word = lowered.as_str();
        Ok(self.global.contains(0, empty_str(), word))
    }

    fn new_project(&mut self, project_path: &ProjectPath) -> (r: Result<ProjectId, Error>)
        ensures
            old(self).wf() ==> final(self).wf(),
            old(self).wf() ==> match r {
                Ok(id) => project_id_of(old(self).model(), project_path@) is None
                    && final(self).model() == (RepositoryModel {
                        projects: old(self).model().projects.insert((id as int, project_path@)),
                        ..old(self).model()
                    }) && forall|x: (int, Seq<char>)|
                    old(self).model().projects.contains(x) ==> x.0 < id,
                Err(e) => final(self).model() == old(self).model() && (project_id_of(
                    old(self).model(),
                    project_path@,
                ) is Some ==> (e matches Error::ProjectExists(p) && p@ == project_path@)),
            },
    {
        if let Some(_) = self.projects.project_of(project_path.as_str(), empty_str()) {
            proof {
                let id = choose|id: int| self.projects@.contains((id, project_path@, Seq::<char>::empty()));
                assert(self.model().projects.contains((id, project_path@)));
            }
            return Err(Error::ProjectExists(String::from_str(project_path.as_str())));
        }
        proof {
            assert forall|i: int| !self.model().projects.contains((i, project_path@)) by {
                assert(!self.projects@.contains((i, project_path@, Seq::<char>::empty())));
            }
        }
        let m = self.projects.max_project();
        if m == ProjectId::MAX {
            return Err(Error::Outside(String::from_str("no project identifier is left")));
        }
        let id = m + 1;
        self.projects.insert(id, project_path.as_str(), empty_str());
        proof {
            assert(self.model().projects =~= old(self).model().projects.insert((id as int, project_path@)));
            assert forall|x: (int, Seq<char>)| old(self).model().projects.contains(x) implies x.0 < id by {
                assert(old(self).projects@.contains((x.0, x.1, Seq::<char>::empty())));
            }
        }
        Ok(id)
    }

    fn project_exists(&self, project_path: &ProjectPath) -> (r: Result<bool, Error>)
        ensures
            r == Ok::<bool, Error>(project_id_of(self.model(), project_path@) is Some),
    {
        match self.projects.project_of(project_path.as_str(), empty_str()) {
            Some(id) => {
                assert(self.model().projects.contains((id as int, project_path@)));
                Ok(true)
            },
            None => {
                assert forall|i: int| !self.model().projects.contains((i, project_path@)) by {
                    assert(!self.projects@.contains((i, project_path@, Seq::<char>::empty())));
                }
                Ok(false)
            },
        }
    }

    fn remove_project(&mut self, project_id: ProjectId) -> (r: Result<(), Error>)
        ensures
            r is Ok,
            final(self).model() == (RepositoryModel {
                projects: old(self).model().projects.filter(|x: (int, Seq<char>)| x.0 != project_id as int),
                ..old(self).model()
            }),
            old(self).wf() ==> final(self).wf(),
    {
        self.projects.remove_project(project_id);
        proof {
            assert(self.model().projects =~= old(self).model().projects.filter(|x: (int, Seq<char>)| x.0 != project_id as int));
        }
        Ok(())
    }

    fn get_project_id(&self, project_path: &ProjectPath) -> (r: Result<ProjectId, Error>)
        ensures
            self.wf() ==> match project_id_of(self.model(), project_path@) {
                Some(id) => r matches Ok(i) && i as int == id,
                None => r matches Err(Error::UnknownProject(p)) && p@ == project_path@,
            },
    {
        match self.projects.project_of(project_path.as_str(), empty_str()) {
            Some(id) => {
                proof {
                    if self.wf() {
                        assert(self.model().projects.contains((id as int, project_path@)));
                        let c = project_id_of(self.model(), project_path@)->0;
                        assert(self.projects@.contains((c, project_path@, Seq::<char>::empty())));
                        assert(self.projects@.contains((id as int, project_path@, Seq::<char>::empty())));
                    }
                }
                Ok(id)
            },
            None => {
                assert forall|i: int| !self.model().projects.contains((i, project_path@)) by {
                    assert(!self.projects@.contains((i, project_path@, Seq::<char>::empty())));
                }
                Err(Error::UnknownProject(String::from_str(project_path.as_str())))
            },
        }
    }

    fn projects(&self) -> (r: Result<Vec<ProjectInfo>, Error>)
        ensures
            r matches Ok(v) && forall|x: (int, Seq<char>)|
                #[trigger] self.model().projects.contains(x) <==> listed(v@, x),
    {
        let rows = self.projects.list();
        let ghost rv = rows@.map_values(|x: (ProjectId, String, String)| (x.0 as int, x.1@, x.2@));
        let mut out: Vec<ProjectInfo> = Vec::new();
        let mut i: usize = 0;
        while i < rows.len()
            invariant
                i <= rows@.len(),
                rv == rows@.map_values(|x: (ProjectId, String, String)| (x.0 as int, x.1@, x.2@)),
                forall|k: int|
                    0 <= k < out@.len() ==> exists|j: int|
                        0 <= j < i && #[trigger] rv[j] == ((#[trigger] out@[k]).id() as int, out@[k].path_view(), Seq::<char>::empty()),
                forall|j: int|
                    0 <= j < i && (#[trigger] rv[j]).2 == Seq::<char>::empty() ==> listed(out@, (rv[j].0, rv[j].1)),
            decreases rows@.len() - i,
        {
            let ghost before = out@;
            assert(rv[i as int] == (rows@[i as int].0 as int, rows@[i as int].1@, rows@[i as int].2@));
            if rows[i].2.as_str().unicode_len() == 0 {
                out.push(ProjectInfo::new(rows[i].0, rows[i].1.as_str()));
                assert(rows@[i as int].2@ =~= Seq::<char>::empty());
                let ghost n = out@.len() - 1;
                assert(out@[n].id() as int == rv[i as int].0 && out@[n].path_view() == rv[i as int].1);
                assert forall|k: int| 0 <= k < out@.len() implies exists|j: int|
                    0 <= j < i + 1 && #[trigger] rv[j] == ((#[trigger] out@[k]).id() as int, out@[k].path_view(), Seq::<char>::empty()) by {
                    if k < n {
                        assert(out@[k] == before[k]);
                    } else {
                        assert(rv[i as int] == (out@[k].id() as int, out@[k].path_view(), Seq::<char>::empty()));
                    }
                }
                assert forall|j: int| 0 <= j < i + 1 && (#[trigger] rv[j]).2 == Seq::<char>::empty() implies listed(out@, (rv[j].0, rv[j].1)) by {
                    if j < i {
                        assert(listed(before, (rv[j].0, rv[j].1)));
                        let k = choose|k: int| 0 <= k < before.len() && (#[trigger] before[k]).id() as int == rv[j].0 && before[k].path_view() == rv[j].1;
                        assert(out@[k] == before[k]);
                    } else {
                        assert(out@[n].id() as int == rv[j].0);
                    }
                }
            } else {
                assert(rows@[i as int].2@.len() != 0);
            }
            i = i + 1;
        }
        proof {
            self.projects.lemma_rows();
            assert forall|x: (int, Seq<char>)|
                #[trigger] self.model().projects.contains(x) <==> listed(out@, x) by {
                if self.model().projects.contains(x) {
                    let row = (x.0, x.1, Seq::<char>::empty());
                    assert(self.projects.rows().contains(row));
                    let k = choose|k: int| 0 <= k < rv.len() && rv[k] == row;
                    assert(rv[k].2 == Seq::<char>::empty());
                }
                if listed(out@, x) {
                    let k = choose|i: int| 0 <= i < out@.len() && (#[trigger] out@[i]).id() as int == x.0 && out@[i].path_view() == x.1;
                    let j = choose|j: int| 0 <= j < rows@.len() && #[trigger] rv[j] == ((#[trigger] out@[k]).id() as int, out@[k].path_view(), Seq::<char>::empty());
                    assert(self.projects.rows()[j] == rv[j]);
                    assert(self.projects@.contains(rv[j]));
                }
            }
        }
        Ok(out)
    }

    fn skip_file_name(&mut self, file_name: &str) -> (r: Result<(), Error>)
        ensures
            r is Ok,
            final(self).model() == (RepositoryModel {
                skipped_file_names: old(self).model().skipped_file_names.insert(file_name@),
                ..old(self).model()
            }),
            old(self).wf() ==> final(self).wf(),
    {
        self.skipped_file_names.insert(0, empty_str(), file_name);
        proof {
            assert(self.model().skipped_file_names =~= old(self).model().skipped_file_names.insert(file_name@));
        }
        Ok(())
    }

    fn is_skipped_file_name(&self, file_name: &str) -> (r: Result<bool, Error>)
        ensures
            r == Ok::<bool, Error>(self.model().skipped_file_names.contains(file_name@)),
    {
        Ok(self.skipped_file_names.contains(0, empty_str(), file_name))
    }

    fn ignore_for_extension(&mut self, word: &str, extension: &str) -> (r: Result<(), Error>)
        ensures
            r is Ok,
            final(self).model() == (RepositoryModel {
                ignored_for_extension: old(self).model().ignored_for_extension.insert((extension@, lowercase(word@))),
                extensions: old(self).model().extensions.insert(extension@),
                ..old(self).model()
            }),
            old(self).wf() ==> final(self).wf(),
    {
        let lowered = to_lowercase(word);
        let word = lowered.as_str();
        self.extensions.insert(0, extension, empty_str());
        self.by_extension.insert(0, extension, word);
        proof {
            assert(self.model().ignored_for_extension =~= old(self).model().ignored_for_extension.insert((extension@, word@)));
            assert(self.model().extensions =~= old(self).model().extensions.insert(extension@));
        }
        Ok(())
    }

    fn is_ignored_for_extension(&self, word: &str, extension: &str) -> (r: Result<bool, Error>)
        ensures
            r == Ok::<bool, Error>(self.model().ignored_for_extension.contains((extension@, lowercase(word@)))),
    {
        let lowered = to_lowercase(word);
        let word = lowered.as_str();
        Ok(self.by_extension.contains(0, extension, word))
    }

    fn ignore_for_project(&mut self, word: &str, project_id: ProjectId) -> (r: Result<(), Error>)
        ensures
            r is Ok,
            final(self).model() == (RepositoryModel {
                ignored_for_project: old(self).model().ignored_for_project.insert((project_id as int, lowercase(word@))),
                project_lists: old(self).model().project_lists.insert(project_id as int),
                ..old(self).model()
            }),
            old(self).wf() ==> final(self).wf(),
    {
        let lowered = to_lowercase(word);
        let word = lowered.as_str();
        self.project_lists.insert(project_id, empty_str(), empty_str());
        self.by_project.insert(project_id, empty_str(), word);
        proof {
            assert(self.model().ignored_for_project =~= old(self).model().ignored_for_project.insert((project_id as int, word@)));
            assert(self.model().project_lists =~= old(self).model().project_lists.insert(project_id as int));
        }
        Ok(())
    }

    fn is_ignored_for_project(&self, word: &str, project_id: ProjectId) -> (r: Result<bool, Error>)
        ensures
            r == Ok::<bool, Error>(self.model().ignored_for_project.contains((project_id as int, lowercase(word@)))),
    {
        let lowered = to_lowercase(word);
        let word = lowered.as_str();
        Ok(self.by_project.contains(project_id, empty_str(), word))
    }

    fn ignore_for_path(
        &mut self,
        word: &str,
        project_id: ProjectId,
        relative_path: &RelativePath,
    ) -> (r: Result<(), Error>)
        ensures
            r is Ok,
            final(self).model() == (RepositoryModel {
                ignored_for_path: old(self).model().ignored_for_path.insert((project_id as int, relative_path@, lowercase(word@))),
                path_lists: old(self).model().path_lists.insert((project_id as int, relative_path@)),
                ..old(self).model()
            }),
            old(self).wf() ==> final(self).wf(),
    {
        let lowered = to_lowercase(word);
        let word = lowered.as_str();
        self.path_lists.insert(project_id, relative_path.as_str(), empty_str());
        self.by_path.insert(project_id, relative_path.as_str(), word);
        proof {
            assert(self.model().ignored_for_path =~= old(self).model().ignored_for_path.insert((project_id as int, relative_path@, word@)));
            assert(self.model().path_lists =~= old(self).model().path_lists.insert((project_id as int, relative_path@)));
        }
        Ok(())
    }

    fn is_ignored_for_path(
        &self,
        word: &str,
        project_id: ProjectId,
        relative_path: &RelativePath,
    ) -> (r: Result<bool, Error>)
        ensures
            r == Ok::<bool, Error>(self.model().ignored_for_path.contains((project_id as int, relative_path@, lowercase(word@)))),
    {
        let lowered = to_lowercase(word);
        let word = lowered.as_str();
        Ok(self.by_path.contains(project_id, relative_path.as_str(), word))
    }

    fn remove_ignored(&mut self, word: &str) -> (r: Result<(), Error>)
        ensures
            old(self).model().ignored.contains(lowercase(word@)) ==> r is Ok && final(self).model() == (
            RepositoryModel { ignored: old(self).model().ignored.remove(lowercase(word@)), ..old(self).model() }),
            !old(self).model().ignored.contains(lowercase(word@)) ==> r == Err::<(), Error>(Error::NotIgnored)
                && final(self).model() == old(self).model(),
            old(self).wf() ==> final(self).wf(),
    {
        let lowered = to_lowercase(word);
        let word = lowered.as_str();
        if !self.global.contains(0, empty_str(), word) {
            return Err(Error::NotIgnored);
        }
        self.global.remove(0, empty_str(), word);
        proof {
            assert(self.model().ignored =~= old(self).model().ignored.remove(word@));
        }
        Ok(())
    }

    fn remove_ignored_for_extension(&mut self, word: &str, extension: &str) -> (r: Result<(), Error>)
        ensures
            old(self).model().ignored_for_extension.contains((extension@, lowercase(word@))) ==> r is Ok && final(self).model() == (RepositoryModel {
                ignored_for_extension: old(self).model().ignored_for_extension.remove((extension@, lowercase(word@))),
                ..old(self).model()
            }),
            !old(self).model().ignored_for_extension.contains((extension@, lowercase(word@))) ==> r == Err::<(), Error>(Error::NotIgnoredForExtension) && final(self).model() == old(self).model(),
            old(self).wf() ==> final(self).wf(),
    {
        let lowered = to_lowercase(word);
        let word = lowered.as_str();
        if !self.by_extension.contains(0, extension, word) {
            return Err(Error::NotIgnoredForExtension);
        }
        self.by_extension.remove(0, extension, word);
        proof {
            assert(self.model().ignored_for_extension =~= old(self).model().ignored_for_extension.remove((extension@, word@)));
        }
        Ok(())
    }

    fn remove_ignored_for_path(
        &mut self,
        word: &str,
        project_id: ProjectId,
        relative_path: &RelativePath,
    ) -> (r: Result<(), Error>)
        ensures
            old(self).model().ignored_for_path.contains((project_id as int, relative_path@, lowercase(word@))) ==> r is Ok && final(self).model() == (RepositoryModel {
                ignored_for_path: old(self).model().ignored_for_path.remove((project_id as int, relative_path@, lowercase(word@))),
                ..old(self).model()
            }),
            !old(self).model().ignored_for_path.contains((project_id as int, relative_path@, lowercase(word@))) ==> r == Err::<(), Error>(Error::NotIgnoredForPath) && final(self).model() == old(self).model(),
            old(self).wf() ==> final(self).wf(),
    {
        let lowered = to_lowercase(word);
        let word = lowered.as_str();
        if !self.by_path.contains(project_id, relative_path.as_str(), word) {
            return Err(Error::NotIgnoredForPath);
        }
        self.by_path.remove(project_id, relative_path.as_str(), word);
        proof {
            assert(self.model().ignored_for_path =~= old(self).model().ignored_for_path.remove((project_id as int, relative_path@, word@)));
        }
        Ok(())
    }

    fn remove_ignored_for_project(&mut self, word: &str, project_id: ProjectId) -> (r: Result<(), Error>)
        ensures
            old(self).model().project_lists.contains(project_id as int) ==> r is Ok && final(self).model() == (RepositoryModel {
                ignored_for_project: old(self).model().ignored_for_project.remove((project_id as int, lowercase(word@))),
                ..old(self).model()
            }),
            !old(self).model().project_lists.contains(project_id as int) ==> r == Err::<(), Error>(Error::NoSuchList) && final(self).model() == old(self).model(),
            old(self).wf() ==> final(self).wf(),
    {
        let lowered = to_lowercase(word);
        let word = lowered.as_str();
        if !self.project_lists.contains(project_id, empty_str(), empty_str()) {
            return Err(Error::NoSuchList);
        }
        self.by_project.remove(project_id, empty_str(), word);
        proof {
            assert(self.model().ignored_for_project =~= old(self).model().ignored_for_project.remove((project_id as int, word@)));
        }
        Ok(())
    }

    fn skip_path(&mut self, project_id: ProjectId, relative_path: &RelativePath) -> (r: Result<(), Error>)
        ensures
            r is Ok,
            final(self).model() == (RepositoryModel {
                skipped_paths: old(self).model().skipped_paths.insert((project_id as int, relative_path@)),
                ..old(self).model()
            }),
            old(self).wf() ==> final(self).wf(),
    {
        self.skipped_paths.insert(project_id, relative_path.as_str(), empty_str());
        proof {
            assert(self.model().skipped_paths =~= old(self).model().skipped_paths.insert((project_id as int, relative_path@)));
        }
        Ok(())
    }

    fn is_skipped_path(&self, project_id: ProjectId, relative_path: &RelativePath) -> (r: Result<bool, Error>)
        ensures
            r == Ok::<bool, Error>(self.model().skipped_paths.contains((project_id as int, relative_path@))),
    {
        Ok(self.skipped_paths.contains(project_id, relative_path.as_str(), empty_str()))
    }

    fn unskip_file_name(&mut self, file_name: &str) -> (r: Result<(), Error>)
        ensures
            old(self).model().skipped_file_names.contains(file_name@) ==> r is Ok && final(self).model() == (
            RepositoryModel {
                skipped_file_names: old(self).model().skipped_file_names.remove(file_name@),
                ..old(self).model()
            }),
            !old(self).model().skipped_file_names.contains(file_name@) ==> r == Err::<(), Error>(
                Error::FileNameNotSkipped,
            ) && final(self).model() == old(self).model(),
            old(self).wf() ==> final(self).wf(),
    {
        if !self.skipped_file_names.contains(0, empty_str(), file_name) {
            return Err(Error::FileNameNotSkipped);
        }
        self.skipped_file_names.remove(0, empty_str(), file_name);
        proof {
            assert(self.model().skipped_file_names =~= old(self).model().skipped_file_names.remove(file_name@));
        }
        Ok(())
    }

    fn unskip_path(&mut self, project_id: ProjectId, relative_path: &RelativePath) -> (r: Result<(), Error>)
        ensures
            old(self).model().skipped_paths.contains((project_id as int, relative_path@)) ==> r is Ok
                && final(self).model() == (RepositoryModel {
                skipped_paths: old(self).model().skipped_paths.remove((project_id as int, relative_path@)),
                ..old(self).model()
            }),
            !old(self).model().skipped_paths.contains((project_id as int, relative_path@)) ==> r == Err::<
                (),
                Error,
            >(Error::PathNotSkipped) && final(self).model() == old(self).model(),
            old(self).wf() ==> final(self).wf(),
    {
        if !self.skipped_paths.contains(project_id, relative_path.as_str(), empty_str()) {
            return Err(Error::PathNotSkipped);
        }
        self.skipped_paths.remove(project_id, relative_path.as_str(), empty_str());
        proof {
            assert(self.model().skipped_paths =~= old(self).model().skipped_paths.remove((project_id as int, relative_path@)));
        }
        Ok(())
    }

    fn should_skip(&self, project_id: ProjectId, relative_path: &RelativePath) -> (r: Result<bool, Error>)
        ensures
            r == Ok::<bool, Error>(skips(self.model(), project_id as int, relative_path@)),
    {
        if let Some(f) = relative_path.file_name() {
            if self.is_skipped_file_name(f.as_str())? {
                return Ok(true);
            }
        }
        self.is_skipped_path(project_id, relative_path)
    }

    fn should_ignore(&self, word: &str, project_id: ProjectId, relative_path: &RelativePath) -> (r: Result<bool, Error>)
        ensures
            r == Ok::<bool, Error>(ignores(self.model(), word@, project_id as int, relative_path@)),
    {
        if self.is_ignored(word)? {
            return Ok(true);
        }
        if let Some(e) = relative_path.extension() {
            if self.is_ignored_for_extension(word, e.as_str())? {
                return Ok(true);
            }
        }
        if self.is_ignored_for_project(word, project_id)? {
            return Ok(true);
        }
        self.is_ignored_for_path(word, project_id, relative_path)
    }
}

} // verus!
