use skyspell::error::Error;
use skyspell::project::{ProjectPath, RelativePath};
use skyspell::repository::{FakeRepository, ProjectInfo, Repository};

fn project(name: &str) -> ProjectPath {
    ProjectPath::new(&format!("/tmp/test-skyspell/{}", name))
}

fn rel(project: &ProjectPath, name: &str) -> RelativePath {
    RelativePath::new(project, &format!("{}/{}", project.as_str(), name)).unwrap()
}

#[test]
fn mod_test_should_ignore_when_in_global_list() {
    let project = project("project");
    let relative_path = rel(&project, "foo");
    let mut repository = FakeRepository::new();

    repository.ignore("foo").unwrap();
    let project_id = repository.new_project(&project).unwrap();

    assert!(repository
        .should_ignore("foo", project_id, &relative_path)
        .unwrap());
}

#[test]
fn mod_test_should_ignore_when_in_list_for_extension() {
    let project = project("project");
    let foo_py = rel(&project, "foo.py");
    let foo_rs = rel(&project, "foo.rs");

    let mut repository = FakeRepository::new();
    let project_id = repository.new_project(&project).unwrap();
    repository.ignore_for_extension("foo", "py").unwrap();

    assert!(repository.should_ignore("foo", project_id, &foo_py).unwrap());
    assert!(!repository.should_ignore("foo", project_id, &foo_rs).unwrap());
}

#[test]
fn mod_test_should_ignore_when_in_project_list() {
    let project_1 = project("project1");
    let foo_txt = rel(&project_1, "foo.txt");
    let project_2 = project("project2");
    let mut repository = FakeRepository::new();
    let project_id_1 = repository.new_project(&project_1).unwrap();
    let project_id_2 = repository.new_project(&project_2).unwrap();

    repository.ignore_for_project("foo", project_id_1).unwrap();

    assert!(repository
        .should_ignore("foo", project_id_1, &foo_txt)
        .unwrap());
    assert!(!repository
        .should_ignore("foo", project_id_2, &foo_txt)
        .unwrap());
}

#[test]
fn mod_test_should_skip_when_in_skipped_file_names_list() {
    let project = project("project");
    let cargo_lock = rel(&project, "Cargo.lock");
    let poetry_lock = rel(&project, "poetry.lock");

    let mut repository = FakeRepository::new();
    repository.new_project(&project).unwrap();
    repository.skip_file_name("Cargo.lock").unwrap();
    let project_id = repository.get_project_id(&project).unwrap();

    assert!(repository.should_skip(project_id, &cargo_lock).unwrap());
    assert!(!repository.should_skip(project_id, &poetry_lock).unwrap());
}

#[test]
fn mod_test_should_skip_when_in_skipped_paths() {
    let project_1 = project("project1");
    let foo_txt = rel(&project_1, "foo.txt");
    let other = rel(&project_1, "other");
    let project_2 = project("project2");

    let mut repository = FakeRepository::new();
    let project_id_1 = repository.new_project(&project_1).unwrap();
    let project_id_2 = repository.new_project(&project_2).unwrap();

    repository.skip_path(project_id_1, &foo_txt).unwrap();

    assert!(repository.should_skip(project_id_1, &foo_txt).unwrap());

    // Same project, other path
    assert!(!repository.should_skip(project_id_1, &other).unwrap());

    // Same file, other project
    assert!(!repository.should_skip(project_id_2, &foo_txt).unwrap());
}

#[test]
fn tests_test_should_ignore_when_in_global_list() {
    let project = project("project");
    let relative_path = rel(&project, "foo");
    let mut repository = FakeRepository::new();

    repository.ignore("foo").unwrap();
    let project_id = repository.new_project(&project).unwrap();

    assert!(repository
        .should_ignore("foo", project_id, &relative_path)
        .unwrap());
}

#[test]
fn tests_test_should_ignore_when_in_list_for_extension() {
    let project = project("project");
    let foo_py = rel(&project, "foo.py");
    let foo_rs = rel(&project, "foo.rs");

    let mut repository = FakeRepository::new();
    let project_id = repository.new_project(&project).unwrap();
    repository.ignore_for_extension("foo", "py").unwrap();

    assert!(repository.should_ignore("foo", project_id, &foo_py).unwrap());
    assert!(!repository.should_ignore("foo", project_id, &foo_rs).unwrap());
}

#[test]
fn tests_test_should_ignore_when_in_project_list() {
    let project_1 = project("project1");
    let foo_txt = rel(&project_1, "foo.txt");
    let project_2 = project("project2");
    let mut repository = FakeRepository::new();
    let project_id_1 = repository.new_project(&project_1).unwrap();
    let project_id_2 = repository.new_project(&project_2).unwrap();

    repository.ignore_for_project("foo", project_id_1).unwrap();

    assert!(repository
        .should_ignore("foo", project_id_1, &foo_txt)
        .unwrap());
    assert!(!repository
        .should_ignore("foo", project_id_2, &foo_txt)
        .unwrap());
}

#[test]
fn tests_test_should_skip_when_in_skipped_file_names_list() {
    let project = project("project");
    let cargo_lock = rel(&project, "Cargo.lock");
    let poetry_lock = rel(&project, "poetry.lock");

    let mut repository = FakeRepository::new();
    repository.new_project(&project).unwrap();
    repository.skip_file_name("Cargo.lock").unwrap();
    let project_id = repository.get_project_id(&project).unwrap();

    assert!(repository.should_skip(project_id, &cargo_lock).unwrap());
    assert!(!repository.should_skip(project_id, &poetry_lock).unwrap());
}

#[test]
fn tests_test_should_skip_when_in_skipped_paths() {
    let project_1 = project("project1");
    let foo_txt = rel(&project_1, "foo.txt");
    let other = rel(&project_1, "other");
    let project_2 = project("project2");

    let mut repository = FakeRepository::new();
    let project_id_1 = repository.new_project(&project_1).unwrap();
    let project_id_2 = repository.new_project(&project_2).unwrap();

    repository.skip_path(project_id_1, &foo_txt).unwrap();

    assert!(repository.should_skip(project_id_1, &foo_txt).unwrap());

    // Same project, other path
    assert!(!repository.should_skip(project_id_1, &other).unwrap());

    // Same file, other project
    assert!(!repository.should_skip(project_id_2, &foo_txt).unwrap());
}

#[test]
fn new_project_twice_is_an_error() {
    let project = project("project");
    let mut repository = FakeRepository::new();
    let id = repository.new_project(&project).unwrap();
    assert!(repository.project_exists(&project).unwrap());
    assert_eq!(repository.get_project_id(&project).unwrap(), id);
    assert!(matches!(
        repository.new_project(&project),
        Err(Error::ProjectExists(_))
    ));
}

#[test]
fn unknown_project_is_an_error() {
    let repository = FakeRepository::new();
    assert!(matches!(
        repository.get_project_id(&project("nowhere")),
        Err(Error::UnknownProject(_))
    ));
}

#[test]
fn remove_undoes_ignore() {
    let project = project("project");
    let foo_py = rel(&project, "foo.py");
    let mut repository = FakeRepository::new();
    let id = repository.new_project(&project).unwrap();

    repository.ignore("foo").unwrap();
    assert!(repository.should_ignore("foo", id, &foo_py).unwrap());
    repository.remove_ignored("foo").unwrap();
    assert!(!repository.should_ignore("foo", id, &foo_py).unwrap());

    repository.ignore_for_extension("foo", "py").unwrap();
    assert!(repository.should_ignore("foo", id, &foo_py).unwrap());
    repository.remove_ignored_for_extension("foo", "py").unwrap();
    assert!(!repository.should_ignore("foo", id, &foo_py).unwrap());

    repository.ignore_for_project("foo", id).unwrap();
    assert!(repository.should_ignore("foo", id, &foo_py).unwrap());
    repository.remove_ignored_for_project("foo", id).unwrap();
    assert!(!repository.should_ignore("foo", id, &foo_py).unwrap());

    repository.ignore_for_path("foo", id, &foo_py).unwrap();
    assert!(repository.is_ignored_for_path("foo", id, &foo_py).unwrap());
    repository.remove_ignored_for_path("foo", id, &foo_py).unwrap();
    assert!(!repository.should_ignore("foo", id, &foo_py).unwrap());
}

#[test]
fn removing_from_a_missing_list_is_an_error() {
    let mut repository = FakeRepository::new();
    assert!(matches!(
        repository.remove_ignored_for_extension("foo", "py"),
        Err(Error::NotIgnoredForExtension)
    ));
    assert!(matches!(
        repository.remove_ignored_for_project("foo", 3),
        Err(Error::NoSuchList)
    ));
}

#[test]
fn unskip_undoes_skip() {
    let project = project("project");
    let lock = rel(&project, "Cargo.lock");
    let mut repository = FakeRepository::new();
    let id = repository.new_project(&project).unwrap();

    repository.skip_file_name("Cargo.lock").unwrap();
    assert!(repository.should_skip(id, &lock).unwrap());
    repository.unskip_file_name("Cargo.lock").unwrap();
    assert!(!repository.should_skip(id, &lock).unwrap());

    repository.skip_path(id, &lock).unwrap();
    assert!(repository.is_skipped_path(id, &lock).unwrap());
    repository.unskip_path(id, &lock).unwrap();
    assert!(!repository.should_skip(id, &lock).unwrap());
}

#[test]
fn projects_lists_every_project() {
    let mut repository = FakeRepository::new();
    let a = repository.new_project(&project("a")).unwrap();
    let b = repository.new_project(&project("b")).unwrap();
    let projects = repository.projects().unwrap();
    assert_eq!(projects.len(), 2);
    assert!(projects
        .iter()
        .any(|p| p.id() == a && p.path() == "/tmp/test-skyspell/a"));
    assert!(projects
        .iter()
        .any(|p| p.id() == b && p.path() == "/tmp/test-skyspell/b"));
    repository.remove_project(a).unwrap();
    assert!(!repository.project_exists(&project("a")).unwrap());
    assert!(repository.project_exists(&project("b")).unwrap());
}

#[test]
fn ensure_project_creates_once() {
    let mut repository = FakeRepository::new();
    let p1 = repository.ensure_project(&project("a")).unwrap();
    let p2 = repository.ensure_project(&project("a")).unwrap();
    assert_eq!(p1.id(), p2.id());
    assert_eq!(p1.path().as_str(), "/tmp/test-skyspell/a");
}

#[test]
fn insert_ignored_words_ignores_each() {
    let mut repository = FakeRepository::new();
    repository
        .insert_ignored_words(&vec!["one".to_string(), "two".to_string()])
        .unwrap();
    assert!(repository.is_ignored("one").unwrap());
    assert!(repository.is_ignored("two").unwrap());
    assert!(!repository.is_ignored("three").unwrap());
}

#[test]
fn error_messages() {
    assert_eq!(Error::NoExtension.to_string(), "File has no extension");
    assert_eq!(
        Error::ProjectExists("/p".to_string()).to_string(),
        "Project in '/p' already exists"
    );
    assert_eq!(
        Error::CannotDiffPaths("/a".to_string(), "/b".to_string()).to_string(),
        "Could not diff paths '/a' and '/b'"
    );
    assert_eq!(
        Error::UnexpectedAnswer("z".to_string()).to_string(),
        "Unexpected answer: z"
    );
}

#[test]
fn relative_paths_and_extensions() {
    let project = project("project");
    let p = rel(&project, "src/main.rs");
    assert_eq!(p.as_str(), "src/main.rs");
    assert_eq!(p.file_name().unwrap(), "main.rs");
    assert_eq!(p.extension().unwrap(), "rs");
    let dotfile = rel(&project, ".bashrc");
    assert!(dotfile.extension().is_none());
    assert_eq!(project.join(&p), "/tmp/test-skyspell/project/src/main.rs");
}

#[test]
fn ignore_lists_do_not_depend_on_case() {
    let project = project("project");
    let foo_py = rel(&project, "foo.py");
    let mut repository = FakeRepository::new();
    let id = repository.new_project(&project).unwrap();
    repository.ignore("Foo").unwrap();
    assert!(repository.is_ignored("foo").unwrap());
    assert!(repository.is_ignored("FOO").unwrap());
    repository.ignore_for_extension("DefaultDict", "py").unwrap();
    assert!(repository.should_ignore("defaultdict", id, &foo_py).unwrap());
    repository.remove_ignored("FOO").unwrap();
    assert!(!repository.is_ignored("Foo").unwrap());
}

#[test]
fn test_clean() {
    let mut repository = FakeRepository::new();
    let project1 = project("project1");
    repository.new_project(&project1).unwrap();
    let project2 = project("project2");
    repository.new_project(&project2).unwrap();
    let before = repository.projects().unwrap();

    // project2 no longer exists on disk
    let flagged: Vec<(ProjectInfo, bool)> = repository
        .projects()
        .unwrap()
        .into_iter()
        .map(|p| {
            let exists = p.path() != project2.as_str();
            (p, exists)
        })
        .collect();
    let removed = repository.clean(&flagged).unwrap();

    let after = repository.projects().unwrap();
    assert_eq!(
        before.len() - after.len(),
        1,
        "Should have removed one project"
    );
    assert_eq!(removed, vec![project2.as_str().to_string()]);
    assert!(repository.project_exists(&project1).unwrap());
    assert!(!repository.project_exists(&project2).unwrap());
}

#[test]
fn clean_keeps_projects_that_exist() {
    let mut repository = FakeRepository::new();
    repository.new_project(&project("kept")).unwrap();
    let flagged: Vec<(ProjectInfo, bool)> = repository
        .projects()
        .unwrap()
        .into_iter()
        .map(|p| (p, true))
        .collect();
    assert!(repository.clean(&flagged).unwrap().is_empty());
    assert!(repository.project_exists(&project("kept")).unwrap());
}

#[test]
fn remove_ignored_when_not_ignored() {
    let mut repository = FakeRepository::new();
    assert!(!repository.is_ignored("foo").unwrap());
    let e = repository.remove_ignored("foo").unwrap_err();
    assert_eq!(e.to_string(), "word was not globally ignored");
}

#[test]
fn remove_ignored_for_extension_when_not_ignored() {
    let mut repository = FakeRepository::new();
    repository.ignore_for_extension("bar", "py").unwrap();
    assert!(!repository.is_ignored_for_extension("foo", "py").unwrap());
    assert!(repository.remove_ignored_for_extension("foo", "py").is_err());
}

#[test]
fn remove_ignored_for_path_when_not_ignored() {
    let mut repository = FakeRepository::new();
    let p = project("project");
    let project_id = repository.new_project(&p).unwrap();
    let foo_py = rel(&p, "foo.py");
    assert!(!repository.is_ignored_for_path("foo", project_id, &foo_py).unwrap());
    assert!(repository.remove_ignored_for_path("foo", project_id, &foo_py).is_err());
}

#[test]
fn unskip_file_name_not_skipped() {
    let mut repository = FakeRepository::new();
    assert!(!repository.is_skipped_file_name("Cargo.lock").unwrap());
    assert!(repository.unskip_file_name("Cargo.lock").is_err());
}

#[test]
fn unskip_path_not_skipped() {
    let mut repository = FakeRepository::new();
    let p = project("project");
    let project_id = repository.new_project(&p).unwrap();
    let foo_py = rel(&p, "foo.py");
    assert!(!repository.is_skipped_path(project_id, &foo_py).unwrap());
    assert!(repository.unskip_path(project_id, &foo_py).is_err());
}

#[test]
fn inserted_words_are_ignored_whatever_their_case() {
    let mut repository = FakeRepository::new();
    repository
        .insert_ignored_words(&vec!["Foo".to_string(), "BAR".to_string()])
        .unwrap();
    assert!(repository.is_ignored("Foo").unwrap());
    assert!(repository.is_ignored("foo").unwrap());
    assert!(repository.is_ignored("bar").unwrap());
}

#[test]
fn projects_lists_only_existing_projects_after_clean() {
    let mut repository = FakeRepository::new();
    let kept = project("kept");
    let gone = project("gone");
    repository.new_project(&kept).unwrap();
    repository.new_project(&gone).unwrap();
    let flagged: Vec<(ProjectInfo, bool)> = repository
        .projects()
        .unwrap()
        .into_iter()
        .map(|p| {
            let exists = p.path() == kept.as_str();
            (p, exists)
        })
        .collect();
    repository.clean(&flagged).unwrap();
    let after = repository.projects().unwrap();
    assert_eq!(after.len(), 1);
    assert_eq!(after[0].path(), kept.as_str());
}
