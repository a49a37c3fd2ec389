use skyspell::checker::non_interactive::NonInteractiveChecker;
use skyspell::cli::{
    add, check_with, import_personal_dict, list_kind, remove, skip, skip_kind, skipped_message,
    success_message, suggest, unskip, AddOpts, IgnoreList, ListKind, SkipKind, SkipRule,
};
use skyspell::text::{split_ascii_whitespace, split_whitespace};
use skyspell::dictionary::FakeDictionary;
use skyspell::error::Error;
use skyspell::project::{ProjectPath, RelativePath};
use skyspell::repository::{FakeRepository, Repository};
use skyspell::tokens::TokenProcessor;

const TMP: &str = "/tmp/test-skyspell";

fn open_project(name: &str) -> ProjectPath {
    ProjectPath::new(&format!("{}/{}", TMP, name))
}

fn full_path(project: &str, file_name: &str) -> String {
    format!("{}/{}/{}", TMP, project, file_name)
}

fn relative(project: &ProjectPath, full: &str) -> RelativePath {
    RelativePath::new(project, full).unwrap()
}

fn list(
    project_path: Option<&str>,
    relative_path: Option<&str>,
    extension: Option<&str>,
) -> Result<IgnoreList, Error> {
    let kind = list_kind(
        project_path.is_some(),
        relative_path.is_some(),
        extension.is_some(),
    )?;
    Ok(match kind {
        ListKind::Global => IgnoreList::Global,
        ListKind::Extension => IgnoreList::Extension(extension.unwrap().to_string()),
        ListKind::Path => IgnoreList::Path(
            ProjectPath::new(project_path.unwrap()),
            relative_path.unwrap().to_string(),
        ),
        ListKind::Project => IgnoreList::Project(ProjectPath::new(project_path.unwrap())),
    })
}

fn rule(
    project_path: Option<&str>,
    relative_path: Option<&str>,
    file_name: Option<&str>,
) -> Result<SkipRule, Error> {
    let kind = skip_kind(
        project_path.is_some(),
        relative_path.is_some(),
        file_name.is_some(),
    )?;
    Ok(match kind {
        SkipKind::Path => SkipRule::Path(
            ProjectPath::new(project_path.unwrap()),
            relative_path.unwrap().to_string(),
        ),
        SkipKind::FileName => SkipRule::FileName(file_name.unwrap().to_string()),
    })
}

#[test]
fn test_add_global() {
    let mut repository = FakeRepository::new();
    add(&mut repository, "foo", &list(None, None, None).unwrap()).unwrap();
    assert!(repository.is_ignored("foo").unwrap());
}

#[test]
fn test_add_for_project_happy() {
    let mut repository = FakeRepository::new();
    let project = open_project("project");
    add(
        &mut repository,
        "foo",
        &list(Some(project.as_str()), None, None).unwrap(),
    )
    .unwrap();
    let project_id = repository.get_project_id(&project).unwrap();
    assert!(repository
        .is_ignored_for_project("foo", project_id)
        .unwrap());
}

#[test]
fn test_add_for_extension() {
    let mut repository = FakeRepository::new();
    add(&mut repository, "foo", &list(None, None, Some("py")).unwrap()).unwrap();
    assert!(repository.is_ignored_for_extension("foo", "py").unwrap());
}

#[test]
fn test_add_for_relative_path() {
    let mut repository = FakeRepository::new();
    let project = open_project("project");
    let full = full_path("project", "foo.txt");
    let rel_path = relative(&project, &full);
    add(
        &mut repository,
        "foo",
        &list(Some(project.as_str()), Some(&full), None).unwrap(),
    )
    .unwrap();
    let project_id = repository.get_project_id(&project).unwrap();
    assert!(repository
        .is_ignored_for_path("foo", project_id, &rel_path)
        .unwrap());
}

#[test]
fn test_remove_global() {
    let mut repository = FakeRepository::new();
    repository.ignore("foo").unwrap();
    remove(&mut repository, "foo", &list(None, None, None).unwrap()).unwrap();
    assert!(!repository.is_ignored("foo").unwrap());
}

#[test]
fn test_remove_for_project() {
    let mut repository = FakeRepository::new();
    let project = open_project("project");
    repository.new_project(&project).unwrap();
    let project_id = repository.get_project_id(&project).unwrap();
    repository.ignore_for_project("foo", project_id).unwrap();

    remove(
        &mut repository,
        "foo",
        &list(Some(project.as_str()), None, None).unwrap(),
    )
    .unwrap();

    assert!(!repository
        .is_ignored_for_project("foo", project_id)
        .unwrap());
}

#[test]
fn test_remove_for_relative_path() {
    let mut repository = FakeRepository::new();
    let project = open_project("project");
    let full = full_path("project", "foo.txt");
    let rel_path = relative(&project, &full);
    let project_id = repository.new_project(&project).unwrap();
    repository
        .ignore_for_path("foo", project_id, &rel_path)
        .unwrap();

    remove(
        &mut repository,
        "foo",
        &list(Some(project.as_str()), Some(&full), None).unwrap(),
    )
    .unwrap();

    assert!(!repository
        .is_ignored_for_path("foo", project_id, &rel_path)
        .unwrap());
}

#[test]
fn test_remove_for_extension() {
    let mut repository = FakeRepository::new();
    repository.ignore_for_extension("foo", "py").unwrap();
    remove(&mut repository, "foo", &list(None, None, Some("py")).unwrap()).unwrap();
    assert!(!repository.is_ignored_for_extension("foo", "py").unwrap());
}

#[test]
fn test_skip_relative_path() {
    let mut repository = FakeRepository::new();
    let project = open_project("project");
    let full = full_path("project", "foo.txt");
    let rel_path = relative(&project, &full);
    skip(
        &mut repository,
        &rule(Some(project.as_str()), Some(&full), None).unwrap(),
    )
    .unwrap();
    let project_id = repository.get_project_id(&project).unwrap();
    assert!(repository.is_skipped_path(project_id, &rel_path).unwrap());
}

#[test]
fn test_skip_file_name() {
    let mut repository = FakeRepository::new();
    skip(&mut repository, &rule(None, None, Some("Cargo.lock")).unwrap()).unwrap();
    assert!(repository.is_skipped_file_name("Cargo.lock").unwrap());
}

#[test]
fn test_unskip_relative_path() {
    let mut repository = FakeRepository::new();
    let project = open_project("project");
    let full = full_path("project", "foo.txt");
    let rel_path = relative(&project, &full);
    let project_id = repository.new_project(&project).unwrap();
    repository.skip_path(project_id, &rel_path).unwrap();

    unskip(
        &mut repository,
        &rule(Some(project.as_str()), Some(&full), None).unwrap(),
    )
    .unwrap();

    assert!(!repository.is_skipped_path(project_id, &rel_path).unwrap());
}

#[test]
fn test_unskip_file_name() {
    let mut repository = FakeRepository::new();
    repository.skip_file_name("Cargo.lock").unwrap();
    unskip(&mut repository, &rule(None, None, Some("Cargo.lock")).unwrap()).unwrap();
    assert!(!repository.is_skipped_file_name("Cargo.lock").unwrap());
}

#[test]
fn cli_test_suggest() {
    let mut dictionary = FakeDictionary::new();
    dictionary.add_suggestions("hel", &vec!["hello".to_string(), "hell".to_string()]);
    let suggestions = suggest(&dictionary, "hel").unwrap();
    assert_eq!(suggestions, vec!["hello".to_string(), "hell".to_string()]);
}

#[test]
fn suggest_nothing_for_known_words() {
    let mut dictionary = FakeDictionary::new();
    dictionary.add_known("hello");
    dictionary.add_suggestions("hello", &vec!["hell".to_string()]);
    assert!(suggest(&dictionary, "hello").unwrap().is_empty());
}

#[test]
fn invalid_option_combinations() {
    assert!(matches!(
        list(None, Some("foo"), None),
        Err(Error::RelativePathWithoutProject)
    ));
    assert!(matches!(
        list(Some("/p"), None, Some("py")),
        Err(Error::ExtensionWithProject)
    ));
    assert!(matches!(
        rule(Some("/p"), None, None),
        Err(Error::InvalidSkipArguments)
    ));
    assert!(matches!(
        rule(Some("/p"), Some("/p/a"), Some("a")),
        Err(Error::InvalidSkipArguments)
    ));
    let opts = AddOpts {
        project_path: None,
        word: "foo".to_string(),
        extension: Some("py".to_string()),
        relative_path: Some("x".to_string()),
    };
    assert!(matches!(opts.list_kind(), Ok(ListKind::Extension)));
}

fn source(project: &str, name: &str, text: &str) -> TokenProcessor {
    TokenProcessor::new(&full_path(project, name), vec![text.to_string()])
}

#[test]
fn test_check_errors_in_two_files() {
    let project = open_project("project");
    let mut dictionary = FakeDictionary::new();
    for word in &["This", "is", "and", "it", "contains"] {
        dictionary.add_known(word);
    }
    let mut checker =
        NonInteractiveChecker::new(project, dictionary, FakeRepository::new()).unwrap();
    let sources = vec![
        source("project", "bar.md", "This is bar and it contains baz"),
        source("project", "foo.md", "This is foo"),
    ];
    let err = check_with(&mut checker, &sources).unwrap_err();
    assert!(err.to_string().contains("spelling errors"));
    assert_eq!(
        checker.report(),
        &vec![
            "bar.md:1:8 bar".to_string(),
            "bar.md:1:28 baz".to_string(),
            "foo.md:1:8 foo".to_string(),
        ]
    );
}

#[test]
fn test_check_happy() {
    let project = open_project("project");
    let mut dictionary = FakeDictionary::new();
    for word in &["This", "is", "also", "fine"] {
        dictionary.add_known(word);
    }
    let mut checker =
        NonInteractiveChecker::new(project, dictionary, FakeRepository::new()).unwrap();
    let sources = vec![
        source("project", "bar.md", "This is also fine"),
        source("project", "foo.md", "This is fine"),
    ];
    let summary = check_with(&mut checker, &sources).unwrap();
    assert_eq!(summary.checked, 2);
    assert_eq!(summary.skipped, 0);
    assert_eq!(success_message(2), "Success. 2 files checked.");
}

#[test]
fn check_skips_skipped_files() {
    let project = open_project("project");
    let mut repository = FakeRepository::new();
    repository.skip_file_name("Cargo.lock").unwrap();
    let mut checker =
        NonInteractiveChecker::new(project, FakeDictionary::new(), repository).unwrap();
    let sources = vec![source("project", "Cargo.lock", "zzzz")];
    let summary = check_with(&mut checker, &sources).unwrap();
    assert_eq!(summary.skipped, 1);
    assert_eq!(skipped_message(1).unwrap(), "Skipped one file");
    assert_eq!(skipped_message(3).unwrap(), "Skipped 3 files");
    assert!(skipped_message(0).is_none());
}

#[test]
fn commit_message_stops_at_scissors() {
    let lines = vec![
        "first line".to_string(),
        "# ------------------------ >8 ------------------------".to_string(),
        "ignored below".to_string(),
    ];
    let p = TokenProcessor::new("/tmp/repo/.git/COMMIT_EDITMSG", lines.clone());
    let words: Vec<String> = p.tokens().into_iter().map(|(w, _, _)| w).collect();
    assert_eq!(words, vec!["first".to_string(), "line".to_string()]);
    let q = TokenProcessor::new("/tmp/repo/notes.txt", lines);
    assert_eq!(q.tokens().len(), 4);
}

#[test]
fn import_personal_dict_ignores_each_word() {
    let mut repository = FakeRepository::new();
    import_personal_dict(&mut repository, "personal_ws-1.1 en 2\nfoo\n\tbar  baz\r\n").unwrap();
    for word in ["foo", "bar", "baz", "en", "2", "personal_ws-1.1"] {
        assert!(repository.is_ignored(word).unwrap(), "{} should be ignored", word);
    }
    assert!(!repository.is_ignored("qux").unwrap());
}

#[test]
fn ascii_split_keeps_other_white_space() {
    assert_eq!(
        split_ascii_whitespace(" a\tb\u{0B}c\u{A0}d\x0Ce\n"),
        vec!["a", "b\u{0B}c\u{A0}d", "e"]
    );
    assert_eq!(
        split_whitespace(" a\tb\u{0B}c\u{A0}d\x0Ce\n"),
        vec!["a", "b", "c", "d", "e"]
    );
    assert!(split_ascii_whitespace("   ").is_empty());
}

#[test]
fn white_space_agrees_with_std() {
    for code in (0u32..0x3100).chain([0xFEFF, 0x10FFFF]) {
        if let Some(c) = char::from_u32(code) {
            let text = format!("a{}b", c);
            assert_eq!(
                split_whitespace(&text).len(),
                text.split_whitespace().count(),
                "U+{:04X}",
                code
            );
        }
    }
}
