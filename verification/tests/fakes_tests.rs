use skyspell::dictionary::{Dictionary, FakeDictionary};
use skyspell::error::Error;
use skyspell::repo::{AddFor, FakeRepo, Repo};

#[test]
fn test_fake_repo_lookup_ignored() {
    let mut fake = FakeRepo::new();
    fake.add_ignored("foobar").unwrap();

    assert!(fake.lookup_word("foobar", "-").unwrap())
}

#[test]
fn test_fake_repo_lookup_for_extension() {
    let mut fake = FakeRepo::new();
    fake.add_extension("py").unwrap();
    fake.add_ignored_for_extension("defaultdict", "py").unwrap();

    assert!(!fake.lookup_word("defaultdict", "hello.rs").unwrap());
    assert!(fake.lookup_word("defaultdict", "hello.py").unwrap());
}

#[test]
fn test_fake_repo_lookup_for_file() {
    let mut fake = FakeRepo::new();
    fake.add_file("path/to/foo.txt").unwrap();
    fake.add_ignored_for_file("abcdef", "path/to/foo.txt").unwrap();

    assert!(fake.lookup_word("abcdef", "path/to/foo.txt").unwrap());
    assert!(!fake.lookup_word("abcdef", "path/to/other.txt").unwrap());
}

#[test]
fn test_fake_repo_skipping_filename() {
    let mut fake = FakeRepo::new();
    fake.skip_file_name("poetry.lock").unwrap();

    assert!(fake.lookup_word("abcdef", "path/to/poetry.lock").unwrap());
}

#[test]
fn test_fake_dictionary_check() {
    let mut fake_dictionary = FakeDictionary::new();
    fake_dictionary.add_known("hello");

    assert!(fake_dictionary.check("hello").unwrap());
    assert!(!fake_dictionary.check("foo").unwrap());
}

#[test]
fn test_fake_dictionary_suggest() {
    let mut fake_dictionary = FakeDictionary::new();
    fake_dictionary.add_known("hello");
    fake_dictionary.add_suggestions("missstake", &vec!["mistake".to_string()]);

    assert_eq!(&fake_dictionary.suggest("missstake"), &["mistake"]);
    assert!(&fake_dictionary.suggest("asntoehsauh").is_empty());
}

#[test]
fn fake_repo_known_extension_and_file() {
    let mut repo = FakeRepo::new();
    repo.add_extension("py").unwrap();
    assert!(repo.known_extension("py").unwrap());
    assert!(!repo.known_extension("rs").unwrap());
    repo.add_file("/path/to/foo").unwrap();
    assert!(repo.known_file("/path/to/foo").unwrap());
    assert!(!repo.known_file("/path/to/bar").unwrap());
}

#[test]
fn fake_repo_is_skipped() {
    let mut repo = FakeRepo::new();
    repo.skip_file_name("Cargo.lock").unwrap();
    repo.skip_full_path("/path/to/bar").unwrap();
    assert!(repo.is_skipped("/path/to/Cargo.lock").unwrap());
    assert!(repo.is_skipped("/path/to/bar").unwrap());
    assert!(!repo.is_skipped("/path/to/baz").unwrap());
}

#[test]
fn fake_repo_unknown_lists_are_errors() {
    let mut repo = FakeRepo::new();
    assert!(matches!(
        repo.add_ignored_for_extension("foo", "py"),
        Err(Error::UnknownExtension(_))
    ));
    assert!(matches!(
        repo.add_ignored_for_file("foo", "/a/b"),
        Err(Error::UnknownFile(_))
    ));
}

#[test]
fn fake_repo_remove_and_unskip() {
    let mut repo = FakeRepo::new();
    repo.add_ignored("foo").unwrap();
    assert!(repo.lookup_word("foo", "-'").unwrap());
    repo.remove_ignored("foo").unwrap();
    assert!(!repo.lookup_word("foo", "-'").unwrap());

    repo.add_extension("py").unwrap();
    repo.add_extension("rs").unwrap();
    repo.add_ignored_for_extension("foo", "py").unwrap();
    repo.add_ignored_for_extension("foo", "rs").unwrap();
    repo.remove_ignored_for_extension("foo", "py").unwrap();
    assert!(!repo.lookup_word("foo", "foo.py").unwrap());
    assert!(repo.lookup_word("foo", "foo.rs").unwrap());

    repo.add_file("/path/to/one").unwrap();
    repo.add_file("/path/to/two").unwrap();
    repo.add_ignored_for_file("bar", "/path/to/one").unwrap();
    repo.add_ignored_for_file("bar", "/path/to/two").unwrap();
    repo.remove_ignored_for_file("bar", "/path/to/one").unwrap();
    assert!(!repo.lookup_word("bar", "/path/to/one").unwrap());
    assert!(repo.lookup_word("bar", "/path/to/two").unwrap());

    repo.skip_file_name("Cargo.lock").unwrap();
    assert!(repo.is_skipped("/path/to/Cargo.lock").unwrap());
    repo.unskip_file_name("Cargo.lock").unwrap();
    assert!(!repo.is_skipped("/path/to/Cargo.lock").unwrap());

    repo.skip_full_path("/path/to/foo").unwrap();
    assert!(repo.is_skipped("/path/to/foo").unwrap());
    repo.unskip_full_path("/path/to/foo").unwrap();
    assert!(!repo.is_skipped("/path/to/foo").unwrap());
}

#[test]
fn fake_repo_add_word() {
    let mut repo = FakeRepo::new();
    repo.add_word("foo", &AddFor::NaturalLanguage).unwrap();
    assert!(repo.is_ignored("foo").unwrap());
    assert!(matches!(
        repo.add_word("foo", &AddFor::File(2)),
        Err(Error::NotImplemented(_))
    ));
    assert_eq!(repo.lookup_extension("py").unwrap(), None);
}

#[test]
fn fake_repo_insert_ignored_words() {
    let mut repo = FakeRepo::new();
    repo.insert_ignored_words(&vec!["one".to_string(), "two".to_string()])
        .unwrap();
    assert!(repo.is_ignored("one").unwrap());
    assert!(repo.is_ignored("two").unwrap());
    assert!(!repo.is_ignored("three").unwrap());
}
