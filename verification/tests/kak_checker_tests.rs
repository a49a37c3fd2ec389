use std::cell::RefCell;
use std::collections::HashMap;

use skyspell::checker::Checker;
use skyspell::dictionary::FakeDictionary;
use skyspell::error::Error;
use skyspell::kak::checker::KakouneChecker;
use skyspell::kak::cli::{parse_line_selection, suggestion_menu, Buffer, KakCli};
use skyspell::kak::io::{Env, KakouneIO, OperatingSystemIO};
use skyspell::project::{ProjectPath, RelativePath};
use skyspell::repository::{FakeRepository, Repository};
use skyspell::tokens::TokenProcessor;

struct FakeIO {
    env: HashMap<String, String>,
    stdout: RefCell<String>,
}

impl OperatingSystemIO for FakeIO {
    fn env(&self) -> Env {
        unreachable!()
    }

    fn get_env_var(&self, key: &str) -> Result<String, Error> {
        match self.env.get(key) {
            Some(v) => Ok(v.to_owned()),
            None => Err(Error::Outside(format!("No such key: {}", key))),
        }
    }

    fn print(&self, text: &str) {
        self.stdout.borrow_mut().push_str(text)
    }
}

type FakeChecker = KakouneChecker<FakeDictionary, FakeRepository, FakeIO>;

const PROJECT: &str = "/tmp/test-skyspell";

fn new_fake_io(vars: &[(&str, &str)]) -> KakouneIO<FakeIO> {
    let mut env = HashMap::new();
    env.insert("kak_opt_skyspell_project".to_string(), PROJECT.to_string());
    env.insert("kak_opt_skyspell_underline_errors".to_string(), "false".to_string());
    for (k, v) in vars {
        env.insert(k.to_string(), v.to_string());
    }
    KakouneIO::new(FakeIO {
        env,
        stdout: RefCell::new(String::new()),
    })
}

fn new_fake_checker(vars: &[(&str, &str)]) -> FakeChecker {
    let project = ProjectPath::new(PROJECT);
    KakouneChecker::new(project, FakeDictionary::new(), FakeRepository::new(), new_fake_io(vars))
        .unwrap()
}

fn get_output(checker: &FakeChecker) -> String {
    checker.kakoune_io().os_io().stdout.borrow().to_string()
}

fn ensure_path(checker: &FakeChecker, relative_name: &str) -> RelativePath {
    let project_path = checker.project().path();
    RelativePath::new(project_path, &format!("{}/{}", PROJECT, relative_name)).unwrap()
}

#[test]
fn test_write_errors_in_spelling_buffer() {
    let mut checker = new_fake_checker(&[]);
    let hello_js = ensure_path(&checker, "hello.js");
    checker
        .handle_error("foo", &hello_js, &(hello_js.as_str().to_string(), 2, 4))
        .unwrap();
    checker.write_spelling_buffer();
    let actual = get_output(&checker);
    let expected = format!(
        "edit -scratch *spelling*
execute-keys \\% <ret> d i %{{{}/hello.js: 2.5,2.7 foo<ret>}} <esc> gg
",
        PROJECT
    );
    assert_eq!(actual, expected);
}

#[test]
fn test_write_errors_as_buffer_options() {
    let mut checker = new_fake_checker(&[]);
    let foo_js = ensure_path(&checker, "foo.js");
    let bar_js = ensure_path(&checker, "bar.js");
    checker
        .handle_error("foo", &foo_js, &(foo_js.as_str().to_string(), 2, 4))
        .unwrap();
    checker
        .handle_error("bar", &foo_js, &(foo_js.as_str().to_string(), 3, 6))
        .unwrap();
    checker
        .handle_error("spam", &bar_js, &(bar_js.as_str().to_string(), 1, 5))
        .unwrap();

    let timestamp = 42;
    checker.write_ranges(timestamp).unwrap();

    let actual = get_output(&checker);
    let expected = "\
    set-option buffer=foo.js spell_errors 42 2.5+3|Error 3.7+3|Error \n\
    set-option buffer=bar.js spell_errors 42 1.6+4|Error \n";
    assert_eq!(actual, expected);
}

#[test]
fn write_status_counts_errors() {
    let mut checker = new_fake_checker(&[]);
    checker.write_status();
    assert_eq!(
        get_output(&checker),
        "set global skyspell_error_count 0\necho -markup /tmp/test-skyspell: {green}No spelling errors\n"
    );
    let mut checker2 = new_fake_checker(&[]);
    let foo = ensure_path(&checker2, "foo.js");
    checker2.handle_error("a", &foo, &("foo.js".to_string(), 1, 1)).unwrap();
    checker2.handle_error("b", &foo, &("foo.js".to_string(), 1, 3)).unwrap();
    checker2.write_status();
    assert_eq!(
        get_output(&checker2),
        "set global skyspell_error_count 2\necho -markup /tmp/test-skyspell: {red}2 spelling errors\n"
    );
    checker.handle_error("c", &foo, &("foo.js".to_string(), 1, 1)).unwrap();
    assert_eq!(checker.error_count(), 1);
}

#[test]
fn underlined_errors() {
    let mut checker = new_fake_checker(&[("kak_opt_skyspell_underline_errors", "true")]);
    let foo = ensure_path(&checker, "foo.js");
    checker.handle_error("foo", &foo, &("foo.js".to_string(), 2, 4)).unwrap();
    checker.write_ranges(7).unwrap();
    assert_eq!(
        get_output(&checker),
        "set-face buffer=foo.js Error ,,red+c\nset-option buffer=foo.js spell_errors 7 2.5+3|Error \n"
    );
}

#[test]
fn line_selection_parses_back() {
    let ls = parse_line_selection("/tmp/test-skyspell/hello.js: 2.5,2.7 foo").unwrap();
    assert_eq!(ls.path, "/tmp/test-skyspell/hello.js");
    assert_eq!(ls.selection, "2.5,2.7");
    assert_eq!(ls.word, "foo");
    assert!(matches!(
        parse_line_selection("no separator"),
        Err(Error::SelectionWithoutPath)
    ));
    assert!(matches!(
        parse_line_selection("path: nospace"),
        Err(Error::SelectionWithoutWord)
    ));
}

#[test]
fn suggestion_menu_text() {
    let menu = suggestion_menu(&vec!["hello".to_string()]);
    assert_eq!(
        menu,
        "menu %{hello} %{execute-keys -itersel %{chello<esc>be} :write <ret> :skyspell-check <ret>} "
    );
}

#[test]
fn kak_add_global_and_check() {
    let selection = format!("{}/foo.txt: 1.1,1.3 foo", PROJECT);
    let checker = new_fake_checker(&[("kak_selection", &selection), ("kak_timestamp", "3")]);
    let mut cli = KakCli::new(checker);
    cli.add_global().unwrap();
    assert!(cli.checker().repository().is_ignored("foo").unwrap());
    let output = cli.checker().kakoune_io().os_io().stdout.borrow().to_string();
    assert_eq!(
        output,
        "write-all\nskyspell-check\nskyspell-list\necho '\"foo\" added to global ignore list'"
    );
}

#[test]
fn kak_add_extension_needs_an_extension() {
    let selection = format!("{}/Makefile: 1.1,1.3 foo", PROJECT);
    let checker = new_fake_checker(&[("kak_selection", &selection)]);
    let mut cli = KakCli::new(checker);
    assert!(matches!(cli.add_extension(), Err(Error::NoExtension)));
}

#[test]
fn kak_check_buffers() {
    let checker = new_fake_checker(&[("kak_timestamp", "3")]);
    let mut cli = KakCli::new(checker);
    let file = TokenProcessor::new(
        &format!("{}/foo.txt", PROJECT),
        vec!["hello wrld".to_string()],
    );
    let buffers = vec![
        Buffer {
            name: "*debug*".to_string(),
            file: None,
        },
        Buffer {
            name: "foo.txt".to_string(),
            file: Some(file),
        },
    ];
    cli.check(&buffers).unwrap();
    assert_eq!(cli.checker().error_count(), 2);
    let output = cli.checker().kakoune_io().os_io().stdout.borrow().to_string();
    assert!(output.starts_with("unset-option buffer=foo.txt spell_errors\n"));
    assert!(output.contains("/tmp/test-skyspell/foo.txt: 1.7,1.10 wrld<ret>"));
}

#[test]
fn kak_goto_next_error() {
    let checker = new_fake_checker(&[("kak_cursor_line", "1"), ("kak_cursor_column", "21")]);
    let cli = KakCli::new(checker);
    cli.goto_next_error("42 1.12,1.19|Error 2.19,2.27|Error").unwrap();
    let output = cli.checker().kakoune_io().os_io().stdout.borrow().to_string();
    assert_eq!(output, "select 2.19,2.27\n");
    assert!(cli.goto_previous_error("42 1.12").is_err());
}

#[test]
fn kak_check_reports_only_unknown_words() {
    let mut checker = new_fake_checker(&[("kak_timestamp", "3")]);
    checker.dictionary_mut().add_known("hello");
    let mut cli = KakCli::new(checker);
    let file = TokenProcessor::new(
        &format!("{}/foo.txt", PROJECT),
        vec!["hello wrld".to_string(), "hello".to_string()],
    );
    let buffers = vec![Buffer {
        name: "foo.txt".to_string(),
        file: Some(file),
    }];
    cli.check(&buffers).unwrap();
    assert_eq!(cli.checker().error_count(), 1);
    let output = cli.checker().kakoune_io().os_io().stdout.borrow().to_string();
    assert!(output.contains("/tmp/test-skyspell/foo.txt: 1.7,1.10 wrld<ret>"));
    assert!(!output.contains(" hello<ret>"));
}

#[test]
fn kak_check_leaves_out_files_outside_the_project_and_skipped_files() {
    let mut checker = new_fake_checker(&[("kak_timestamp", "3")]);
    checker.repository_mut().skip_file_name("Cargo.lock").unwrap();
    let mut cli = KakCli::new(checker);
    let outside = TokenProcessor::new("/elsewhere/notes.txt", vec!["zzzz".to_string()]);
    let skipped = TokenProcessor::new(
        &format!("{}/Cargo.lock", PROJECT),
        vec!["qqqq".to_string()],
    );
    let buffers = vec![
        Buffer {
            name: "notes.txt".to_string(),
            file: Some(outside),
        },
        Buffer {
            name: "Cargo.lock".to_string(),
            file: Some(skipped),
        },
    ];
    cli.check(&buffers).unwrap();
    assert_eq!(cli.checker().error_count(), 0);
}
