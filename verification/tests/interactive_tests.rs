use std::cell::RefCell;
use std::collections::VecDeque;

use skyspell::checker::interactive::{Answer, InteractiveChecker};
use skyspell::checker::non_interactive::NonInteractiveChecker;
use skyspell::checker::Checker;
use skyspell::dictionary::FakeDictionary;
use skyspell::error::Error;
use skyspell::interactor::Interactor;
use skyspell::project::{ProjectPath, RelativePath};
use skyspell::repository::{FakeRepository, Repository};

#[derive(Debug)]
enum Recorded {
    Text(String),
    Int(Option<usize>),
    Bool(bool),
}

struct FakeInteractor {
    answers: RefCell<VecDeque<Recorded>>,
}

impl FakeInteractor {
    fn new() -> Self {
        Self {
            answers: RefCell::new(VecDeque::new()),
        }
    }

    fn push_text(&self, text: &str) {
        self.answers
            .borrow_mut()
            .push_front(Recorded::Text(text.to_string()))
    }

    fn push_int(&self, i: usize) {
        self.answers.borrow_mut().push_front(Recorded::Int(Some(i)))
    }

    fn push_bool(&self, b: bool) {
        self.answers.borrow_mut().push_front(Recorded::Bool(b))
    }

    fn is_empty(&self) -> bool {
        self.answers.borrow().is_empty()
    }

    fn pop(&self) -> Recorded {
        self.answers
            .borrow_mut()
            .pop_back()
            .expect("should have got a recorded answer")
    }
}

impl Interactor for FakeInteractor {
    fn input(&self, prompt: &str) -> String {
        println!("{} >", prompt);
        match self.pop() {
            Recorded::Text(t) => t,
            a => panic!("Should have got a text answer, got {:?}", a),
        }
    }

    fn input_letter(&self, prompt: &str, choices: &str) -> String {
        println!("{}", prompt);
        match self.pop() {
            Recorded::Text(s) => {
                if !choices.contains(&s) {
                    panic!("should have got an answer matching the possible choices");
                }
                s
            }
            a => panic!("Should have got a text answer, got {:?}", a),
        }
    }

    fn select(&self, prompt: &str, choices: &[&str]) -> Option<usize> {
        for choice in choices {
            println!("{}", choice);
        }
        println!("{} >", prompt);
        match self.pop() {
            Recorded::Int(i) => i,
            a => panic!("Should have got a int answer, got {:?}", a),
        }
    }

    fn confirm(&self, prompt: &str) -> bool {
        println!("{} >", prompt);
        match self.pop() {
            Recorded::Bool(b) => b,
            a => panic!("Should have got a boolean answer, got {:?}", a),
        }
    }

    fn info(&self, message: &str) {
        println!("{}", message);
    }

    fn error(&self, message: &str) {
        println!("{}", message);
    }
}

#[test]
fn test_fake_interactor_replay_recorded_answers() {
    let fake_interactor = FakeInteractor::new();
    fake_interactor.push_text("Alice");
    fake_interactor.push_text("blue");
    fake_interactor.push_int(1);
    fake_interactor.push_bool(true);
    fake_interactor.push_text("q");

    let name = fake_interactor.input("What is your name");
    let color = fake_interactor.input("What is your favorite color");
    let index = fake_interactor.select("Coffee or tea?", &["coffee", "tea"]);
    let sugar = fake_interactor.confirm("With sugar?");
    let quit = fake_interactor.input_letter("What now?", "qyn");

    assert_eq!(name, "Alice");
    assert_eq!(color, "blue");
    assert_eq!(index, Some(1));
    assert!(sugar);
    assert_eq!(quit, "q");
}

#[test]
#[should_panic]
fn test_fake_interactor_on_missing_answer() {
    let fake_interactor = FakeInteractor::new();
    fake_interactor.push_text("Alice");

    fake_interactor.input("What is your name");
    fake_interactor.input("What is your favorite color");
}

type TestChecker = InteractiveChecker<FakeInteractor, FakeDictionary, FakeRepository>;

struct TestApp {
    checker: TestChecker,
}

const PROJECT: &str = "/tmp/test-skyspell/project";

impl TestApp {
    fn new() -> Self {
        let project_path = ProjectPath::new(PROJECT);
        let checker = TestChecker::new(
            project_path,
            FakeInteractor::new(),
            FakeDictionary::new(),
            FakeRepository::new(),
        )
        .unwrap();
        Self { checker }
    }

    fn add_known(&mut self, words: &[&str]) {
        for word in words.iter() {
            self.checker.dictionary_mut().add_known(word);
        }
    }

    fn push_text(&mut self, answer: &str) {
        self.checker.interactor().push_text(answer)
    }

    fn to_relative_path(&self, path: &str) -> RelativePath {
        let project_path = self.checker.project().path();
        RelativePath::new(project_path, &format!("{}/{}", PROJECT, path)).unwrap()
    }

    fn handle_token(&mut self, token: &str, relative_name: &str) {
        let relative_path = self.to_relative_path(relative_name);
        let context = &(3, 42);
        self.checker
            .handle_token(token, &relative_path, context)
            .unwrap()
    }

    fn is_ignored(&self, word: &str) -> bool {
        self.checker.repository().is_ignored(word).unwrap()
    }

    fn is_skipped_file_name(&self, file_name: &str) -> bool {
        self.checker
            .repository()
            .is_skipped_file_name(file_name)
            .unwrap()
    }

    fn is_skipped_path(&self, relative_name: &str) -> bool {
        let project_id = self.checker.project().id();
        let relative_path = self.to_relative_path(relative_name);
        self.checker
            .repository()
            .is_skipped_path(project_id, &relative_path)
            .unwrap()
    }

    fn is_ignored_for_extension(&self, word: &str, extension: &str) -> bool {
        self.checker
            .repository()
            .is_ignored_for_extension(word, extension)
            .unwrap()
    }

    fn is_ignored_for_project(&self, word: &str) -> bool {
        let project_id = self.checker.project().id();
        self.checker
            .repository()
            .is_ignored_for_project(word, project_id)
            .unwrap()
    }

    fn is_ignored_for_path(&self, word: &str, relative_name: &str) -> bool {
        let project_id = self.checker.project().id();
        let relative_path = self.to_relative_path(relative_name);
        self.checker
            .repository()
            .is_ignored_for_path(word, project_id, &relative_path)
            .unwrap()
    }

    fn end(&self) {
        if !self.checker.interactor().is_empty() {
            panic!("Not all answered consumed by the test");
        }
    }
}

#[test]
fn test_adding_token_to_global_ignore() {
    let mut app = TestApp::new();
    app.add_known(&["hello", "world"]);
    app.push_text("a");

    app.handle_token("foo", "foo.txt");

    assert!(app.is_ignored("foo"));
    app.handle_token("foo", "other.ext");

    app.end();
}

#[test]
fn test_adding_token_to_extension() {
    let mut app = TestApp::new();
    app.add_known(&["hello", "world"]);
    app.push_text("e");

    app.handle_token("defaultdict", "hello.py");

    assert!(app.is_ignored_for_extension("defaultdict", "py"));
    app.handle_token("defaultdict", "bar.py");

    app.end();
}

#[test]
fn test_adding_token_to_project() {
    let mut app = TestApp::new();
    app.push_text("p");

    app.handle_token("foo", "foo.py");

    assert!(app.is_ignored_for_project("foo"));
    app.handle_token("foo", "foo.py");

    app.end()
}

#[test]
fn test_ignore_token_to_project_file() {
    let mut app = TestApp::new();
    app.push_text("f");

    app.handle_token("foo", "foo.py");

    assert!(app.is_ignored_for_path("foo", "foo.py"));
    app.handle_token("foo", "foo.py");

    app.end()
}

#[test]
fn test_adding_to_skipped_file_names() {
    let mut app = TestApp::new();
    app.add_known(&["hello", "world"]);
    app.push_text("n");

    app.handle_token("foo", "yarn.lock");

    assert!(app.is_skipped_file_name("yarn.lock"));
    app.handle_token("bar", "yarn.lock");

    app.end();
}

#[test]
fn test_adding_to_skipped_paths() {
    let mut app = TestApp::new();
    app.push_text("s");

    app.handle_token("foo", "foo.py");

    assert!(app.is_skipped_path("foo.py"));
    app.handle_token("bar", "foo.py");

    app.end();
}

#[test]
fn interactive_test_remember_skipped_tokens() {
    let mut app = TestApp::new();
    app.add_known(&["hello", "world"]);
    app.push_text("x");

    app.handle_token("foo", "foo.py");
    app.handle_token("foo", "foo.py");

    app.end();
}

#[test]
fn skipped_errors_make_the_check_fail() {
    let mut app = TestApp::new();
    assert!(app.checker.success().is_ok());
    app.push_text("x");
    app.handle_token("foo", "foo.py");
    assert!(matches!(app.checker.success(), Err(Error::SkippedErrors)));
    app.end();
}

#[test]
fn known_words_are_not_errors() {
    let mut app = TestApp::new();
    app.add_known(&["hello"]);
    app.handle_token("hello", "foo.py");
    app.end();
}

#[test]
fn quitting_interrupts_the_check() {
    let mut app = TestApp::new();
    app.push_text("q");
    let relative_path = app.to_relative_path("foo.py");
    let r = app.checker.handle_token("foo", &relative_path, &(1, 1));
    assert!(matches!(r, Err(Error::Interrupted)));
    app.end();
}

#[test]
fn no_extension_asks_again() {
    let mut app = TestApp::new();
    app.push_text("e");
    app.push_text("a");
    app.handle_token("foo", "Makefile");
    assert!(app.is_ignored("foo"));
    app.end();
}

#[test]
fn non_interactive_reports_errors() {
    let project_path = ProjectPath::new(PROJECT);
    let mut checker =
        NonInteractiveChecker::new(project_path, FakeDictionary::new(), FakeRepository::new())
            .unwrap();
    assert!(checker.success().is_ok());
    let relative_path =
        RelativePath::new(checker.project().path(), &format!("{}/src/foo.rs", PROJECT)).unwrap();
    checker
        .handle_token("fooo", &relative_path, &(3, 7))
        .unwrap();
    assert_eq!(checker.report(), &vec!["src/foo.rs:3:7 fooo".to_string()]);
    assert!(matches!(checker.success(), Err(Error::SpellingErrors)));
}

#[test]
fn extension_answer_on_a_file_without_extension_asks_again() {
    let mut app = TestApp::new();
    app.push_text("e");
    app.push_text("a");

    app.handle_token("foo", "Makefile");

    assert!(app.is_ignored("foo"));
    app.end();
}

#[test]
fn apply_answer_quit_changes_nothing() {
    let mut app = TestApp::new();
    let path = app.to_relative_path("foo.py");
    let outcome = app
        .checker
        .apply_answer(Some(Answer::Quit), "q".to_string(), &path, "foo");
    assert!(matches!(outcome, Err(Error::Interrupted)));
    assert_eq!(outcome.unwrap_err().to_string(), "Interrupted by user");
    assert!(!app.is_ignored("foo"));
    assert!(app.checker.success().is_ok());
}

#[test]
fn apply_answer_skip_error_remembers_it() {
    let mut app = TestApp::new();
    let path = app.to_relative_path("foo.py");
    let outcome = app
        .checker
        .apply_answer(Some(Answer::SkipError), "x".to_string(), &path, "foo");
    assert!(matches!(outcome, Ok(true)));
    assert!(!app.is_ignored("foo"));
    assert!(matches!(app.checker.success(), Err(Error::SkippedErrors)));
}

#[test]
fn apply_answer_without_file_name_or_extension_asks_again() {
    let mut app = TestApp::new();
    let path = app.to_relative_path("Makefile");
    let outcome = app
        .checker
        .apply_answer(Some(Answer::ExtensionIgnore), "e".to_string(), &path, "foo");
    assert!(matches!(outcome, Ok(false)));
    match app
        .checker
        .apply_answer(None, "z".to_string(), &path, "foo")
    {
        Err(Error::UnexpectedAnswer(l)) => assert_eq!(l, "z"),
        _ => panic!("expected an unexpected answer"),
    }
}

#[test]
fn each_answer_is_read_back_through_the_repository() {
    let mut app = TestApp::new();
    app.push_text("p");
    app.handle_token("foo", "foo.py");
    assert!(app.is_ignored_for_project("foo"));

    app.push_text("f");
    app.handle_token("bar", "bar.py");
    assert!(app.is_ignored_for_path("bar", "bar.py"));

    app.push_text("n");
    app.handle_token("baz", "yarn.lock");
    assert!(app.is_skipped_file_name("yarn.lock"));

    app.push_text("s");
    app.handle_token("qux", "data.txt");
    assert!(app.is_skipped_path("data.txt"));

    // skipped files and known rules ask nothing
    app.handle_token("other", "data.txt");
    app.handle_token("foo", "another.py");
    app.end();
}
