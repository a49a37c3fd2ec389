use std::cell::RefCell;
use std::collections::VecDeque;

use skyspell::error::Error;
use skyspell::handler::{add_for_choice, choice_of, Choice, Handler};
use skyspell::interactor::Interactor;
use skyspell::repo::{AddFor, FakeRepo, Repo};

struct ScriptedInteractor {
    letters: RefCell<VecDeque<String>>,
    confirmations: RefCell<VecDeque<bool>>,
}

impl ScriptedInteractor {
    fn new(letters: &[&str], confirmations: &[bool]) -> Self {
        Self {
            letters: RefCell::new(letters.iter().map(|s| s.to_string()).collect()),
            confirmations: RefCell::new(confirmations.iter().copied().collect()),
        }
    }
}

impl Interactor for ScriptedInteractor {
    fn input(&self, _prompt: &str) -> String {
        panic!("no text expected")
    }

    fn input_letter(&self, _prompt: &str, _choices: &str) -> String {
        self.letters.borrow_mut().pop_front().expect("a letter")
    }

    fn select(&self, _prompt: &str, _choices: &[&str]) -> Option<usize> {
        panic!("no selection expected")
    }

    fn confirm(&self, _prompt: &str) -> bool {
        self.confirmations.borrow_mut().pop_front().expect("a confirmation")
    }

    fn info(&self, message: &str) {
        println!("{}", message);
    }

    fn error(&self, message: &str) {
        println!("{}", message);
    }
}

#[test]
fn choice_of_each_letter() {
    assert!(matches!(choice_of("n"), Some(Choice::NaturalLanguage)));
    assert!(matches!(choice_of("p"), Some(Choice::ProgrammingLanguage)));
    assert!(matches!(choice_of("f"), Some(Choice::File)));
    assert!(matches!(choice_of("q"), Some(Choice::Quit)));
    assert!(choice_of("x").is_none());
    assert!(choice_of("").is_none());
}

#[test]
fn add_for_each_choice() {
    assert!(matches!(
        add_for_choice(Some(Choice::NaturalLanguage), "n".to_string(), None),
        Ok(AddFor::NaturalLanguage)
    ));
    assert!(matches!(
        add_for_choice(Some(Choice::ProgrammingLanguage), "p".to_string(), Some(7)),
        Ok(AddFor::ProgrammingLanguage(7))
    ));
    assert!(matches!(
        add_for_choice(Some(Choice::ProgrammingLanguage), "p".to_string(), None),
        Err(Error::NotImplemented(_))
    ));
    assert!(matches!(
        add_for_choice(Some(Choice::File), "f".to_string(), None),
        Ok(AddFor::File(2))
    ));
    assert!(matches!(
        add_for_choice(Some(Choice::Quit), "q".to_string(), None),
        Err(Error::Interrupted)
    ));
    match add_for_choice(None, "z".to_string(), None) {
        Err(Error::UnexpectedAnswer(s)) => assert_eq!(s, "z"),
        _ => panic!("expected an unexpected answer"),
    }
}

#[test]
fn handle_natural_language_adds_to_global_list() {
    let mut repo = FakeRepo::new();
    {
        let interactor = ScriptedInteractor::new(&["n"], &[]);
        let mut handler = Handler::new(&mut repo, interactor);
        handler.handle("foo.py", (1, 2), "foobar").unwrap();
    }
    assert!(repo.is_ignored("foobar").unwrap());
}

#[test]
fn handle_quit_is_interrupted() {
    let mut repo = FakeRepo::new();
    {
        let interactor = ScriptedInteractor::new(&["q"], &[]);
        let mut handler = Handler::new(&mut repo, interactor);
        assert!(matches!(
            handler.handle("foo.py", (1, 2), "foobar"),
            Err(Error::Interrupted)
        ));
    }
    assert!(!repo.is_ignored("foobar").unwrap());
}

#[test]
fn handle_programming_language_with_unknown_extension() {
    let mut repo = FakeRepo::new();
    {
        let interactor = ScriptedInteractor::new(&["p"], &[false]);
        let mut handler = Handler::new(&mut repo, interactor);
        assert!(matches!(
            handler.handle("foo.py", (1, 2), "foobar"),
            Err(Error::NotImplemented(_))
        ));
    }
    assert!(!repo.is_ignored("foobar").unwrap());
}

#[test]
fn get_ext_of_paths() {
    let mut repo = FakeRepo::new();
    let handler = Handler::new(&mut repo, ScriptedInteractor::new(&[], &[]));
    assert_eq!(handler.get_ext("path/to/foo.py"), Some("py".to_string()));
    assert_eq!(handler.get_ext("path/to/Makefile"), None);
}
