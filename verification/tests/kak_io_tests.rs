use std::cell::RefCell;
use std::collections::HashMap;

use skyspell::error::Error;
use skyspell::kak::helpers::Helper;
use skyspell::kak::io::{Env, KakouneIO, OperatingSystemIO};

struct FakeIO {
    env: HashMap<String, String>,
    stdout: RefCell<String>,
}

impl FakeIO {
    fn new() -> Self {
        Self {
            env: HashMap::new(),
            stdout: RefCell::new(String::new()),
        }
    }
}

impl OperatingSystemIO for FakeIO {
    fn env(&self) -> Env {
        unreachable!()
    }

    fn get_env_var(&self, key: &str) -> Result<String, Error> {
        match self.env.get(key) {
            Some(v) => Ok(v.to_owned()),
            None => Err(Error::Outside(format!("No such key: {}", key))),
        }
    }

    fn print(&self, text: &str) {
        self.stdout.borrow_mut().push_str(text)
    }
}

type FakeKakouneIO = KakouneIO<FakeIO>;

fn get_output(kakoune_io: &FakeKakouneIO) -> String {
    kakoune_io.os_io().stdout.borrow().to_string()
}

fn set_env_var(kakoune_io: &mut FakeKakouneIO, key: &str, value: &str) {
    kakoune_io
        .os_io_mut()
        .env
        .insert(key.to_string(), value.to_string());
}

fn set_option(kakoune_io: &mut FakeKakouneIO, key: &str, value: &str) {
    let key = format!("kak_opt_{}", key);
    set_env_var(kakoune_io, &key, value);
}

fn set_selection(kakoune_io: &mut FakeKakouneIO, text: &str) {
    set_env_var(kakoune_io, "kak_selection", text)
}

fn set_cursor(kakoune_io: &mut FakeKakouneIO, line: usize, column: usize) {
    set_env_var(kakoune_io, "kak_cursor_line", &line.to_string());
    set_env_var(kakoune_io, "kak_cursor_column", &column.to_string());
}

fn new_fake_io() -> FakeKakouneIO {
    KakouneIO::new(FakeIO::new())
}

#[test]
fn test_debug() {
    let kakoune_io = new_fake_io();
    kakoune_io.debug("This is a debug message");
    let actual = get_output(&kakoune_io);
    assert_eq!(actual, "echo -debug This is a debug message");
}

#[test]
fn test_get_variable_no_such_key() {
    let kakoune_io = new_fake_io();
    let actual = kakoune_io.get_variable("no-such-key");
    assert!(actual.is_err());
}

#[test]
fn test_get_variable_set_in_fake_io() {
    let mut kakoune_io = new_fake_io();
    set_env_var(&mut kakoune_io, "my_key", "my_value");
    let actual = kakoune_io.get_variable("my_key").unwrap();
    assert_eq!(actual, "my_value");
}

#[test]
fn test_get_option_no_such_key() {
    let kakoune_io = new_fake_io();
    let actual = kakoune_io.get_option("no-such-key");
    assert!(actual.is_err());
}

#[test]
fn test_get_option_set_in_fake_io() {
    let mut kakoune_io = new_fake_io();
    set_option(&mut kakoune_io, "my_opt", "my_value");
    let actual = kakoune_io.get_option("my_opt").unwrap();
    assert_eq!(actual, "my_value");
}

#[test]
fn test_parse_usize_happy() {
    let kakoune_io = new_fake_io();
    let actual = kakoune_io.parse_usize("42").unwrap();
    assert_eq!(actual, 42usize);
}

#[test]
fn test_parse_usize_invalid() {
    let kakoune_io = new_fake_io();
    let actual = kakoune_io.parse_usize("-3");
    assert!(actual.is_err());
}

#[test]
fn test_get_cursor_set_in_fake() {
    let mut kakoune_io = new_fake_io();
    set_cursor(&mut kakoune_io, 3, 45);
    let actual = kakoune_io.get_cursor().unwrap();
    assert_eq!(actual, (3, 45));
}

#[test]
fn test_parse_range_spec_empty() {
    let kakoune_io = new_fake_io();
    let actual = kakoune_io.parse_range_spec("0").unwrap();
    assert!(actual.is_empty());
}

#[test]
fn test_parse_range_spec_not_empty() {
    let kakoune_io = new_fake_io();
    let actual = kakoune_io
        .parse_range_spec("42 1.4,1.13|Error 1.15,1.23|Error")
        .unwrap();
    assert_eq!(actual, vec![(1, 4, 13), (1, 15, 23)]);
}

#[test]
fn test_get_selection_missing_key() {
    let kakoune_io = new_fake_io();
    let err = kakoune_io.get_selection().unwrap_err();
    assert_eq!(err.to_string(), "No such key: kak_selection");
}

#[test]
fn test_get_selection_set_in_fake() {
    let mut kakoune_io = new_fake_io();
    set_selection(&mut kakoune_io, "selected text");
    let actual = kakoune_io.get_selection().unwrap();
    assert_eq!(actual, "selected text");
}

#[test]
fn test_get_project_missing_key() {
    let kakoune_io = new_fake_io();
    let err = kakoune_io.get_project().unwrap_err();
    assert_eq!(err.to_string(), "No such key: kak_opt_skyspell_project");
}

#[test]
fn test_goto_previous_buffer() {
    let kakoune_io = new_fake_io();
    kakoune_io.goto_previous_buffer();
    assert_eq!(get_output(&kakoune_io), "execute-keys ga\n");
}

#[test]
fn test_get_previous_selection() {
    let kakoune_io = new_fake_io();
    let pos = (1, 21);
    let ranges = [(1, 12, 19), (2, 19, 27)];
    let actual = kakoune_io.get_previous_selection(pos, &ranges).unwrap();
    assert_eq!(actual, &(1, 12, 19));
}

#[test]
fn test_get_next_selection() {
    let kakoune_io = new_fake_io();
    let pos = (1, 21);
    let ranges = [(1, 12, 19), (2, 19, 27)];
    let actual = kakoune_io.get_next_selection(pos, &ranges).unwrap();
    assert_eq!(actual, &(2, 19, 27));
}

#[test]
fn goto_next_() {
    let pos = (1, 21);
    let ranges = [(1, 12, 19), (2, 19, 27)];
    let helper = Helper::new();
    let actual = helper.get_previous_selection(pos, &ranges).unwrap();
    assert_eq!(actual, &(1, 12, 19));
}

#[test]
fn next_selection_wraps_to_first_range() {
    let helper = Helper::new();
    let ranges = [(1, 12, 19), (2, 19, 27)];
    let actual = helper.get_next_selection((5, 1), &ranges).unwrap();
    assert_eq!(actual, &(1, 12, 19));
}

#[test]
fn previous_selection_wraps_to_last_range() {
    let helper = Helper::new();
    let ranges = [(1, 12, 19), (2, 19, 27)];
    let actual = helper.get_previous_selection((1, 1), &ranges).unwrap();
    assert_eq!(actual, &(2, 19, 27));
}

#[test]
fn selection_in_no_range_is_none() {
    let helper = Helper::new();
    assert!(helper.get_next_selection((1, 1), &[]).is_none());
    assert!(helper.get_previous_selection((1, 1), &[]).is_none());
}

#[test]
fn parse_cursor_errors() {
    let helper = Helper::new();
    assert!(matches!(helper.parse_cursor("12"), Err(Error::CursorWithoutDot)));
    assert!(matches!(helper.parse_cursor("a.2"), Err(Error::InvalidCursorStart)));
    assert!(matches!(helper.parse_cursor("1.b"), Err(Error::InvalidCursorEnd)));
    assert_eq!(helper.parse_cursor("3.45").unwrap(), (3, 45));
}

#[test]
fn parse_range_errors() {
    let helper = Helper::new();
    assert!(matches!(helper.parse_range("1.4,1.13"), Err(Error::RangeWithoutFace)));
    assert!(matches!(helper.parse_range("1.4|Error"), Err(Error::RangeWithoutComma)));
    assert_eq!(helper.parse_range("2.4,2.13|Error").unwrap(), (2, 4, 13));
}

#[test]
fn parse_usize_error_message() {
    let helper = Helper::new();
    let err = helper.parse_usize("-3").unwrap_err();
    assert_eq!(err.to_string(), "could not parse '-3' as a positive number");
}

#[test]
fn boolean_option() {
    let mut kakoune_io = new_fake_io();
    set_option(&mut kakoune_io, "flag", "true");
    assert!(kakoune_io.get_boolean_option("flag").unwrap());
    set_option(&mut kakoune_io, "flag", "false");
    assert!(!kakoune_io.get_boolean_option("flag").unwrap());
    set_option(&mut kakoune_io, "flag", "yes");
    assert!(matches!(
        kakoune_io.get_boolean_option("flag"),
        Err(Error::InvalidBoolean(_))
    ));
}

#[test]
fn test_get_project_set_in_fake() {
    let mut kakoune_io = new_fake_io();
    set_option(&mut kakoune_io, "skyspell_project", "/path/to/project");
    let actual = kakoune_io.get_project().unwrap();
    assert_eq!(actual, "/path/to/project");
}

#[test]
fn numbers_written_are_read_back() {
    let helper = Helper::new();
    for n in [0usize, 7, 10, 42, 1234567, usize::MAX] {
        let written = skyspell::text::usize_to_string(n);
        assert_eq!(written, n.to_string());
        assert_eq!(helper.parse_usize(&written).unwrap(), n);
    }
    assert!(helper.parse_usize("18446744073709551616").is_err());
    assert_eq!(helper.parse_usize("+5").unwrap(), 5);
    assert!(helper.parse_usize("").is_err());
}
