use skyspell::token::{extract_word, Tokenizer};

fn get_tokens(text: &str) -> Vec<&str> {
    Tokenizer::new(text).words().iter().map(|(x, _index)| *x).collect()
}

#[test]
fn token_test_abbrev_re() {
    let re = regex::Regex::new(r"(\p{Lu}+)\p{Lu}\p{Ll}").unwrap();
    assert_eq!(
        re.captures("HTTPError").unwrap().get(1).unwrap().as_str(),
        "HTTP"
    );
}

#[test]
fn token_test_skip_urls() {
    assert!(extract_word("https://foo.com").is_none());
}

#[test]
fn token_test_skip_emails() {
    assert!(extract_word("foo@acme.corp").is_none());
}

#[test]
fn token_test_skip_mentions() {
    assert!(extract_word("@d_merej").is_none());
}

#[test]
fn token_test_skip_uuid() {
    assert!(extract_word("ee54764c-a400-4f56-b335-fe16daaeb114").is_none());
}

#[test]
fn token_test_skip_sha1s() {
    assert!(extract_word("154b879").is_none());
}

#[test]
fn token_test_remove_numbers() {
    assert_eq!(extract_word("foo32").unwrap(), ("foo", 0));
}

#[test]
fn token_test_remove_numbers_2() {
    assert_eq!(extract_word("22xy23").unwrap(), ("xy", 2));
}

#[test]
fn token_test_snake_case() {
    assert_eq!(extract_word("foo_bar").unwrap(), ("foo", 0));
}

#[test]
fn token_test_snake_case_2() {
    assert_eq!(extract_word("__foo").unwrap(), ("foo", 2));
}

#[test]
fn token_test_snake_case_3() {
    assert_eq!(extract_word("foo_").unwrap(), ("foo", 0));
}

#[test]
fn token_test_ada_case() {
    assert_eq!(extract_word("Print_Newline").unwrap(), ("Print", 0));
}

#[test]
fn token_test_camel_case() {
    assert_eq!(extract_word("fooBar").unwrap(), ("foo", 0));
}

#[test]
fn token_test_pascal_case() {
    assert_eq!(extract_word("FooBar").unwrap(), ("Foo", 0));
}

#[test]
fn token_test_split_identifiers() {
    let text = "hello world foo-bar x y https://toto.com  spam42 'dry-run', foo@acme.corp";
    let actual = get_tokens(text);
    assert_eq!(
        &actual,
        &["hello", "world", "foo", "bar", "x", "y", "spam", "dry", "run"]
    );
}

#[test]
fn token_test_skip_youtube_url() {
    let text = "let url = https://www.youtube.com/watch?v=9LfmrkyP81M; let x = 42";
    let actual = get_tokens(text);
    assert_eq!(&actual, &["let", "url", "let", "x"],);
}

#[test]
fn token_test_split_camel() {
    let actual = get_tokens("fooBarBaz");
    assert_eq!(&actual, &["foo", "Bar", "Baz"]);
}

#[test]
fn token_test_split_screaming() {
    let actual = get_tokens("SCREAMING_CONSTANT");
    assert_eq!(&actual, &["SCREAMING", "CONSTANT"]);
}

#[test]
fn token_test_split_abbrev() {
    let actual = get_tokens("HttpError");
    assert_eq!(&actual, &["Http", "Error"]);
}

#[test]
fn token_test_split_abbrev_2() {
    let actual = get_tokens("HTTPError");
    assert_eq!(&actual, &["HTTP", "Error"]);
}

#[test]
fn token_test_split_abbrev_3() {
    let actual = get_tokens("URLs");
    assert_eq!(&actual, &["URL"]);
}

#[test]
fn token_test_single_upper_case_letter() {
    let actual = get_tokens("I am");
    assert_eq!(&actual, &["I", "am"]);
}

#[test]
fn token_test_use_sqlite() {
    let text = "use diesel::sqlite::SqliteConnection;";
    let actual = get_tokens(text);
    assert_eq!(
        &actual,
        &["use", "diesel", "sqlite", "Sqlite", "Connection"]
    );
}
