use public_mdbooks::model::{default_empty_string, languages, preprocessors};
use public_mdbooks::repo::from_url;
use public_mdbooks::text::{push_bool, push_decimal};

#[test]
fn from_url_github() {
    let repo = from_url("https://github.com/szabgab/rust-digger").unwrap();
    assert_eq!(repo.host(), "github.com");
    assert_eq!(repo.owner(), "szabgab");
    assert_eq!(repo.name(), "rust-digger");
    assert_eq!(repo.url(), "https://github.com/szabgab/rust-digger");
    assert_eq!(repo.path(), "github.com/szabgab/rust-digger");
}

#[test]
fn from_url_lowercases_and_drops_the_rest() {
    let repo = from_url("http://gitlab.com/Szabgab/Rust-Digger/tree/main/book").unwrap();
    assert_eq!(repo.url(), "https://gitlab.com/szabgab/rust-digger");
    assert_eq!(repo.path(), "gitlab.com/szabgab/rust-digger");
}

#[test]
fn from_url_other_hosts() {
    assert_eq!(from_url("https://codeberg.org/a/b").unwrap().path(), "codeberg.org/a/b");
    assert_eq!(from_url("https://salsa.debian.org/x/y/").unwrap().host(), "salsa.debian.org");
    assert_eq!(from_url("https://bitbucket.org/o/r").unwrap().name(), "r");
}

#[test]
fn from_url_unknown_host() {
    assert_eq!(from_url("https://example.com/a/b").unwrap_err(), "No match for repo in 'https://example.com/a/b'");
    assert!(from_url("https://github.com/").is_err());
    assert!(from_url("not a url").is_err());
}

#[test]
fn default_raw_book_toml_is_empty() {
    assert_eq!(default_empty_string(), "");
}

#[test]
fn known_languages() {
    let langs = languages();
    assert_eq!(langs.len(), 12);
    assert_eq!(langs[0].code, "en");
    assert_eq!(langs[0].name, "English");
    assert_eq!(langs[9].code, "kr");
    assert_eq!(langs[11].name, "Swedish");
}

#[test]
fn known_preprocessors() {
    let p = preprocessors();
    assert_eq!(p.len(), 16);
    assert_eq!(p[0].name, "admonish");
    assert_eq!(p[0].cratesio, "https://crates.io/crates/mdbook-admonish");
    assert_eq!(p[15].name, "toc");
    assert_eq!(p[15].description, "mdbook preprocessor to add Table of Contents.");
}

#[test]
fn decimal_numbers() {
    let mut s = String::from("n=");
    push_decimal(&mut s, 0);
    assert_eq!(s, "n=0");
    let mut s = String::new();
    push_decimal(&mut s, 1234567);
    assert_eq!(s, "1234567");
    let mut s = String::new();
    push_decimal(&mut s, usize::MAX);
    assert_eq!(s, usize::MAX.to_string());
}

#[test]
fn booleans() {
    let mut s = String::new();
    push_bool(&mut s, true);
    push_bool(&mut s, false);
    assert_eq!(s, "truefalse");
}

#[test]
fn from_url_host_is_case_sensitive() {
    assert!(from_url("https://GitHub.com/szabgab/rust-digger").is_err());
}

#[test]
fn from_url_host_dot_matches_slash() {
    let repo = from_url("https://github/com/a/b").unwrap();
    assert_eq!(repo.host(), "github/com");
    assert_eq!(repo.owner(), "a");
    assert_eq!(repo.name(), "b");
    assert_eq!(repo.path(), "github/com/a/b");
    assert_eq!(repo.url(), "https://github/com/a/b");
}
