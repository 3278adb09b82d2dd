use public_mdbooks::model::{Book, BookToml, MDBook};
use public_mdbooks::order::{sort_by_title, title_less};
use public_mdbooks::pages::overview::count_errors;
use public_mdbooks::repo::from_url;
use public_mdbooks::report::{
    all_tables_read, book_toml_location, limit_reached, record_book_toml, record_clone,
    record_missing_book_toml, report_step,
};

fn mdbook(title: &str, repo: &str) -> MDBook {
    MDBook {
        title: title.to_string(),
        repo: from_url(&format!("https://github.com/o/{}", repo)).unwrap(),
        folder: None,
        site: None,
        description: None,
        comment: None,
        raw_book_toml: String::new(),
        book: None,
        everything: None,
        error: None,
    }
}

fn book_toml(title: &str) -> BookToml {
    BookToml {
        book: Book {
            title: title.to_string(),
            src: None,
            language: None,
            text_direction: None,
            multilingual: None,
            authors: None,
            description: None,
        },
        rust: None,
        build: None,
    }
}

fn titles(books: &[MDBook]) -> Vec<(String, String)> {
    books.iter().map(|b| (b.title.clone(), b.repo.name().to_string())).collect()
}

#[test]
fn sorted_by_title_stably() {
    let books = vec![
        mdbook("beta", "1"),
        mdbook("Alpha", "2"),
        mdbook("beta", "3"),
        mdbook("alpha", "4"),
        mdbook("", "5"),
        mdbook("béta", "6"),
        mdbook("bet", "7"),
    ];
    let sorted = sort_by_title(books);
    let expected: Vec<(String, String)> = vec![
        ("", "5"),
        ("Alpha", "2"),
        ("alpha", "4"),
        ("bet", "7"),
        ("beta", "1"),
        ("beta", "3"),
        ("béta", "6"),
    ]
    .into_iter()
    .map(|(a, b)| (a.to_string(), b.to_string()))
    .collect();
    assert_eq!(titles(&sorted), expected);
}

#[test]
fn appended_book_goes_after_equal_titles() {
    let list = || vec![mdbook("beta", "1"), mdbook("alpha", "2"), mdbook("beta", "3"), mdbook("gamma", "4")];
    let before = titles(&sort_by_title(list()));
    let mut longer = list();
    longer.push(mdbook("beta", "5"));
    let after = titles(&sort_by_title(longer));
    let mut expected = before.clone();
    expected.insert(3, ("beta".to_string(), "5".to_string()));
    assert_eq!(after, expected);
    let mut first = list();
    first.push(mdbook("Alpha", "6"));
    let after_first = titles(&sort_by_title(first));
    let mut expected_first = before.clone();
    expected_first.insert(0, ("Alpha".to_string(), "6".to_string()));
    assert_eq!(after_first, expected_first);
}

#[test]
fn sort_agrees_with_string_order() {
    let names = ["Zeta", "zeta", "Ä", "A", "ab", "a", "日本", "aa", "a b"];
    let books: Vec<MDBook> = names.iter().enumerate().map(|(i, n)| mdbook(n, &i.to_string())).collect();
    let sorted = sort_by_title(books);
    let mut expected: Vec<String> = names.iter().map(|s| s.to_string()).collect();
    expected.sort();
    let got: Vec<String> = sorted.iter().map(|b| b.title.clone()).collect();
    assert_eq!(got, expected);
}

#[test]
fn title_comparison() {
    assert!(title_less("a", "b"));
    assert!(title_less("ab", "abc"));
    assert!(!title_less("abc", "ab"));
    assert!(!title_less("same", "same"));
    assert!(title_less("Z", "a"));
    assert!(title_less("", "x"));
}

#[test]
fn limits() {
    assert!(!limit_reached(5, 0));
    assert!(!limit_reached(2, 3));
    assert!(limit_reached(3, 3));
    assert!(limit_reached(4, 3));
    assert!(limit_reached(1, 1));
}

#[test]
fn clone_outcomes() {
    let mut b = mdbook("A", "a");
    assert_eq!(record_clone(&mut b, Ok(()), 0, 2), (1, false));
    assert!(b.error.is_none());
    assert_eq!(record_clone(&mut b, Ok(()), 1, 2), (2, true));
    assert_eq!(record_clone(&mut b, Err("no network".to_string()), 0, 1), (1, true));
    assert_eq!(b.error.as_deref(), Some("no network"));
    assert_eq!(record_clone(&mut b, Ok(()), 7, 0), (8, false));
}

#[test]
fn report_processes_limit_books() {
    assert_eq!(report_step(0, 0), (1, false));
    assert_eq!(report_step(0, 2), (1, false));
    assert_eq!(report_step(1, 2), (2, false));
    assert_eq!(report_step(2, 2), (2, true));
    assert_eq!(report_step(5, 0), (6, false));
}

#[test]
fn location_of_book_toml() {
    let mut b = mdbook("A", "a");
    assert_eq!(book_toml_location(&b), vec!["github.com", "o", "a", "book.toml"]);
    b.folder = Some("docs/book".to_string());
    assert_eq!(book_toml_location(&b), vec!["github.com", "o", "a", "docs/book", "book.toml"]);
}

#[test]
fn missing_book_toml() {
    let mut b = mdbook("A", "a");
    record_missing_book_toml(&mut b);
    assert_eq!(b.error.as_deref(), Some("book.toml does not exist"));
    assert!(b.book.is_none());
}

#[test]
fn book_toml_read() {
    let mut b = mdbook("A", "a");
    let content = "[book]\ntitle = \"A\"\n\n[output.html]\n".to_string();
    record_book_toml(&mut b, content.clone(), Ok(book_toml("A")));
    assert_eq!(b.raw_book_toml, content);
    assert!(b.error.is_none());
    assert_eq!(b.book.as_ref().unwrap().book.title, "A");
    let t = b.everything.as_ref().unwrap();
    assert!(t.contains_key("book"));
    assert!(t.contains_key("output"));
}

#[test]
fn book_toml_with_extra_fields() {
    let mut b = mdbook("A", "a");
    let content = "zeta = 1\n[book]\ntitle = \"A\"\n[extra]\nx = 1\n".to_string();
    record_book_toml(&mut b, content, Ok(book_toml("A")));
    assert_eq!(b.error.as_deref(), Some("Extra fields in book.toml: \"extra zeta \""));
    assert!(b.book.is_some());
    assert!(b.everything.is_some());
}

#[test]
fn book_toml_record_error_wins() {
    let mut b = mdbook("A", "a");
    let content = "[book]\ntitle = \"A\"\n[extra]\n".to_string();
    record_book_toml(&mut b, content, Err("unknown field".to_string()));
    assert_eq!(b.error.as_deref(), Some("unknown field"));
    assert!(b.book.is_none());
    assert!(b.everything.is_some());
}

#[test]
fn book_toml_not_toml() {
    let mut b = mdbook("A", "a");
    record_book_toml(&mut b, "[book\ntitle = ".to_string(), Ok(book_toml("A")));
    assert!(b.error.is_some());
    assert!(b.book.is_none());
    assert!(b.everything.is_none());
    assert_eq!(b.raw_book_toml, "[book\ntitle = ");
    let message = b.error.unwrap();
    assert!(!message.is_empty());
    assert_ne!(message, "[book\ntitle = ");
}

#[test]
fn errors_counted() {
    let mut books = vec![mdbook("A", "a"), mdbook("B", "b"), mdbook("C", "c")];
    assert_eq!(count_errors(&books), 0);
    books[0].error = Some("x".to_string());
    books[2].error = Some("y".to_string());
    assert_eq!(count_errors(&books), 2);
}

#[test]
fn tables_read_check() {
    let mut books = vec![mdbook("A", "a")];
    assert!(all_tables_read(&books));
    books[0].book = Some(book_toml("A"));
    assert!(!all_tables_read(&books));
    record_book_toml(&mut books[0], "[book]\ntitle = \"A\"\n".to_string(), Ok(book_toml("A")));
    assert!(all_tables_read(&books));
}

#[test]
fn extra_field_with_quote_is_escaped() {
    let mut b = mdbook("A", "a");
    let content = "\"a\\\"b\" = 1\n[book]\ntitle = \"A\"\n".to_string();
    record_book_toml(&mut b, content, Ok(book_toml("A")));
    assert_eq!(b.error.as_deref(), Some("Extra fields in book.toml: \"a\\\"b \""));
}
