use public_mdbooks::markdown::print_as_set;
use public_mdbooks::model::{Book, BookToml, Build, Language, MDBook, Page, Rust};
use public_mdbooks::pages::book_fields::{
    build_page, multilingual_page, rust_page, src_page, text_direction_page,
};
use public_mdbooks::pages::book_section::book_page_with;
use public_mdbooks::pages::languages::{
    language_page, language_page_with, missing_languages, single_language_page, unlisted_set_text,
};
use public_mdbooks::repo::from_url;

fn mdbook(title: &str, repo: &str) -> MDBook {
    MDBook {
        title: title.to_string(),
        repo: from_url(&format!("https://github.com/o/{}", repo)).unwrap(),
        folder: None,
        site: None,
        description: None,
        comment: None,
        raw_book_toml: String::new(),
        book: None,
        everything: None,
        error: None,
    }
}

fn book_section(title: &str) -> Book {
    Book {
        title: title.to_string(),
        src: None,
        language: None,
        text_direction: None,
        multilingual: None,
        authors: None,
        description: None,
    }
}

fn with_book(mut b: MDBook, book: Book, rust: Option<Rust>, build: Option<Build>) -> MDBook {
    b.book = Some(BookToml { book, rust, build });
    b
}

fn single(pages: &[Page]) -> (&str, &str) {
    assert_eq!(pages.len(), 1);
    (pages[0].path.as_str(), pages[0].content.as_str())
}

#[test]
fn src_page_rows() {
    let mut s = book_section("A");
    s.src = Some("source".to_string());
    let books = vec![
        with_book(mdbook("A", "a"), s, None, None),
        mdbook("B", "b"),
        with_book(mdbook("C", "c"), book_section("C"), None, None),
    ];
    let (summary, pages) = src_page(&books);
    assert_eq!(summary, "    - [src](./src.md)\n");
    assert_eq!(
        single(&pages),
        (
            "src.md",
            "# The book.src field\n\n| Title | src |\n|-------|-------------|\n| [A](./github.com/o/a.md) | source | \n| [C](./github.com/o/c.md) | - | \n"
        )
    );
}

#[test]
fn src_page_without_books() {
    let (_, pages) = src_page(&vec![]);
    assert_eq!(pages[0].content, "# The book.src field\n\n| Title | src |\n|-------|-------------|\n");
}

#[test]
fn text_direction_rows() {
    let mut s = book_section("R");
    s.text_direction = Some("rtl".to_string());
    let books = vec![with_book(mdbook("R", "r"), s, None, None), with_book(mdbook("L", "l"), book_section("L"), None, None)];
    let (summary, pages) = text_direction_page(&books);
    assert_eq!(summary, "    - [text-direction](./text-direction.md)\n");
    assert_eq!(
        single(&pages),
        (
            "text-direction.md",
            "# The book.text-direction field\n\n| Title |  text-direction |\n|-------|-------------|\n| [R](./github.com/o/r.md) | rtl | \n| [L](./github.com/o/l.md) | - | \n"
        )
    );
}

#[test]
fn multilingual_rows() {
    let mut t = book_section("T");
    t.multilingual = Some(true);
    let mut f = book_section("F");
    f.multilingual = Some(false);
    let books = vec![
        with_book(mdbook("T", "t"), t, None, None),
        with_book(mdbook("F", "f"), f, None, None),
        with_book(mdbook("N", "n"), book_section("N"), None, None),
    ];
    let (summary, pages) = multilingual_page(&books);
    assert_eq!(summary, "    - [multilingual](./multilingual.md)\n");
    assert_eq!(
        single(&pages).1,
        "# The book.multilingual field\n\n| Title | multilingual |\n|-------|-------------|\n| [T](./github.com/o/t.md) | true | \n| [F](./github.com/o/f.md) | false | \n| [N](./github.com/o/n.md) | - | \n"
    );
}

#[test]
fn rust_edition_rows() {
    let books = vec![
        with_book(mdbook("E", "e"), book_section("E"), Some(Rust { edition: "2021".to_string() }), None),
        with_book(mdbook("X", "x"), book_section("X"), None, None),
    ];
    let (summary, pages) = rust_page(&books);
    assert_eq!(summary, "  - [rust](./rust.md)\n");
    assert_eq!(
        single(&pages),
        (
            "rust.md",
            "# The rust.edition field\n\n| Title | editon |\n|-------|-------------|\n| [E](./github.com/o/e.md) | 2021 | \n| [X](./github.com/o/x.md) |  | \n"
        )
    );
}

#[test]
fn build_rows() {
    let full = Build {
        build_dir: Some("out".to_string()),
        create_missing: Some(false),
        extra_watch_dirs: Some(vec!["a".to_string(), "b".to_string(), "c".to_string()]),
        use_default_preprocessors: Some(true),
    };
    let empty = Build { build_dir: None, create_missing: None, extra_watch_dirs: Some(vec![]), use_default_preprocessors: None };
    let books = vec![
        with_book(mdbook("Full", "full"), book_section("Full"), None, Some(full)),
        with_book(mdbook("Empty", "empty"), book_section("Empty"), None, Some(empty)),
        with_book(mdbook("None", "none"), book_section("None"), None, None),
        mdbook("Unread", "unread"),
    ];
    let (summary, pages) = build_page(&books);
    assert_eq!(summary, "  - [build](./build.md)\n");
    assert_eq!(
        single(&pages),
        (
            "build.md",
            "# The build table\n\n| Title | build-dir | create-missing | extra-watch-dirs | use-default-preprocessors |\n|-------|-------------|--------|------|------| \n| [Full](./github.com/o/full.md) | out | false | a,b,c | true |\n| [Empty](./github.com/o/empty.md) |  |  |  |  |\n| [None](./github.com/o/none.md) |  |  |  |  |\n"
        )
    );
}

fn language_books() -> Vec<MDBook> {
    let mut a = book_section("A");
    a.language = Some("en".to_string());
    let mut b = book_section("B");
    b.language = Some("hu".to_string());
    let mut c = book_section("C");
    c.language = Some("hu".to_string());
    let mut d = book_section("D");
    d.language = Some("xx".to_string());
    vec![
        with_book(mdbook("A", "a"), a, None, None),
        with_book(mdbook("B", "b"), b, None, None),
        with_book(mdbook("C", "c"), c, None, None),
        with_book(mdbook("D", "d"), d, None, None),
        with_book(mdbook("E", "e"), book_section("E"), None, None),
    ]
}

#[test]
fn unlisted_languages_once_each() {
    let missing = missing_languages(&language_books());
    assert_eq!(missing, vec!["hu".to_string(), "xx".to_string()]);
    assert!(missing_languages(&vec![with_book(mdbook("A", "a"), book_section("A"), None, None)]).is_empty());
}

#[test]
fn unlisted_set_prints_as_a_set() {
    let text = unlisted_set_text(&language_books());
    assert!(text == "{\"hu\", \"xx\"}" || text == "{\"xx\", \"hu\"}");
    assert_eq!(unlisted_set_text(&vec![]), "{}");
}

#[test]
fn language_page_prints_unlisted_set() {
    let mut a = book_section("A");
    a.language = Some("en".to_string());
    let mut b = book_section("B");
    b.language = Some("xx".to_string());
    let books = vec![
        with_book(mdbook("A", "a"), a, None, None),
        with_book(mdbook("B", "b"), b, None, None),
    ];
    let (_, pages) = language_page(&books);
    assert_eq!(pages[0].path, "language.md");
    assert_eq!(
        pages[0].content,
        format!(
            "# The book.language field\n\nThe following languages are not in our list of supported languages: {{\"xx\"}} Please open an [issue](https://github.com/szabgab/public-mdbooks/)\n\n| Title | language |\n|-------|-------------|\n| [A]({}) | en | \n| [B]({}) | xx | \n",
            books[0].relative(),
            books[1].relative()
        )
    );
}

#[test]
fn language_page_with_unlisted() {
    let (summary, pages) = language_page_with(&language_books(), "SET");
    assert!(summary.starts_with("    - [language](./language.md)\n      - [English](./language-en.md)\n      - [German](./language-de.md)\n"));
    assert!(summary.ends_with("      - [Swedish](./language-sv.md)\n"));
    assert_eq!(summary.lines().count(), 13);
    assert_eq!(pages.len(), 13);
    assert_eq!(pages[0].path, "language.md");
    assert_eq!(
        pages[0].content,
        "# The book.language field\n\nThe following languages are not in our list of supported languages: SET Please open an [issue](https://github.com/szabgab/public-mdbooks/)\n\n| Title | language |\n|-------|-------------|\n| [A](./github.com/o/a.md) | en | \n| [B](./github.com/o/b.md) | hu | \n| [C](./github.com/o/c.md) | hu | \n| [D](./github.com/o/d.md) | xx | \n| [E](./github.com/o/e.md) | - | \n"
    );
    assert_eq!(pages[1].path, "language-en.md");
    assert_eq!(
        pages[1].content,
        "# English - book.language = en\n\n| Title | language |\n|-------|-------------|\n| [A](./github.com/o/a.md) | en | \n"
    );
    assert_eq!(pages[12].path, "language-sv.md");
}

#[test]
fn language_page_without_unlisted() {
    let books = vec![with_book(mdbook("A", "a"), book_section("A"), None, None)];
    let (_, pages) = language_page_with(&books, "ignored");
    assert_eq!(
        pages[0].content,
        "# The book.language field\n\n| Title | language |\n|-------|-------------|\n| [A](./github.com/o/a.md) | - | \n"
    );
}

#[test]
fn single_language_lists_its_books() {
    let mut j = book_section("J");
    j.language = Some("ja".to_string());
    let books = vec![with_book(mdbook("J", "j"), j, None, None), mdbook("K", "k")];
    let lang = Language { code: "ja".to_string(), name: "Japanese".to_string() };
    let (summary, page) = single_language_page(&books, &lang);
    assert_eq!(summary, "      - [Japanese](./language-ja.md)\n");
    assert_eq!(page.path, "language-ja.md");
    assert_eq!(
        page.content,
        "# Japanese - book.language = ja\n\n| Title | language |\n|-------|-------------|\n| [J](./github.com/o/j.md) | ja | \n"
    );
}

#[test]
fn book_section_pages_in_order() {
    let (summary, pages) = book_page_with(&language_books(), "S");
    assert!(summary.starts_with("  - [book](./book.md)\n    - [src](./src.md)\n    - [language](./language.md)\n"));
    assert!(summary.ends_with("    - [text-direction](./text-direction.md)\n    - [multilingual](./multilingual.md)\n"));
    let paths: Vec<&str> = pages.iter().map(|p| p.path.as_str()).collect();
    assert_eq!(paths.len(), 17);
    assert_eq!(&paths[..3], &["book.md", "src.md", "language.md"]);
    assert_eq!(&paths[15..], &["text-direction.md", "multilingual.md"]);
    assert_eq!(pages[0].content, "# book\n\nThe `book` section in the `book.toml file\n");
}

#[test]
fn strings_printed_as_a_set() {
    assert_eq!(print_as_set(&vec![]), "{}");
    assert_eq!(print_as_set(&vec!["a".to_string()]), "{\"a\"}");
    assert_eq!(print_as_set(&vec!["a".to_string(), "b\"c".to_string()]), "{\"a\", \"b\\\"c\"}");
}
