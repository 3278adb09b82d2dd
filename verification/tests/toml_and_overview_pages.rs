use public_mdbooks::model::{Book, BookToml, MDBook};
use public_mdbooks::pages::overview::{
    book_toml_page, books_page, create_book_pages, errors_page, index_page, index_page_at,
    single_book_page, stamp_of_reading,
};
use public_mdbooks::pages::toml_fields::{output_page, preprocessor_details_page, preprocessor_page};
use public_mdbooks::model::preprocessors;
use public_mdbooks::repo::from_url;
use public_mdbooks::report::{build_report, build_report_with, record_book_toml};

fn mdbook(title: &str, repo: &str) -> MDBook {
    MDBook {
        title: title.to_string(),
        repo: from_url(&format!("https://github.com/o/{}", repo)).unwrap(),
        folder: None,
        site: None,
        description: None,
        comment: None,
        raw_book_toml: String::new(),
        book: None,
        everything: None,
        error: None,
    }
}

fn book_toml(title: &str) -> BookToml {
    BookToml {
        book: Book {
            title: title.to_string(),
            src: None,
            language: None,
            text_direction: None,
            multilingual: None,
            authors: None,
            description: None,
        },
        rust: None,
        build: None,
    }
}

fn read(title: &str, repo: &str, content: &str) -> MDBook {
    let mut b = mdbook(title, repo);
    record_book_toml(&mut b, content.to_string(), Ok(book_toml(title)));
    b
}

fn toml_books() -> Vec<MDBook> {
    vec![
        read("A", "a", "[book]\ntitle = \"A\"\n[output.html]\n[output.pdf]\n[preprocessor.katex]\nmacros = 1\n[preprocessor.mine]\n"),
        read("B", "b", "output = 3\npreprocessor = \"none\"\n[book]\ntitle = \"B\"\n"),
        read("C", "c", "[book]\ntitle = \"C\"\n[preprocessor]\nkatex = true\n"),
        mdbook("D", "d"),
    ]
}

#[test]
fn output_fields() {
    let (summary, pages) = output_page(&toml_books());
    assert_eq!(summary, "  - [output](./output.md)\n");
    assert_eq!(pages.len(), 1);
    assert_eq!(pages[0].path, "output.md");
    assert_eq!(
        pages[0].content,
        "# output\n\n| Title | output field | \n|-------|-------------| \n| [A](./github.com/o/a.md) | html pdf  | \n| [B](./github.com/o/b.md) | unknown | \n| [C](./github.com/o/c.md) |  | \n"
    );
}

#[test]
fn preprocessor_fields() {
    let (summary, pages) = preprocessor_page(&toml_books());
    assert!(summary.starts_with("  - [preprocessor](./preprocessor.md)\n    - [admonish](./preprocessor-admonish.md)\n"));
    assert!(summary.ends_with("    - [toc](./preprocessor-toc.md)\n"));
    assert_eq!(pages.len(), 17);
    assert_eq!(pages[0].path, "preprocessor.md");
    assert_eq!(
        pages[0].content,
        "# preprocessor\n\n| Title | preprocessors | \n|-------|-------------| \n| [A](./github.com/o/a.md) |  [katex](preprocessor-katex.md) mine  | \n| [B](./github.com/o/b.md) |  unknown | \n| [C](./github.com/o/c.md) |  [katex](preprocessor-katex.md)  | \n"
    );
    assert_eq!(pages[7].path, "preprocessor-katex.md");
}

#[test]
fn preprocessor_details() {
    let katex = preprocessors().into_iter().find(|p| p.name == "katex").unwrap();
    let page = preprocessor_details_page(&toml_books(), &katex);
    assert_eq!(page.path, "preprocessor-katex.md");
    assert_eq!(
        page.content,
        "# preprocessor katex\n\nThe preprocessor katex is available on [crates.io](https://crates.io/crates/mdbook-katex).\n\nmdBook preprocessor rendering LaTeX equations to HTML.\n\n| Title | preprocessor field | \n|-------|-------------| \n| [A](./github.com/o/a.md) | macros  | \n| [C](./github.com/o/c.md) | unknown | \n"
    );
}

#[test]
fn index_rows() {
    let mut a = mdbook("A", "a");
    a.description = Some("about A".to_string());
    let mut b = mdbook("B", "b");
    b.comment = Some("note".to_string());
    let (summary, pages) = index_page_at(&vec![a, b], "2024-01-02 03:04:05");
    assert_eq!(summary, "- [mdBooks](./index.md)\n");
    assert_eq!(pages[0].path, "index.md");
    let content = &pages[0].content;
    assert!(content.starts_with("# Public mdBooks\n\nThis is a list of mdBooks with public source.\n"));
    assert!(content.contains("Check out the [mdBook User manual](https://rust-lang.github.io/mdBook/) for more information.\n\nTotal number of books: 2\n\nGenerated at: 2024-01-02 03:04:05\n\n"));
    assert!(content.ends_with(
        "| Title | Repo | Description | Comment |\n|-------|------|-------------|---------|\n| [A](./github.com/o/a.md) | [repo](https://github.com/o/a) | about A |  |\n| [B](./github.com/o/b.md) | [repo](https://github.com/o/b) |  | note |\n"
    ));
}

#[test]
fn index_is_stamped() {
    let (_, pages) = index_page(&vec![mdbook("A", "a")]).unwrap();
    let stamp_line = pages[0].content.lines().find(|l| l.starts_with("Generated at: ")).unwrap();
    assert_eq!(stamp_line.len(), "Generated at: ".len() + 19);
    let stamp: Vec<char> = stamp_line["Generated at: ".len()..].chars().collect();
    for (i, c) in stamp.iter().enumerate() {
        match i {
            4 | 7 => assert_eq!(*c, '-'),
            10 => assert_eq!(*c, ' '),
            13 | 16 => assert_eq!(*c, ':'),
            _ => assert!(c.is_ascii_digit()),
        }
    }
}

#[test]
fn errors_listed() {
    let mut a = mdbook("A", "a");
    a.error = Some("bad toml".to_string());
    let books = vec![a, mdbook("B", "b")];
    let (summary, pages) = errors_page(&books);
    assert_eq!(summary, "- [errors](./errors.md)\n");
    assert_eq!(pages[0].path, "errors.md");
    assert_eq!(
        pages[0].content,
        "# Errors in the mdbooks\n\nThe errors are as reported by our parser. They might or might not be real problems.\nIf you think the error is incorrect, please open an issue on [our repository](https://github.com/szabgab/public-mdbooks).\nIf you think the problem is with the specific mdbook, please open an issue on the repository of that mdbook.\nWe still need to clean up the error messages.\n\nTotal number of errors 1 (in 2 books)\n\n---\n\n* [A](./github.com/o/a.md)\n* [repo](https://github.com/o/a)\n\nbad toml\n\n---\n\n"
    );
}

#[test]
fn book_toml_intro() {
    let (summary, pages) = book_toml_page();
    assert_eq!(summary, "- [book.toml](./book-toml.md)\n");
    assert_eq!(pages[0].path, "book-toml.md");
    assert_eq!(
        pages[0].content,
        "# book.toml\n\nThe book.toml file is the main [configuration file](https://rust-lang.github.io/mdBook/format/configuration/) of every mdbook.\nIn this chapter we analyzet the content of the book.toml files in the listed mdbooks.\n\n"
    );
}

#[test]
fn books_intro() {
    let page = books_page();
    assert_eq!(page.path, "books.md");
    assert_eq!(page.content, "# Public mdBooks\n\nIn this section you can find detailed information about the mdBooks.\n");
}

#[test]
fn one_book_page() {
    let mut a = mdbook("A", "a");
    a.folder = Some("guide".to_string());
    a.site = Some("https://a.example".to_string());
    a.raw_book_toml = "[book]\n".to_string();
    let page = single_book_page(&a);
    assert_eq!(page.path, "github.com/o/a.md");
    assert_eq!(
        page.content,
        "# A\n\n* [repo](https://github.com/o/a)  (folder: guide)\n* [site](https://a.example)\n* description: NA\n* comment: NA\n\n## book.toml\n\n```toml\n[book]\n\n```\n"
    );
    let mut b = mdbook("B", "b");
    b.description = Some("d".to_string());
    b.comment = Some("c".to_string());
    assert_eq!(
        single_book_page(&b).content,
        "# B\n\n* [repo](https://github.com/o/b)\n* site: NA\n* description: d\n* comment: c\n\n## book.toml\n\n```toml\n\n```\n"
    );
}

#[test]
fn book_pages_with_summary() {
    let (summary, pages) = create_book_pages(&vec![mdbook("A", "a"), mdbook("B", "b")]);
    assert_eq!(summary, "* [Public mdBooks](./books.md)\n  * [A](./github.com/o/a.md)\n  * [B](./github.com/o/b.md)\n");
    let paths: Vec<&str> = pages.iter().map(|p| p.path.as_str()).collect();
    assert_eq!(paths, vec!["books.md", "github.com/o/a.md", "github.com/o/b.md"]);
}

#[test]
fn whole_report() {
    let books = toml_books();
    let pages = build_report_with(&books, "NOW", "SET");
    assert_eq!(pages.len(), 1 + 1 + 1 + 17 + 1 + 1 + 1 + 17 + 5 + 1);
    assert_eq!(pages[0].path, "index.md");
    assert_eq!(pages[1].path, "errors.md");
    let summary = pages.last().unwrap();
    assert_eq!(summary.path, "SUMMARY.md");
    assert!(summary.content.starts_with("# Summary\n\n- [mdBooks](./index.md)\n- [errors](./errors.md)\n- [book.toml](./book-toml.md)\n  - [book](./book.md)\n"));
    assert!(summary.content.contains("    - [multilingual](./multilingual.md)\n  - [rust](./rust.md)\n  - [build](./build.md)\n  - [output](./output.md)\n  - [preprocessor](./preprocessor.md)\n"));
    assert!(summary.content.ends_with("    - [toc](./preprocessor-toc.md)\n* [Public mdBooks](./books.md)\n  * [A](./github.com/o/a.md)\n  * [B](./github.com/o/b.md)\n  * [C](./github.com/o/c.md)\n  * [D](./github.com/o/d.md)\n"));
    for b in &books {
        let own = format!("{}.md", b.repo.path());
        assert!(pages.iter().any(|p| p.path == own));
        assert!(summary.content.contains(&format!("  * [{}](./{})\n", b.title, own)));
    }
    let again = build_report(&books).unwrap();
    assert_eq!(again.len(), pages.len());
    assert_eq!(again.last().unwrap().content, summary.content);
}

#[test]
fn book_links_lead_to_book_files() {
    let books = vec![mdbook("A", "a"), mdbook("B", "b")];
    let (_, pages) = create_book_pages(&books);
    for (b, page) in books.iter().zip(pages.iter().skip(1)) {
        assert_eq!(b.relative(), format!("./{}", page.path));
    }
}

#[test]
fn unconfigured_book_keeps_preprocessor_page() {
    let katex = preprocessors().into_iter().find(|p| p.name == "katex").unwrap();
    let before = preprocessor_details_page(&toml_books(), &katex);
    let mut more = toml_books();
    more.push(read("E", "e", "[book]\ntitle = \"E\"\n[preprocessor.mine]\n"));
    more.push(mdbook("F", "f"));
    let after = preprocessor_details_page(&more, &katex);
    assert_eq!(after.path, before.path);
    assert_eq!(after.content, before.content);
    more.push(read("G", "g", "[book]\ntitle = \"G\"\n[preprocessor.katex]\n"));
    let changed = preprocessor_details_page(&more, &katex);
    assert!(changed.content.ends_with("| [G](./github.com/o/g.md) |  | \n"));
}

#[test]
fn stamps_of_clock_readings() {
    assert_eq!(stamp_of_reading(Some((0, 0))).as_deref(), Some("1970-01-01 00:00:00"));
    assert_eq!(stamp_of_reading(Some((1704164645, 999_999_999))).as_deref(), Some("2024-01-02 03:04:05"));
    assert_eq!(stamp_of_reading(None), None);
    assert_eq!(stamp_of_reading(Some((i64::MAX as u64 + 1, 0))), None);
    assert_eq!(stamp_of_reading(Some((i64::MAX as u64, 0))), None);
}
