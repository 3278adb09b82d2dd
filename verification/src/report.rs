//! The steps of a run: cloning the repositories, reading each `book.toml`,
//! and building every page of the report with its table of contents.

use vstd::prelude::*;

use crate::markdown::{
    concat_books, debug_set, debug_str, debug_text, flatten_text, lemma_concat_books_add, lemma_concat_books_single,
    lemma_flatten_text_step, strings_view,
};
use crate::model::{pages_view, BookToml, MDBook, Page};
use crate::pages::book_fields::{
    build_markdown, build_page, build_rows, multilingual_markdown, multilingual_rows, rust_markdown, rust_page,
    rust_rows, src_markdown, src_rows, text_direction_markdown, text_direction_rows,
};
use crate::pages::book_section::{book_page_with, book_section_pages, book_summary};
use crate::pages::languages::{
    language_markdown, language_rows, single_language_markdown, single_language_rows, unlisted_languages,
    unlisted_set_text,
};
use crate::text::is_stamp;
use crate::pages::overview::{
    book_entries, book_entry, book_page_path, single_book_markdown, book_pages_summary, book_pages_view, book_toml_markdown, book_toml_page, create_book_pages,
    clock_stamp, errors_markdown, errors_page, index_markdown, index_page_at,
};
use crate::pages::toml_fields::{
    output_markdown, output_page, output_rows, preprocessor_detail_pages, preprocessor_detail_rows,
    preprocessor_details_markdown, preprocessor_markdown, preprocessor_page, preprocessor_rows,
    preprocessor_summary, tables_read,
};
use crate::toml_table::{parse_toml_table, root_keys, table_keys, toml_parse, toml_tables};

verus! {

/// The `limit` of books to work on is reached after `count` of them; a
/// limit of 0 means no limit.
pub open spec fn limit_hit(count: u32, limit: u32) -> bool {
    limit > 0 && count >= limit
}

/// Whether `count` books reach the `limit` (0: no limit).
pub fn limit_reached(count: u32, limit: u32) -> (r: bool)
    ensures
        r == limit_hit(count, limit),
{
    limit > 0 && count >= limit
}

/// Records how updating a book's repository went. Every repository that was
/// updated, or failed to be, counts as processed; a failure is also recorded
/// as the book's error. The run stops once `limit` repositories are
/// processed. Returns the new count and whether to stop.
pub fn record_clone(mdbook: &mut MDBook, outcome: Result<(), String>, count: u32, limit: u32) -> (r: (u32, bool))
    requires
        count < u32::MAX,
    ensures
        r.0 == count + 1,
        r.1 == limit_hit((count + 1) as u32, limit),
        match outcome {
            Ok(()) => *final(mdbook) == *old(mdbook),
            Err(e) => *final(mdbook) == (MDBook { error: Some(e), ..*old(mdbook) }),
        },
{
    if let Err(e) = outcome {
        mdbook.error = Some(e);
    }
    let next = count + 1;
    (next, limit_reached(next, limit))
}

/// The report reads the `book.toml` of a book while fewer than `limit`
/// books were read (0: no limit). Returns the count with this book, and
/// whether to stop before reading it.
pub fn report_step(count: u32, limit: u32) -> (r: (u32, bool))
    requires
        count < u32::MAX,
    ensures
        r == (if limit_hit(count, limit) { (count, true) } else { ((count + 1) as u32, false) }),
{
    if limit_reached(count, limit) {
        (count, true)
    } else {
        (count + 1, false)
    }
}

/// Where a book's `book.toml` lies below the directory of the clones: the
/// host, owner and name of the repository, the folder when there is one, and
/// `book.toml`, each to be joined as one path component.
pub fn book_toml_location(mdbook: &MDBook) -> (r: Vec<String>)
    ensures
        strings_view(r@) == seq![mdbook.repo@.0, mdbook.repo@.1, mdbook.repo@.2] + (match mdbook.folder {
            Some(f) => seq![f@],
            None => Seq::empty(),
        }) + seq!["book.toml"@],
{
    let mut r: Vec<String> = Vec::new();
    r.push(String::from_str(mdbook.repo.host()));
    r.push(String::from_str(mdbook.repo.owner()));
    r.push(String::from_str(mdbook.repo.name()));
    if let Some(f) = &mdbook.folder {
        r.push(f.clone());
    }
    r.push(String::from_str("book.toml"));
    assert(strings_view(r@) =~= seq![mdbook.repo@.0, mdbook.repo@.1, mdbook.repo@.2] + (match mdbook.folder {
        Some(f) => seq![f@],
        None => Seq::empty(),
    }) + seq!["book.toml"@]);
    r
}

/// Records that the book's repository holds no `book.toml` where expected.
pub fn record_missing_book_toml(mdbook: &mut MDBook)
    ensures
        *final(mdbook) == (MDBook { error: final(mdbook).error, ..*old(mdbook) }),
        final(mdbook).error matches Some(e) && e@ == "book.toml does not exist"@,
{
    mdbook.error = Some(String::from_str("book.toml does not exist"));
}

/// The top-level tables that `book.toml` may have.
pub open spec fn known_sections() -> Seq<Seq<char>> {
    seq!["book"@, "rust"@, "build"@, "output"@, "preprocessor"@]
}

/// The top-level keys that are not known sections, each followed by a space.
pub open spec fn extra_fields(keys: Seq<Seq<char>>) -> Seq<char> {
    flatten_text(keys.map_values(|k: Seq<char>| if known_sections().contains(k) {
        Seq::empty()
    } else {
        k + " "@
    }))
}

fn is_known_section(k: &String) -> (r: bool)
    ensures
        r == known_sections().contains(k@),
{
    let names: Vec<String> = vec![
        String::from_str("book"),
        String::from_str("rust"),
        String::from_str("build"),
        String::from_str("output"),
        String::from_str("preprocessor"),
    ];
    assert(strings_view(names@) =~= known_sections());
    crate::markdown::contains_string(&names, k)
}

/// The top-level keys of `t` that are not known sections, each followed by a
/// space.
fn extra_fields_of(t: &toml::Table) -> (r: String)
    ensures
        r@ == extra_fields(root_keys(toml_tables(*t))),
{
    let keys = table_keys(t);
    let ghost parts = strings_view(keys@).map_values(|k: Seq<char>| if known_sections().contains(k) {
        Seq::<char>::empty()
    } else {
        k + " "@
    });
    let mut r = String::new();
    let mut j: usize = 0;
    while j < keys.len()
        invariant
            j <= keys.len(),
            parts == strings_view(keys@).map_values(|k: Seq<char>| if known_sections().contains(k) {
                Seq::<char>::empty()
            } else {
                k + " "@
            }),
            r@ == flatten_text(parts.take(j as int)),
        decreases keys.len() - j,
    {
        if !is_known_section(&keys[j]) {
            r.append(keys[j].as_str());
            r.append(" ");
        }
        proof { lemma_flatten_text_step(parts, j as int); }
        assert(parts[j as int] == (if known_sections().contains(keys@[j as int]@) {
            Seq::<char>::empty()
        } else {
            keys@[j as int]@ + " "@
        }));
        assert(r@ =~= flatten_text(parts.take(j + 1)));
        j = j + 1;
    }
    assert(parts.take(keys.len() as int) =~= parts);
    r
}

/// The error that a `book.toml` with top-level keys `extra` outside the known
/// sections reports.
pub open spec fn extra_fields_error(extra: Seq<char>) -> Seq<char> {
    "Extra fields in book.toml: "@ + debug_str(extra)
}

proof fn lemma_flatten_text_add(a: Seq<Seq<char>>, b: Seq<Seq<char>>)
    ensures
        flatten_text(a + b) == flatten_text(a) + flatten_text(b),
    decreases b.len(),
{
    if b.len() == 0 {
        assert(a + b =~= a);
        assert(flatten_text(a) + flatten_text(b) =~= flatten_text(a));
    } else {
        lemma_flatten_text_add(a, b.drop_last());
        assert((a + b).drop_last() =~= a + b.drop_last());
        assert((a + b).last() == b.last());
        assert(flatten_text(a + b) =~= flatten_text(a) + flatten_text(b));
    }
}

proof fn lemma_flatten_text_blank(parts: Seq<Seq<char>>)
    requires
        forall|i: int| 0 <= i < parts.len() ==> (#[trigger] parts[i]).len() == 0,
    ensures
        flatten_text(parts) == Seq::<char>::empty(),
    decreases parts.len(),
{
    if parts.len() > 0 {
        lemma_flatten_text_blank(parts.drop_last());
        assert(parts.last() == parts[parts.len() - 1]);
        assert(flatten_text(parts) =~= Seq::<char>::empty());
    }
}

/// Top-level keys that are all among `book`, `rust`, `build`, `output` and
/// `preprocessor` leave no extra fields.
pub proof fn lemma_section_keys_no_extra_fields(keys: Seq<Seq<char>>)
    requires
        forall|i: int| 0 <= i < keys.len() ==> {
            let k = #[trigger] keys[i];
            k == "book"@ || k == "rust"@ || k == "build"@ || k == "output"@ || k == "preprocessor"@
        },
    ensures
        extra_fields(keys) == Seq::<char>::empty(),
{
    let parts = keys.map_values(|k: Seq<char>| if known_sections().contains(k) {
        Seq::<char>::empty()
    } else {
        k + " "@
    });
    assert forall|i: int| 0 <= i < parts.len() implies (#[trigger] parts[i]).len() == 0 by {
        let k = keys[i];
        let names = known_sections();
        if k == "book"@ {
            assert(names[0] == k);
        } else if k == "rust"@ {
            assert(names[1] == k);
        } else if k == "build"@ {
            assert(names[2] == k);
        } else if k == "output"@ {
            assert(names[3] == k);
        } else {
            assert(names[4] == k);
        }
    }
    lemma_flatten_text_blank(parts);
}

/// Every top-level key other than `book`, `rust`, `build`, `output` and
/// `preprocessor` is listed among the extra fields, followed by a space,
/// after those before it.
pub proof fn lemma_other_key_is_extra_field(keys: Seq<Seq<char>>, i: int)
    requires
        0 <= i < keys.len(),
        keys[i] != "book"@ && keys[i] != "rust"@ && keys[i] != "build"@ && keys[i] != "output"@
            && keys[i] != "preprocessor"@,
    ensures
        exists|pre: Seq<char>, post: Seq<char>| extra_fields(keys) == pre + keys[i] + " "@ + post,
{
    let f = |k: Seq<char>| if known_sections().contains(k) {
        Seq::<char>::empty()
    } else {
        k + " "@
    };
    let parts = keys.map_values(f);
    let k = keys[i];
    if known_sections().contains(k) {
        let j = choose|j: int| 0 <= j < known_sections().len() && known_sections()[j] == k;
        assert(known_sections()[0] == "book"@);
        assert(known_sections()[1] == "rust"@);
        assert(known_sections()[2] == "build"@);
        assert(known_sections()[3] == "output"@);
        assert(known_sections()[4] == "preprocessor"@);
        assert(false);
    }
    assert(parts[i] == k + " "@);
    assert(parts =~= parts.take(i) + seq![parts[i]] + parts.skip(i + 1));
    lemma_flatten_text_add(parts.take(i) + seq![parts[i]], parts.skip(i + 1));
    lemma_flatten_text_add(parts.take(i), seq![parts[i]]);
    assert(seq![parts[i]].drop_last() =~= Seq::<Seq<char>>::empty());
    assert(seq![parts[i]].last() == parts[i]);
    assert(flatten_text(Seq::<Seq<char>>::empty()) == Seq::<char>::empty());
    assert(flatten_text(seq![parts[i]]) =~= parts[i]);
    let pre = flatten_text(parts.take(i));
    let post = flatten_text(parts.skip(i + 1));
    assert(extra_fields(keys) =~= pre + k + " "@ + post);
}

/// What reading the text `content` of a book's `book.toml` records, given
/// the outcome of reading it as the typed record (`parsed`).
///
/// The text is kept. When it is no TOML document, the parse error is
/// recorded and nothing else. Otherwise its table is kept; top-level keys outside the
/// known sections are recorded as an error, and then the typed record is
/// kept, or its error recorded in place of that one.
pub open spec fn book_toml_recorded(
    before: MDBook,
    after: MDBook,
    content: Seq<char>,
    parsed: Result<BookToml, String>,
) -> bool {
    &&& after.raw_book_toml@ == content
    &&& after.title == before.title
    &&& after.repo == before.repo
    &&& after.folder == before.folder
    &&& after.site == before.site
    &&& after.description == before.description
    &&& after.comment == before.comment
    &&& match toml_parse(content) {
        Err(message) => {
            &&& after.error matches Some(e) && e@ == message
            &&& after.book == before.book
            &&& after.everything == before.everything
        },
        Ok(tree) => {
            let extra = extra_fields(root_keys(tree));
            let error_after_check = if extra.len() > 0 {
                Some(extra_fields_error(extra))
            } else {
                match before.error {
                    Some(e) => Some(e@),
                    None => None,
                }
            };
            &&& after.everything matches Some(t) && toml_tables(t) == tree
            &&& match parsed {
                Ok(bk) => {
                    &&& after.book == Some(bk)
                    &&& match after.error {
                        Some(e) => error_after_check == Some(e@),
                        None => error_after_check is None,
                    }
                },
                Err(e) => {
                    &&& after.book == before.book
                    &&& after.error matches Some(m) && m == e
                },
            }
        },
    }
}

/// A `book.toml` whose top-level tables are all among `book`, `rust`,
/// `build`, `output` and `preprocessor`, and that reads as the typed record,
/// keeps that record and leaves the book's error as it was.
pub proof fn lemma_section_keys_keep_error(before: MDBook, after: MDBook, content: Seq<char>, bk: BookToml)
    requires
        book_toml_recorded(before, after, content, Ok(bk)),
        toml_parse(content) is Ok,
        forall|i: int| 0 <= i < root_keys(toml_parse(content)->Ok_0).len() ==> {
            let k = #[trigger] root_keys(toml_parse(content)->Ok_0)[i];
            k == "book"@ || k == "rust"@ || k == "build"@ || k == "output"@ || k == "preprocessor"@
        },
    ensures
        after.book == Some(bk),
        after.error is None <==> before.error is None,
        after.error matches Some(e) ==> before.error matches Some(b) && e@ == b@,
{
    lemma_section_keys_no_extra_fields(root_keys(toml_parse(content)->Ok_0));
}

/// Records what the text `content` of a book's `book.toml` says; `parsed` is
/// that text read as the typed record.
pub fn record_book_toml(mdbook: &mut MDBook, content: String, parsed: Result<BookToml, String>)
    ensures
        book_toml_recorded(*old(mdbook), *final(mdbook), content@, parsed),
{
    let parse = parse_toml_table(content.as_str());
    mdbook.raw_book_toml = content;
    match parse {
        Err(message) => {
            mdbook.error = Some(message);
        },
        Ok(table) => {
            let fields = extra_fields_of(&table);
            if fields.unicode_len() > 0 {
                let mut message = String::from_str("Extra fields in book.toml: ");
                message.append(debug_text(fields.as_str()).as_str());
                mdbook.error = Some(message);
            }
            mdbook.everything = Some(table);
            match parsed {
                Ok(bk) => {
                    mdbook.book = Some(bk);
                },
                Err(e) => {
                    mdbook.error = Some(e);
                },
            }
        },
    }
}

/// The table of contents of the report: the line or lines of each part.
pub open spec fn summary_markdown(books: Seq<MDBook>) -> Seq<char> {
    "# Summary\n\n"@ + "- [mdBooks](./index.md)\n"@ + "- [errors](./errors.md)\n"@
        + "- [book.toml](./book-toml.md)\n"@ + book_summary() + "  - [rust](./rust.md)\n"@
        + "  - [build](./build.md)\n"@ + "  - [output](./output.md)\n"@ + preprocessor_summary()
        + book_pages_summary(books)
}

/// Every page of the report, the table of contents last, given the time
/// stamp and how the set of unlisted languages prints.
pub open spec fn report_pages(books: Seq<MDBook>, stamp: Seq<char>, set_text: Seq<char>) -> Seq<(Seq<char>, Seq<char>)> {
    seq![("index.md"@, index_markdown(books, stamp))] + seq![("errors.md"@, errors_markdown(books))]
        + seq![("book-toml.md"@, book_toml_markdown())] + book_section_pages(books, set_text)
        + seq![("rust.md"@, rust_markdown(books))] + seq![("build.md"@, build_markdown(books))]
        + seq![("output.md"@, output_markdown(books))] + (seq![("preprocessor.md"@, preprocessor_markdown(books))]
        + preprocessor_detail_pages(books)) + book_pages_view(books) + seq![("SUMMARY.md"@, summary_markdown(books))]
}

proof fn lemma_concat_books_push(books: Seq<MDBook>, x: MDBook, f: spec_fn(MDBook) -> Seq<char>)
    requires
        f(x).len() == 0,
    ensures
        concat_books(books.push(x), f) == concat_books(books, f),
{
    assert(books.push(x).drop_last() =~= books);
    assert(concat_books(books.push(x), f) =~= concat_books(books, f));
}

/// A book whose `book.toml` was not read adds no row to any page on the
/// settings of `book.toml`: adding it to the list leaves each such page as
/// it was.
pub proof fn lemma_unread_book_adds_no_row(
    books: Seq<MDBook>,
    x: MDBook,
    set_text: Seq<char>,
    lang: (Seq<char>, Seq<char>),
    p: (Seq<char>, Seq<char>, Seq<char>),
)
    requires
        x.book is None,
    ensures
        src_markdown(books.push(x)) == src_markdown(books),
        language_markdown(books.push(x), set_text) == language_markdown(books, set_text),
        single_language_markdown(books.push(x), lang) == single_language_markdown(books, lang),
        text_direction_markdown(books.push(x)) == text_direction_markdown(books),
        multilingual_markdown(books.push(x)) == multilingual_markdown(books),
        rust_markdown(books.push(x)) == rust_markdown(books),
        build_markdown(books.push(x)) == build_markdown(books),
        output_markdown(books.push(x)) == output_markdown(books),
        preprocessor_markdown(books.push(x)) == preprocessor_markdown(books),
        preprocessor_details_markdown(books.push(x), p) == preprocessor_details_markdown(books, p),
{
    let more = books.push(x);
    lemma_concat_books_push(books, x, src_rows());
    lemma_concat_books_push(books, x, language_rows());
    lemma_concat_books_push(books, x, single_language_rows(lang.0));
    lemma_concat_books_push(books, x, text_direction_rows());
    lemma_concat_books_push(books, x, multilingual_rows());
    lemma_concat_books_push(books, x, rust_rows());
    lemma_concat_books_push(books, x, build_rows());
    lemma_concat_books_push(books, x, output_rows());
    lemma_concat_books_push(books, x, preprocessor_rows());
    lemma_concat_books_push(books, x, preprocessor_detail_rows(p.0));
    assert(more.drop_last() =~= books);
    assert(unlisted_languages(more) == unlisted_languages(books));
}

/// The time stamp shows on the index page alone: reports stamped
/// differently differ in nothing else. The page on `book.language` shows
/// the given print of the set of unlisted languages.
pub proof fn lemma_stamp_only_on_index(books: Seq<MDBook>, s1: Seq<char>, s2: Seq<char>, set_text: Seq<char>)
    ensures
        report_pages(books, s1, set_text).len() == report_pages(books, s2, set_text).len(),
        report_pages(books, s1, set_text)[0] == ("index.md"@, index_markdown(books, s1)),
        forall|i: int| 1 <= i < report_pages(books, s1, set_text).len() ==>
            #[trigger] report_pages(books, s1, set_text)[i] == report_pages(books, s2, set_text)[i],
        report_pages(books, s1, set_text)[5] == ("language.md"@, language_markdown(books, set_text)),
{
    let sec = book_section_pages(books, set_text);
    let rest = seq![("errors.md"@, errors_markdown(books))]
        + seq![("book-toml.md"@, book_toml_markdown())] + sec
        + seq![("rust.md"@, rust_markdown(books))] + seq![("build.md"@, build_markdown(books))]
        + seq![("output.md"@, output_markdown(books))] + (seq![("preprocessor.md"@, preprocessor_markdown(books))]
        + preprocessor_detail_pages(books)) + book_pages_view(books) + seq![("SUMMARY.md"@, summary_markdown(books))];
    assert(report_pages(books, s1, set_text) =~= seq![("index.md"@, index_markdown(books, s1))] + rest);
    assert(report_pages(books, s2, set_text) =~= seq![("index.md"@, index_markdown(books, s2))] + rest);
    assert(sec[2] == ("language.md"@, language_markdown(books, set_text)));
    assert(rest[4] == sec[2]);
}

/// Every book has a page of its own among the pages of the report, and the
/// table of contents has the entry that links to it.
pub proof fn lemma_every_book_has_linked_page(books: Seq<MDBook>, stamp: Seq<char>, set_text: Seq<char>, i: int)
    requires
        0 <= i < books.len(),
    ensures
        report_pages(books, stamp, set_text).contains((book_page_path(books[i]), single_book_markdown(books[i]))),
        exists|before: Seq<char>, after: Seq<char>|
            summary_markdown(books) == before + book_entry(books[i]) + after,
{
    let b = books[i];
    let f = book_entries();
    assert(books =~= books.take(i) + seq![b] + books.skip(i + 1));
    lemma_concat_books_add(books.take(i) + seq![b], books.skip(i + 1), f);
    lemma_concat_books_add(books.take(i), seq![b], f);
    lemma_concat_books_single(b, f);
    let pre = summary_markdown(books).take(summary_markdown(books).len() - concat_books(books, f).len())
        + concat_books(books.take(i), f);
    let post = concat_books(books.skip(i + 1), f);
    assert(summary_markdown(books) =~= pre + book_entry(b) + post);
    let pages = report_pages(books, stamp, set_text);
    let view = book_pages_view(books);
    let item = (book_page_path(b), single_book_markdown(b));
    assert(view[1 + i] == item);
    let head = pages.take(pages.len() - view.len() - 1);
    assert(pages =~= head + view + seq![("SUMMARY.md"@, summary_markdown(books))]);
    assert(pages[head.len() + 1 + i] == item);
}

/// Every page of the report, stamped `stamp`, with `set_text` as the print
/// of the set of unlisted languages.
pub fn build_report_with(mdbooks: &Vec<MDBook>, stamp: &str, set_text: &str) -> (r: Vec<Page>)
    requires
        tables_read(mdbooks@),
    ensures
        pages_view(r@) == report_pages(mdbooks@, stamp@, set_text@),
{
    let mut summary = String::from_str("# Summary\n\n");
    let mut pages: Vec<Page> = Vec::new();
    let (s, mut p) = index_page_at(mdbooks, stamp);
    let ghost v1 = p@;
    summary.append(s.as_str());
    pages.append(&mut p);
    let (s, mut p) = errors_page(mdbooks);
    let ghost v2 = p@;
    summary.append(s.as_str());
    pages.append(&mut p);
    let (s, mut p) = book_toml_page();
    let ghost v3 = p@;
    summary.append(s.as_str());
    pages.append(&mut p);
    let (s, mut p) = book_page_with(mdbooks, set_text);
    let ghost v4 = p@;
    summary.append(s.as_str());
    pages.append(&mut p);
    let (s, mut p) = rust_page(mdbooks);
    let ghost v5 = p@;
    summary.append(s.as_str());
    pages.append(&mut p);
    let (s, mut p) = build_page(mdbooks);
    let ghost v6 = p@;
    summary.append(s.as_str());
    pages.append(&mut p);
    let (s, mut p) = output_page(mdbooks);
    let ghost v7 = p@;
    summary.append(s.as_str());
    pages.append(&mut p);
    let (s, mut p) = preprocessor_page(mdbooks);
    let ghost v8 = p@;
    summary.append(s.as_str());
    pages.append(&mut p);
    let (s, mut p) = create_book_pages(mdbooks);
    let ghost v9 = p@;
    summary.append(s.as_str());
    pages.append(&mut p);
    let ghost before = pages@;
    assert(summary@ =~= summary_markdown(mdbooks@));
    pages.push(Page { path: String::from_str("SUMMARY.md"), content: summary });
    assert(pages@ =~= v1 + v2 + v3 + v4 + v5 + v6 + v7 + v8 + v9 + seq![pages@.last()]);
    assert(pages_view(pages@) =~= pages_view(v1) + pages_view(v2) + pages_view(v3) + pages_view(v4)
        + pages_view(v5) + pages_view(v6) + pages_view(v7) + pages_view(v8) + pages_view(v9)
        + seq![("SUMMARY.md"@, summary_markdown(mdbooks@))]);
    pages
}

/// Every page of the report, the table of contents last, stamped with the
/// current time, and with the set of unlisted languages printed as a set in
/// the order its hash seed gives; `None` when the system clock stands before
/// the Unix epoch or beyond what chrono can hold.
pub fn build_report(mdbooks: &Vec<MDBook>) -> (r: Option<Vec<Page>>)
    requires
        tables_read(mdbooks@),
    ensures
        r matches Some(pages) ==> exists|stamp: Seq<char>, walk: Seq<Seq<char>>|
            clock_stamp(stamp) && is_stamp(stamp) && walk.to_multiset() == unlisted_languages(mdbooks@).to_multiset()
                && pages_view(pages@) == #[trigger] report_pages(mdbooks@, stamp, debug_set(walk)),
{
    let set_text = unlisted_set_text(mdbooks);
    match crate::pages::overview::generated_at() {
        Some(stamp) => Some(build_report_with(mdbooks, stamp.as_str(), set_text.as_str())),
        None => None,
    }
}

/// Reading a `book.toml` keeps the table beside the typed record: when a
/// book had its table whenever it had its record, it still does.
pub proof fn lemma_record_keeps_tables(
    before: MDBook,
    after: MDBook,
    content: Seq<char>,
    parsed: Result<BookToml, String>,
)
    requires
        book_toml_recorded(before, after, content, parsed),
        before.book is Some ==> before.everything is Some,
    ensures
        after.book is Some ==> after.everything is Some,
{
}

/// Whether every book whose `book.toml` was read as a record was also read
/// as a table, as the pages on `[output]` and `[preprocessor]` need.
pub fn all_tables_read(mdbooks: &Vec<MDBook>) -> (r: bool)
    ensures
        r == tables_read(mdbooks@),
{
    let mut i: usize = 0;
    while i < mdbooks.len()
        invariant
            i <= mdbooks.len(),
            forall|k: int| 0 <= k < i ==> (#[trigger] mdbooks@[k]).book is Some ==> mdbooks@[k].everything is Some,
        decreases mdbooks.len() - i,
    {
        if mdbooks[i].book.is_some() && mdbooks[i].everything.is_none() {
            return false;
        }
        i = i + 1;
    }
    true
}

} // verus!
