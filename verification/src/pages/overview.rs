//! The pages about the list of books as a whole: the index, the errors, the
//! introduction to `book.toml`, and one page for each book.

use vstd::prelude::*;

use crate::markdown::{
    book_link, concat_books, lemma_concat_books_add, lemma_concat_books_single,
    lemma_concat_books_step, lemma_take_all, push_book_link, text_or,
};
use crate::model::{pages_view, MDBook, Page};
use crate::repo::slash_join;
use crate::text::{decimal, is_stamp, push_decimal};

verus! {

/// The web address of a book's repository.
pub open spec fn repo_url(b: MDBook) -> Seq<char> {
    "https://"@ + slash_join(b.repo@.0, b.repo@.1, b.repo@.2)
}

/// The number of books with an error.
pub open spec fn error_count(books: Seq<MDBook>) -> nat
    decreases books.len(),
{
    if books.len() == 0 {
        0
    } else {
        error_count(books.drop_last()) + if books.last().error is Some {
            1nat
        } else {
            0nat
        }
    }
}

/// The number of books that report an error.
pub fn count_errors(mdbooks: &Vec<MDBook>) -> (r: usize)
    ensures
        r == error_count(mdbooks@),
        r <= mdbooks@.len(),
{
    let mut n: usize = 0;
    let mut i: usize = 0;
    while i < mdbooks.len()
        invariant
            i <= mdbooks.len(),
            n == error_count(mdbooks@.take(i as int)),
            n <= i,
        decreases mdbooks.len() - i,
    {
        assert(mdbooks@.take(i + 1).drop_last() =~= mdbooks@.take(i as int));
        if mdbooks[i].error.is_some() {
            n = n + 1;
        }
        i = i + 1;
    }
    proof { lemma_take_all(mdbooks@); }
    n
}

/// The books with an error are counted once each: the count is the size of
/// the set of their positions.
pub proof fn lemma_error_count(books: Seq<MDBook>)
    ensures
        error_count(books) == Set::new(|i: int| 0 <= i < books.len() && books[i].error is Some).len(),
    decreases books.len(),
{
    let s = Set::new(|i: int| 0 <= i < books.len() && books[i].error is Some);
    if books.len() == 0 {
        assert(s =~= Set::empty());
    } else {
        let init = books.drop_last();
        lemma_error_count(init);
        let s0 = Set::new(|i: int| 0 <= i < init.len() && init[i].error is Some);
        let last = books.len() - 1;
        let range = vstd::set_lib::set_int_range(0, init.len() as int);
        assert(s0.subset_of(range));
        vstd::set_lib::lemma_int_range(0, init.len() as int);
        vstd::set_lib::lemma_len_subset(s0, range);
        assert(s0.finite());
        if books[last].error is Some {
            assert forall|i: int| s.contains(i) <==> s0.insert(last).contains(i) by {
                if 0 <= i < init.len() {
                    assert(init[i] == books[i]);
                }
            }
            assert(s =~= s0.insert(last));
            assert(!s0.contains(last));
        } else {
            assert forall|i: int| s.contains(i) <==> s0.contains(i) by {
                if 0 <= i < init.len() {
                    assert(init[i] == books[i]);
                }
            }
            assert(s =~= s0);
        }
    }
}

/// The time since the Unix epoch on the system clock, as whole seconds and
/// the nanoseconds beyond them (`SystemTime::now().duration_since(UNIX_EPOCH)`),
/// or `None` when the clock stands before the epoch.
///
/// Trusted: the nanoseconds are below one billion (`Duration::subsec_nanos`).
/// Which time is not stated: it is the clock's.
#[verifier::external_body]
fn time_since_unix_epoch() -> (r: Option<(u64, u32)>)
    ensures
        r matches Some((_, nanos)) ==> nanos < 1_000_000_000,
{
    match std::time::SystemTime::now().duration_since(std::time::UNIX_EPOCH) {
        Ok(d) => Some((d.as_secs(), d.subsec_nanos())),
        Err(_) => None,
    }
}

/// What `chrono::DateTime::from_timestamp(secs, nanos)` printed with
/// `%Y-%m-%d %H:%M:%S` gives, or `None` when chrono has no such moment.
pub uninterp spec fn chrono_stamp(secs: int, nanos: nat) -> Option<Seq<char>>;

/// The moment `secs` seconds and `nanos` nanoseconds after the Unix epoch in
/// UTC (`chrono::DateTime::from_timestamp`), printed with
/// `%Y-%m-%d %H:%M:%S`, or `None` when chrono has no such moment.
///
/// Trusted: the outcome is the one `chrono_stamp` names, and a text is some
/// moment printed as chrono's format documents `%Y` (zero-padded to 4
/// digits, signed outside 0 to 9999, years -262144 to 262143), `%m` (01 to
/// 12), `%d` (01 to 31), `%H` (00 to 23), `%M` (00 to 59) and `%S` (00 to
/// 60).
#[verifier::external_body]
fn utc_stamp_at(secs: i64, nanos: u32) -> (r: Option<String>)
    ensures
        r is Some <==> chrono_stamp(secs as int, nanos as nat) is Some,
        r matches Some(t) ==> t@ == chrono_stamp(secs as int, nanos as nat)->Some_0 && is_stamp(t@),
{
    match chrono::DateTime::from_timestamp(secs, nanos) {
        Some(t) => Some(t.format("%Y-%m-%d %H:%M:%S").to_string()),
        None => None,
    }
}

/// `stamp` is what chrono prints for some reading of the clock: `secs`
/// seconds, at most `i64::MAX`, and `nanos` nanoseconds, below one billion,
/// after the Unix epoch.
pub open spec fn clock_stamp(stamp: Seq<char>) -> bool {
    exists|secs: int, nanos: nat|
        0 <= secs <= i64::MAX && nanos < 1_000_000_000 && #[trigger] chrono_stamp(secs, nanos) == Some(stamp)
}

/// The time stamp of a clock reading, given as the seconds and nanoseconds
/// since the Unix epoch: the moment in UTC as `%Y-%m-%d %H:%M:%S`, or `None`
/// when there is no reading, its seconds do not fit an `i64`, or chrono has
/// no such moment.
pub fn stamp_of_reading(reading: Option<(u64, u32)>) -> (r: Option<String>)
    ensures
        r is Some <==> (reading matches Some((secs, nanos)) && secs as int <= i64::MAX
            && chrono_stamp(secs as int, nanos as nat) is Some),
        r matches Some(t) ==> {
            &&& t@ == chrono_stamp(reading->Some_0.0 as int, reading->Some_0.1 as nat)->Some_0
            &&& is_stamp(t@)
        },
{
    match reading {
        None => None,
        Some((secs, nanos)) => {
            if secs > i64::MAX as u64 {
                None
            } else {
                utc_stamp_at(secs as i64, nanos)
            }
        },
    }
}

/// The time stamp of a report made now: the system clock in UTC, as
/// `%Y-%m-%d %H:%M:%S`, or `None` when the clock stands before the Unix
/// epoch or beyond what chrono can hold.
pub(crate) fn generated_at() -> (r: Option<String>)
    ensures
        r matches Some(t) ==> clock_stamp(t@) && is_stamp(t@),
{
    let reading = time_since_unix_epoch();
    let r = stamp_of_reading(reading);
    if let Some(t) = &r {
        assert(chrono_stamp(reading->Some_0.0 as int, reading->Some_0.1 as nat) == Some(t@));
    }
    r
}

/// The opening of the index page.
pub open spec fn index_intro() -> Seq<char> {
    "# Public mdBooks\n\n"@ + "This is a list of mdBooks with public source.\n"@
        + "If you are using mdBook we hope that this site will help you learn how others are using it, which plugins are available and how to use those.\n"@
        + "If you are developing plugins for mdBook or mdBook itself, then we hope this will help you see who uses your plugin and how it is being used.\n"@
        + "The list is generated from the `mdbooks.yaml` file in our [repository](https://github.com/szabgab/public-mdbooks).\n\n"@
        + "If you would like to add a book to this list, or add a description please submit a PR to change the `mdbooks.yaml` file.\n\n"@
        + "Check out the [mdBook User manual](https://rust-lang.github.io/mdBook/) for more information.\n\n"@
}

/// A book's row on the index: its link, its repository, its description and
/// its comment.
pub open spec fn index_row(b: MDBook) -> Seq<char> {
    "| "@ + book_link(b) + " | [repo]("@ + repo_url(b) + ") | "@ + text_or(b.description, Seq::empty()) + " | "@
        + text_or(b.comment, Seq::empty()) + " |\n"@
}

pub open spec fn index_rows() -> spec_fn(MDBook) -> Seq<char> {
    |b: MDBook| index_row(b)
}

/// The index page: the introduction, the number of books, the time stamp,
/// and a row for each book.
pub open spec fn index_markdown(books: Seq<MDBook>, stamp: Seq<char>) -> Seq<char> {
    index_intro() + "Total number of books: "@ + decimal(books.len()) + "\n\n"@ + "Generated at: "@ + stamp
        + "\n\n"@ + "| Title | Repo | Description | Comment |\n"@ + "|-------|------|-------------|---------|\n"@
        + concat_books(books, index_rows())
}

/// The index page opens with the introduction, then the number of all the
/// listed books and the time stamp.
pub proof fn lemma_index_counts_all_books(books: Seq<MDBook>, stamp: Seq<char>)
    ensures
        exists|rest: Seq<char>|
            index_markdown(books, stamp) == index_intro() + "Total number of books: "@ + decimal(books.len())
                + "\n\n"@ + "Generated at: "@ + stamp + "\n\n"@ + rest,
{
    let rest = "| Title | Repo | Description | Comment |\n"@ + "|-------|------|-------------|---------|\n"@
        + concat_books(books, index_rows());
    assert(index_markdown(books, stamp) =~= index_intro() + "Total number of books: "@ + decimal(books.len())
        + "\n\n"@ + "Generated at: "@ + stamp + "\n\n"@ + rest);
}

proof fn lemma_concat_books_same_rows(a: Seq<MDBook>, b: Seq<MDBook>, f: spec_fn(MDBook) -> Seq<char>)
    requires
        a.len() == b.len(),
        forall|i: int| 0 <= i < a.len() ==> f(#[trigger] a[i]) == f(b[i]),
    ensures
        concat_books(a, f) == concat_books(b, f),
    decreases a.len(),
{
    if a.len() > 0 {
        lemma_concat_books_same_rows(a.drop_last(), b.drop_last(), f);
        assert(a.last() == a[a.len() - 1] && b.last() == b[b.len() - 1]);
    }
}

/// A book's error changes nothing on the index page: books that differ in
/// their errors alone give the same page.
pub proof fn lemma_index_ignores_errors(books: Seq<MDBook>, others: Seq<MDBook>, stamp: Seq<char>)
    requires
        others.len() == books.len(),
        forall|i: int| 0 <= i < books.len() ==> #[trigger] others[i] == (MDBook { error: others[i].error, ..books[i] }),
    ensures
        index_markdown(others, stamp) == index_markdown(books, stamp),
{
    assert forall|i: int| 0 <= i < others.len() implies index_rows()(#[trigger] others[i]) == index_rows()(books[i]) by {
        assert(others[i] == (MDBook { error: others[i].error, ..books[i] }));
    }
    lemma_concat_books_same_rows(others, books, index_rows());
}

fn push_index_row(md: &mut String, b: &MDBook)
    ensures
        final(md)@ == old(md)@ + index_row(*b),
{
    md.append("| ");
    push_book_link(md, b);
    md.append(" | [repo](");
    md.append(b.repo.url().as_str());
    md.append(") | ");
    match &b.description {
        Some(d) => md.append(d.as_str()),
        None => {},
    }
    md.append(" | ");
    match &b.comment {
        Some(c) => md.append(c.as_str()),
        None => {},
    }
    md.append(" |\n");
    assert(md@ =~= old(md)@ + index_row(*b));
}

/// The index page, generated at the time `stamp`, and its line in the table
/// of contents.
pub fn index_page_at(mdbooks: &Vec<MDBook>, stamp: &str) -> (r: (String, Vec<Page>))
    ensures
        r.0@ == "- [mdBooks](./index.md)\n"@,
        pages_view(r.1@) == seq![("index.md"@, index_markdown(mdbooks@, stamp@))],
{
    let summary = String::from_str("- [mdBooks](./index.md)\n");
    let mut md = String::from_str("# Public mdBooks\n\n");
    md.append("This is a list of mdBooks with public source.\n");
    md.append("If you are using mdBook we hope that this site will help you learn how others are using it, which plugins are available and how to use those.\n");
    md.append("If you are developing plugins for mdBook or mdBook itself, then we hope this will help you see who uses your plugin and how it is being used.\n");
    md.append("The list is generated from the `mdbooks.yaml` file in our [repository](https://github.com/szabgab/public-mdbooks).\n\n");
    md.append("If you would like to add a book to this list, or add a description please submit a PR to change the `mdbooks.yaml` file.\n\n");
    md.append("Check out the [mdBook User manual](https://rust-lang.github.io/mdBook/) for more information.\n\n");
    md.append("Total number of books: ");
    push_decimal(&mut md, mdbooks.len());
    md.append("\n\n");
    md.append("Generated at: ");
    md.append(stamp);
    md.append("\n\n");
    md.append("| Title | Repo | Description | Comment |\n");
    md.append("|-------|------|-------------|---------|\n");
    let ghost header = md@;
    assert(header =~= index_intro() + "Total number of books: "@ + decimal(mdbooks@.len()) + "\n\n"@
        + "Generated at: "@ + stamp@ + "\n\n"@ + "| Title | Repo | Description | Comment |\n"@
        + "|-------|------|-------------|---------|\n"@);
    let mut i: usize = 0;
    while i < mdbooks.len()
        invariant
            i <= mdbooks.len(),
            md@ == header + concat_books(mdbooks@.take(i as int), index_rows()),
        decreases mdbooks.len() - i,
    {
        push_index_row(&mut md, &mdbooks[i]);
        proof { lemma_concat_books_step(mdbooks@, index_rows(), i as int); }
        assert(md@ =~= header + concat_books(mdbooks@.take(i + 1), index_rows()));
        i = i + 1;
    }
    proof { lemma_take_all(mdbooks@); }
    let mut pages: Vec<Page> = Vec::new();
    pages.push(Page { path: String::from_str("index.md"), content: md });
    assert(pages_view(pages@) =~= seq![("index.md"@, index_markdown(mdbooks@, stamp@))]);
    (summary, pages)
}

/// The index page, stamped with the current time as a reading of the clock
/// prints (see `stamp_of_reading`), and its line in the table of contents;
/// `None` when the system clock stands before the Unix epoch or
/// beyond what chrono can hold.
pub fn index_page(mdbooks: &Vec<MDBook>) -> (r: Option<(String, Vec<Page>)>)
    ensures
        r matches Some(p) ==> {
            &&& p.0@ == "- [mdBooks](./index.md)\n"@
            &&& exists|stamp: Seq<char>|
                clock_stamp(stamp) && is_stamp(stamp) && pages_view(p.1@) == seq![("index.md"@, #[trigger] index_markdown(mdbooks@, stamp))]
        },
{
    match generated_at() {
        Some(stamp) => Some(index_page_at(mdbooks, stamp.as_str())),
        None => None,
    }
}

/// The introduction to `book.toml`.
pub open spec fn book_toml_markdown() -> Seq<char> {
    "# book.toml\n\n"@
        + "The book.toml file is the main [configuration file](https://rust-lang.github.io/mdBook/format/configuration/) of every mdbook.\n"@
        + "In this chapter we analyzet the content of the book.toml files in the listed mdbooks.\n\n"@
}

/// The introduction to `book.toml`, and its line in the table of contents.
pub fn book_toml_page() -> (r: (String, Vec<Page>))
    ensures
        r.0@ == "- [book.toml](./book-toml.md)\n"@,
        pages_view(r.1@) == seq![("book-toml.md"@, book_toml_markdown())],
{
    let summary = String::from_str("- [book.toml](./book-toml.md)\n");
    let mut md = String::from_str("# book.toml\n\n");
    md.append("The book.toml file is the main [configuration file](https://rust-lang.github.io/mdBook/format/configuration/) of every mdbook.\n");
    md.append("In this chapter we analyzet the content of the book.toml files in the listed mdbooks.\n\n");
    let mut pages: Vec<Page> = Vec::new();
    pages.push(Page { path: String::from_str("book-toml.md"), content: md });
    assert(pages_view(pages@) =~= seq![("book-toml.md"@, book_toml_markdown())]);
    (summary, pages)
}

/// The opening of the errors page.
pub open spec fn errors_intro() -> Seq<char> {
    "# Errors in the mdbooks\n\n"@
        + "The errors are as reported by our parser. They might or might not be real problems.\n"@
        + "If you think the error is incorrect, please open an issue on [our repository](https://github.com/szabgab/public-mdbooks).\n"@
        + "If you think the problem is with the specific mdbook, please open an issue on the repository of that mdbook.\n"@
        + "We still need to clean up the error messages.\n\n"@
}

pub open spec fn error_entry(b: MDBook) -> Seq<char> {
    match b.error {
        Some(e) => "* "@ + book_link(b) + "\n"@ + "* [repo]("@ + repo_url(b) + ")\n\n"@ + e@ + "\n\n"@ + "---\n\n"@,
        None => Seq::empty(),
    }
}

pub open spec fn error_entries() -> spec_fn(MDBook) -> Seq<char> {
    |b: MDBook| error_entry(b)
}

/// The errors page: how many books reported an error, and the error of each.
pub open spec fn errors_markdown(books: Seq<MDBook>) -> Seq<char> {
    errors_intro() + "Total number of errors "@ + decimal(error_count(books)) + " (in "@ + decimal(books.len())
        + " books)\n\n"@ + "---\n\n"@ + concat_books(books, error_entries())
}

/// Every book with an error has its entry, with that error, on the errors
/// page.
pub proof fn lemma_every_error_listed(books: Seq<MDBook>, i: int)
    requires
        0 <= i < books.len(),
        books[i].error is Some,
    ensures
        exists|before: Seq<char>, after: Seq<char>|
            errors_markdown(books) == before + error_entry(books[i]) + after,
        error_entry(books[i]) == "* "@ + book_link(books[i]) + "\n"@ + "* [repo]("@ + repo_url(books[i])
            + ")\n\n"@ + books[i].error.unwrap()@ + "\n\n"@ + "---\n\n"@,
{
    let b = books[i];
    let f = error_entries();
    assert(books =~= books.take(i) + seq![b] + books.skip(i + 1));
    lemma_concat_books_add(books.take(i) + seq![b], books.skip(i + 1), f);
    lemma_concat_books_add(books.take(i), seq![b], f);
    lemma_concat_books_single(b, f);
    let text = errors_markdown(books);
    let pre = text.take(text.len() - concat_books(books, f).len()) + concat_books(books.take(i), f);
    let post = concat_books(books.skip(i + 1), f);
    assert(text =~= pre + error_entry(b) + post);
}

fn push_error_entry(md: &mut String, b: &MDBook)
    ensures
        final(md)@ == old(md)@ + error_entry(*b),
{
    if let Some(e) = &b.error {
        md.append("* ");
        push_book_link(md, b);
        md.append("\n");
        md.append("* [repo](");
        md.append(b.repo.url().as_str());
        md.append(")\n\n");
        md.append(e.as_str());
        md.append("\n\n");
        md.append("---\n\n");
    }
    assert(md@ =~= old(md)@ + error_entry(*b));
}

/// The errors page, and its line in the table of contents.
pub fn errors_page(mdbooks: &Vec<MDBook>) -> (r: (String, Vec<Page>))
    ensures
        r.0@ == "- [errors](./errors.md)\n"@,
        pages_view(r.1@) == seq![("errors.md"@, errors_markdown(mdbooks@))],
{
    let summary = String::from_str("- [errors](./errors.md)\n");
    let mut md = String::from_str("# Errors in the mdbooks\n\n");
    let count = count_errors(mdbooks);
    md.append("The errors are as reported by our parser. They might or might not be real problems.\n");
    md.append("If you think the error is incorrect, please open an issue on [our repository](https://github.com/szabgab/public-mdbooks).\n");
    md.append("If you think the problem is with the specific mdbook, please open an issue on the repository of that mdbook.\n");
    md.append("We still need to clean up the error messages.\n\n");
    md.append("Total number of errors ");
    push_decimal(&mut md, count);
    md.append(" (in ");
    push_decimal(&mut md, mdbooks.len());
    md.append(" books)\n\n");
    md.append("---\n\n");
    let ghost header = md@;
    assert(header =~= errors_intro() + "Total number of errors "@ + decimal(error_count(mdbooks@)) + " (in "@
        + decimal(mdbooks@.len()) + " books)\n\n"@ + "---\n\n"@);
    let mut i: usize = 0;
    while i < mdbooks.len()
        invariant
            i <= mdbooks.len(),
            md@ == header + concat_books(mdbooks@.take(i as int), error_entries()),
        decreases mdbooks.len() - i,
    {
        push_error_entry(&mut md, &mdbooks[i]);
        proof { lemma_concat_books_step(mdbooks@, error_entries(), i as int); }
        assert(md@ =~= header + concat_books(mdbooks@.take(i + 1), error_entries()));
        i = i + 1;
    }
    proof { lemma_take_all(mdbooks@); }
    let mut pages: Vec<Page> = Vec::new();
    pages.push(Page { path: String::from_str("errors.md"), content: md });
    assert(pages_view(pages@) =~= seq![("errors.md"@, errors_markdown(mdbooks@))]);
    (summary, pages)
}

/// The introduction to the books' own pages.
pub open spec fn books_markdown() -> Seq<char> {
    "# Public mdBooks\n\n"@ + "In this section you can find detailed information about the mdBooks.\n"@
}

/// The introduction to the books' own pages.
pub fn books_page() -> (r: Page)
    ensures
        page_is(r, "books.md"@, books_markdown()),
{
    let mut md = String::from_str("# Public mdBooks\n\n");
    md.append("In this section you can find detailed information about the mdBooks.\n");
    Page { path: String::from_str("books.md"), content: md }
}

/// `p` has the path `path` and the text `content`.
pub open spec fn page_is(p: Page, path: Seq<char>, content: Seq<char>) -> bool {
    p.path@ == path && p.content@ == content
}

/// The file of a book's own page: `host/owner/name.md`.
pub open spec fn book_page_path(b: MDBook) -> Seq<char> {
    slash_join(b.repo@.0, b.repo@.1, b.repo@.2) + ".md"@
}

/// The note on the folder of `book.toml`, when not the repository's root.
pub open spec fn folder_note(b: MDBook) -> Seq<char> {
    match b.folder {
        Some(f) => "  (folder: "@ + f@ + ")"@,
        None => Seq::empty(),
    }
}

/// The line on the book's web site.
pub open spec fn site_line(b: MDBook) -> Seq<char> {
    match b.site {
        Some(s) => "* [site]("@ + s@ + ")\n"@,
        None => "* site: NA\n"@,
    }
}

/// A book's own page: its links, description, comment and `book.toml`.
pub open spec fn single_book_markdown(b: MDBook) -> Seq<char> {
    "# "@ + b.title@ + "\n\n"@ + "* [repo]("@ + repo_url(b) + ")"@ + folder_note(b) + "\n"@ + site_line(b)
        + "* description: "@ + text_or(b.description, "NA"@) + "\n"@ + "* comment: "@ + text_or(b.comment, "NA"@)
        + "\n"@ + "\n## book.toml\n\n```toml\n"@ + b.raw_book_toml@ + "\n```\n"@
}

fn folder_note_text(b: &MDBook) -> (r: String)
    ensures
        r@ == folder_note(*b),
{
    match &b.folder {
        Some(f) => {
            let mut r = String::from_str("  (folder: ");
            r.append(f.as_str());
            r.append(")");
            r
        },
        None => String::new(),
    }
}

fn site_line_text(b: &MDBook) -> (r: String)
    ensures
        r@ == site_line(*b),
{
    match &b.site {
        Some(s) => {
            let mut r = String::from_str("* [site](");
            r.append(s.as_str());
            r.append(")\n");
            r
        },
        None => String::from_str("* site: NA\n"),
    }
}

/// A book's own page.
pub fn single_book_page(b: &MDBook) -> (r: Page)
    ensures
        page_is(r, book_page_path(*b), single_book_markdown(*b)),
{
    let folder = folder_note_text(b);
    let site = site_line_text(b);
    let description = crate::markdown::text_or_default(&b.description, "NA");
    let comment = crate::markdown::text_or_default(&b.comment, "NA");
    let mut md = String::from_str("# ");
    md.append(b.title.as_str());
    md.append("\n\n");
    md.append("* [repo](");
    md.append(b.repo.url().as_str());
    md.append(")");
    md.append(folder.as_str());
    md.append("\n");
    md.append(site.as_str());
    md.append("* description: ");
    md.append(description.as_str());
    md.append("\n");
    md.append("* comment: ");
    md.append(comment.as_str());
    md.append("\n");
    md.append("\n## book.toml\n\n```toml\n");
    md.append(b.raw_book_toml.as_str());
    md.append("\n```\n");
    assert(md@ =~= single_book_markdown(*b));
    let mut path = b.repo.path();
    path.append(".md");
    Page { path, content: md }
}

/// Every link to a book's page, in the index, the errors and the table of
/// contents, leads to the file that the book's own page is written to.
pub proof fn lemma_book_links_reach_pages(b: MDBook)
    ensures
        crate::model::book_relative(b) == "./"@ + book_page_path(b),
{
    assert(crate::model::book_relative(b) =~= "./"@ + book_page_path(b));
}

pub open spec fn book_entry(b: MDBook) -> Seq<char> {
    "  * "@ + book_link(b) + "\n"@
}

pub open spec fn book_entries() -> spec_fn(MDBook) -> Seq<char> {
    |b: MDBook| book_entry(b)
}

/// The lines of the books' pages in the table of contents.
pub open spec fn book_pages_summary(books: Seq<MDBook>) -> Seq<char> {
    "* [Public mdBooks](./books.md)\n"@ + concat_books(books, book_entries())
}

/// The pages of the books: the introduction, then one per book.
pub open spec fn book_pages_view(books: Seq<MDBook>) -> Seq<(Seq<char>, Seq<char>)> {
    seq![("books.md"@, books_markdown())] + books.map_values(|b: MDBook| (book_page_path(b), single_book_markdown(b)))
}

/// The introduction to the books' pages and the page of each book, with
/// their lines in the table of contents.
pub fn create_book_pages(mdbooks: &Vec<MDBook>) -> (r: (String, Vec<Page>))
    ensures
        r.0@ == book_pages_summary(mdbooks@),
        pages_view(r.1@) == book_pages_view(mdbooks@),
{
    let mut summary = String::from_str("* [Public mdBooks](./books.md)\n");
    let ghost prefix = summary@;
    let mut pages: Vec<Page> = Vec::new();
    pages.push(books_page());
    let ghost first = ("books.md"@, books_markdown());
    let ghost each = mdbooks@.map_values(|b: MDBook| (book_page_path(b), single_book_markdown(b)));
    let mut i: usize = 0;
    while i < mdbooks.len()
        invariant
            i <= mdbooks.len(),
            each == mdbooks@.map_values(|b: MDBook| (book_page_path(b), single_book_markdown(b))),
            summary@ == prefix + concat_books(mdbooks@.take(i as int), book_entries()),
            pages_view(pages@) == seq![first] + each.take(i as int),
        decreases mdbooks.len() - i,
    {
        let b = &mdbooks[i];
        let page = single_book_page(b);
        let ghost before = pages@;
        pages.push(page);
        assert(pages_view(pages@) =~= pages_view(before).push(pages_view(pages@).last()));
        assert(pages_view(pages@) =~= seq![first] + each.take(i + 1));
        summary.append("  * ");
        push_book_link(&mut summary, b);
        summary.append("\n");
        proof { lemma_concat_books_step(mdbooks@, book_entries(), i as int); }
        assert(summary@ =~= prefix + concat_books(mdbooks@.take(i + 1), book_entries()));
        i = i + 1;
    }
    proof { lemma_take_all(mdbooks@); }
    assert(each.take(mdbooks@.len() as int) =~= each);
    (summary, pages)
}

} // verus!
