//! The section on the `[book]` table: an introduction followed by the pages
//! on `book.src`, `book.language`, `book.text-direction` and
//! `book.multilingual`.

use vstd::prelude::*;

use crate::model::{pages_view, MDBook, Page};
use crate::pages::book_fields::{
    multilingual_markdown, multilingual_page, src_markdown, src_page, text_direction_markdown,
    text_direction_page,
};
use crate::pages::languages::{
    language_markdown, language_page_with, language_summaries, single_language_pages,
    unlisted_languages, unlisted_set_text,
};
use crate::markdown::debug_set;

verus! {

/// The introduction of the section on `[book]`.
pub open spec fn book_intro() -> Seq<char> {
    "# book\n\n"@ + "The `book` section in the `book.toml file\n"@
}

/// The lines of the section on `[book]` in the table of contents.
pub open spec fn book_summary() -> Seq<char> {
    "  - [book](./book.md)\n"@ + "    - [src](./src.md)\n"@ + ("    - [language](./language.md)\n"@
        + language_summaries()) + "    - [text-direction](./text-direction.md)\n"@
        + "    - [multilingual](./multilingual.md)\n"@
}

/// The pages of the section on `[book]`, with `set_text` as the print of the
/// set of unlisted languages.
pub open spec fn book_section_pages(books: Seq<MDBook>, set_text: Seq<char>) -> Seq<(Seq<char>, Seq<char>)> {
    seq![("book.md"@, book_intro()), ("src.md"@, src_markdown(books))]
        + (seq![("language.md"@, language_markdown(books, set_text))] + single_language_pages(books))
        + seq![("text-direction.md"@, text_direction_markdown(books))]
        + seq![("multilingual.md"@, multilingual_markdown(books))]
}

/// The section on `[book]`: its introduction, then the pages on `book.src`,
/// `book.language` and one per language, `book.text-direction` and
/// `book.multilingual`, with their lines in the table of contents; `set_text`
/// is the print of the set of unlisted languages.
pub fn book_page_with(mdbooks: &Vec<MDBook>, set_text: &str) -> (r: (String, Vec<Page>))
    ensures
        r.0@ == book_summary(),
        pages_view(r.1@) == book_section_pages(mdbooks@, set_text@),
{
    let mut summary = String::from_str("  - [book](./book.md)\n");
    let mut md = String::from_str("# book\n\n");
    md.append("The `book` section in the `book.toml file\n");
    let mut pages: Vec<Page> = Vec::new();
    pages.push(Page { path: String::from_str("book.md"), content: md });
    let (s1, mut p1) = src_page(mdbooks);
    let (s2, mut p2) = language_page_with(mdbooks, set_text);
    let (s3, mut p3) = text_direction_page(mdbooks);
    let (s4, mut p4) = multilingual_page(mdbooks);
    let ghost v0 = pages@;
    let ghost v1 = p1@;
    let ghost v2 = p2@;
    let ghost v3 = p3@;
    let ghost v4 = p4@;
    summary.append(s1.as_str());
    summary.append(s2.as_str());
    summary.append(s3.as_str());
    summary.append(s4.as_str());
    pages.append(&mut p1);
    pages.append(&mut p2);
    pages.append(&mut p3);
    pages.append(&mut p4);
    assert(summary@ =~= book_summary());
    assert(pages@ =~= v0 + v1 + v2 + v3 + v4);
    assert(pages_view(v0) =~= seq![("book.md"@, book_intro())]);
    assert(pages_view(pages@) =~= pages_view(v0) + pages_view(v1) + pages_view(v2) + pages_view(v3) + pages_view(v4));
    assert(pages_view(pages@) =~= book_section_pages(mdbooks@, set_text@));
    (summary, pages)
}

/// The section on `[book]`, as `book_page_with` builds it, with the set of
/// unlisted languages printed as a set, in the order its hash seed gives.
pub fn book_page(mdbooks: &Vec<MDBook>) -> (r: (String, Vec<Page>))
    ensures
        r.0@ == book_summary(),
        exists|walk: Seq<Seq<char>>|
            walk.to_multiset() == unlisted_languages(mdbooks@).to_multiset() && pages_view(r.1@)
                == book_section_pages(mdbooks@, #[trigger] debug_set(walk)),
{
    let set_text = unlisted_set_text(mdbooks);
    book_page_with(mdbooks, set_text.as_str())
}

} // verus!
