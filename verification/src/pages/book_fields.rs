//! Pages on the `[book]` and `[rust]` tables of `book.toml`: one table per
//! field, with a row for each book whose `book.toml` was read.

use vstd::prelude::*;

use crate::markdown::{
    book_link, concat_books, join_comma, join_with_comma, lemma_concat_books_step, lemma_take_all,
    link_row, push_book_link, push_link_row, strings_view, text_or, text_or_default,
};
use crate::model::{pages_view, BookToml, MDBook, Page};
use crate::text::{bool_text, push_bool};

verus! {

/// The `book.src` cell of a book: the field, or `-`.
pub open spec fn src_row(b: MDBook) -> Seq<char> {
    match b.book {
        Some(bk) => link_row(b, text_or(bk.book.src, "-"@)),
        None => Seq::empty(),
    }
}

pub open spec fn src_rows() -> spec_fn(MDBook) -> Seq<char> {
    |b: MDBook| src_row(b)
}

/// The page on `book.src`.
pub open spec fn src_markdown(books: Seq<MDBook>) -> Seq<char> {
    "# The book.src field\n\n"@ + "| Title | src |\n"@ + "|-------|-------------|\n"@
        + concat_books(books, src_rows())
}

/// The page on `book.src`, and its line in the table of contents.
pub fn src_page(mdbooks: &Vec<MDBook>) -> (r: (String, Vec<Page>))
    ensures
        r.0@ == "    - [src](./src.md)\n"@,
        pages_view(r.1@) == seq![("src.md"@, src_markdown(mdbooks@))],
{
    let summary = String::from_str("    - [src](./src.md)\n");
    let mut md = String::from_str("# The book.src field\n\n");
    md.append("| Title | src |\n");
    md.append("|-------|-------------|\n");
    let ghost header = md@;
    let mut i: usize = 0;
    while i < mdbooks.len()
        invariant
            i <= mdbooks.len(),
            md@ == header + concat_books(mdbooks@.take(i as int), src_rows()),
        decreases mdbooks.len() - i,
    {
        let b = &mdbooks[i];
        if let Some(bk) = &b.book {
            let cell = text_or_default(&bk.book.src, "-");
            push_link_row(&mut md, b, cell.as_str());
        }
        proof { lemma_concat_books_step(mdbooks@, src_rows(), i as int); }
        assert(md@ =~= header + concat_books(mdbooks@.take(i + 1), src_rows()));
        i = i + 1;
    }
    proof { lemma_take_all(mdbooks@); }
    let mut pages: Vec<Page> = Vec::new();
    pages.push(Page { path: String::from_str("src.md"), content: md });
    assert(pages_view(pages@) =~= seq![("src.md"@, src_markdown(mdbooks@))]);
    (summary, pages)
}

/// The `book.text-direction` cell of a book: the field, or `-`.
pub open spec fn text_direction_row(b: MDBook) -> Seq<char> {
    match b.book {
        Some(bk) => link_row(b, text_or(bk.book.text_direction, "-"@)),
        None => Seq::empty(),
    }
}

pub open spec fn text_direction_rows() -> spec_fn(MDBook) -> Seq<char> {
    |b: MDBook| text_direction_row(b)
}

/// The page on `book.text-direction`.
pub open spec fn text_direction_markdown(books: Seq<MDBook>) -> Seq<char> {
    "# The book.text-direction field\n\n"@ + "| Title |  text-direction |\n"@
        + "|-------|-------------|\n"@ + concat_books(books, text_direction_rows())
}

/// The page on `book.text-direction`, and its line in the table of contents.
pub fn text_direction_page(mdbooks: &Vec<MDBook>) -> (r: (String, Vec<Page>))
    ensures
        r.0@ == "    - [text-direction](./text-direction.md)\n"@,
        pages_view(r.1@) == seq![("text-direction.md"@, text_direction_markdown(mdbooks@))],
{
    let summary = String::from_str("    - [text-direction](./text-direction.md)\n");
    let mut md = String::from_str("# The book.text-direction field\n\n");
    md.append("| Title |  text-direction |\n");
    md.append("|-------|-------------|\n");
    let ghost header = md@;
    let mut i: usize = 0;
    while i < mdbooks.len()
        invariant
            i <= mdbooks.len(),
            md@ == header + concat_books(mdbooks@.take(i as int), text_direction_rows()),
        decreases mdbooks.len() - i,
    {
        let b = &mdbooks[i];
        if let Some(bk) = &b.book {
            let cell = text_or_default(&bk.book.text_direction, "-");
            push_link_row(&mut md, b, cell.as_str());
        }
        proof { lemma_concat_books_step(mdbooks@, text_direction_rows(), i as int); }
        assert(md@ =~= header + concat_books(mdbooks@.take(i + 1), text_direction_rows()));
        i = i + 1;
    }
    proof { lemma_take_all(mdbooks@); }
    let mut pages: Vec<Page> = Vec::new();
    pages.push(Page { path: String::from_str("text-direction.md"), content: md });
    assert(pages_view(pages@) =~= seq![("text-direction.md"@, text_direction_markdown(mdbooks@))]);
    (summary, pages)
}

/// The `book.multilingual` cell of a book: `true`, `false`, or `-`.
pub open spec fn multilingual_cell(m: Option<bool>) -> Seq<char> {
    match m {
        Some(v) => bool_text(v),
        None => "-"@,
    }
}

pub open spec fn multilingual_row(b: MDBook) -> Seq<char> {
    match b.book {
        Some(bk) => link_row(b, multilingual_cell(bk.book.multilingual)),
        None => Seq::empty(),
    }
}

pub open spec fn multilingual_rows() -> spec_fn(MDBook) -> Seq<char> {
    |b: MDBook| multilingual_row(b)
}

/// The page on `book.multilingual`.
pub open spec fn multilingual_markdown(books: Seq<MDBook>) -> Seq<char> {
    "# The book.multilingual field\n\n"@ + "| Title | multilingual |\n"@
        + "|-------|-------------|\n"@ + concat_books(books, multilingual_rows())
}

/// The page on `book.multilingual`, and its line in the table of contents.
pub fn multilingual_page(mdbooks: &Vec<MDBook>) -> (r: (String, Vec<Page>))
    ensures
        r.0@ == "    - [multilingual](./multilingual.md)\n"@,
        pages_view(r.1@) == seq![("multilingual.md"@, multilingual_markdown(mdbooks@))],
{
    let summary = String::from_str("    - [multilingual](./multilingual.md)\n");
    let mut md = String::from_str("# The book.multilingual field\n\n");
    md.append("| Title | multilingual |\n");
    md.append("|-------|-------------|\n");
    let ghost header = md@;
    let mut i: usize = 0;
    while i < mdbooks.len()
        invariant
            i <= mdbooks.len(),
            md@ == header + concat_books(mdbooks@.take(i as int), multilingual_rows()),
        decreases mdbooks.len() - i,
    {
        let b = &mdbooks[i];
        if let Some(bk) = &b.book {
            let mut cell = String::new();
            match bk.book.multilingual {
                Some(v) => push_bool(&mut cell, v),
                None => cell.append("-"),
            }
            assert(cell@ =~= multilingual_cell(bk.book.multilingual));
            push_link_row(&mut md, b, cell.as_str());
        }
        proof { lemma_concat_books_step(mdbooks@, multilingual_rows(), i as int); }
        assert(md@ =~= header + concat_books(mdbooks@.take(i + 1), multilingual_rows()));
        i = i + 1;
    }
    proof { lemma_take_all(mdbooks@); }
    let mut pages: Vec<Page> = Vec::new();
    pages.push(Page { path: String::from_str("multilingual.md"), content: md });
    assert(pages_view(pages@) =~= seq![("multilingual.md"@, multilingual_markdown(mdbooks@))]);
    (summary, pages)
}

/// The `rust.edition` cell of a book: the edition, or nothing without `[rust]`.
pub open spec fn edition_cell(bk: BookToml) -> Seq<char> {
    match bk.rust {
        Some(r) => r.edition@,
        None => Seq::empty(),
    }
}

pub open spec fn rust_row(b: MDBook) -> Seq<char> {
    match b.book {
        Some(bk) => link_row(b, edition_cell(bk)),
        None => Seq::empty(),
    }
}

pub open spec fn rust_rows() -> spec_fn(MDBook) -> Seq<char> {
    |b: MDBook| rust_row(b)
}

/// The page on `rust.edition`.
pub open spec fn rust_markdown(books: Seq<MDBook>) -> Seq<char> {
    "# The rust.edition field\n\n"@ + "| Title | editon |\n"@ + "|-------|-------------|\n"@
        + concat_books(books, rust_rows())
}

/// The page on `rust.edition`, and its line in the table of contents.
pub fn rust_page(mdbooks: &Vec<MDBook>) -> (r: (String, Vec<Page>))
    ensures
        r.0@ == "  - [rust](./rust.md)\n"@,
        pages_view(r.1@) == seq![("rust.md"@, rust_markdown(mdbooks@))],
{
    let summary = String::from_str("  - [rust](./rust.md)\n");
    let mut md = String::from_str("# The rust.edition field\n\n");
    md.append("| Title | editon |\n");
    md.append("|-------|-------------|\n");
    let ghost header = md@;
    let mut i: usize = 0;
    while i < mdbooks.len()
        invariant
            i <= mdbooks.len(),
            md@ == header + concat_books(mdbooks@.take(i as int), rust_rows()),
        decreases mdbooks.len() - i,
    {
        let b = &mdbooks[i];
        if let Some(bk) = &b.book {
            let cell = match &bk.rust {
                Some(r) => r.edition.clone(),
                None => String::new(),
            };
            push_link_row(&mut md, b, cell.as_str());
        }
        proof { lemma_concat_books_step(mdbooks@, rust_rows(), i as int); }
        assert(md@ =~= header + concat_books(mdbooks@.take(i + 1), rust_rows()));
        i = i + 1;
    }
    proof { lemma_take_all(mdbooks@); }
    let mut pages: Vec<Page> = Vec::new();
    pages.push(Page { path: String::from_str("rust.md"), content: md });
    assert(pages_view(pages@) =~= seq![("rust.md"@, rust_markdown(mdbooks@))]);
    (summary, pages)
}

/// The `build.build-dir` cell: the directory, or nothing.
pub open spec fn build_dir_cell(bk: BookToml) -> Seq<char> {
    match bk.build {
        Some(bd) => text_or(bd.build_dir, Seq::empty()),
        None => Seq::empty(),
    }
}

/// The text of an optional flag: `true`, `false`, or nothing.
pub open spec fn flag_cell(f: Option<bool>) -> Seq<char> {
    match f {
        Some(v) => bool_text(v),
        None => Seq::empty(),
    }
}

/// The `build.create-missing` cell.
pub open spec fn create_missing_cell(bk: BookToml) -> Seq<char> {
    match bk.build {
        Some(bd) => flag_cell(bd.create_missing),
        None => Seq::empty(),
    }
}

/// The `build.extra-watch-dirs` cell: the directories separated by `,`.
pub open spec fn extra_watch_dirs_cell(bk: BookToml) -> Seq<char> {
    match bk.build {
        Some(bd) => match bd.extra_watch_dirs {
            Some(dirs) => join_comma(strings_view(dirs@)),
            None => Seq::empty(),
        },
        None => Seq::empty(),
    }
}

/// The `build.use-default-preprocessors` cell.
pub open spec fn use_default_preprocessors_cell(bk: BookToml) -> Seq<char> {
    match bk.build {
        Some(bd) => flag_cell(bd.use_default_preprocessors),
        None => Seq::empty(),
    }
}

pub open spec fn build_row(b: MDBook) -> Seq<char> {
    match b.book {
        Some(bk) => "| "@ + book_link(b) + " | "@ + build_dir_cell(bk) + " | "@ + create_missing_cell(bk)
            + " | "@ + extra_watch_dirs_cell(bk) + " | "@ + use_default_preprocessors_cell(bk) + " |\n"@,
        None => Seq::empty(),
    }
}

pub open spec fn build_rows() -> spec_fn(MDBook) -> Seq<char> {
    |b: MDBook| build_row(b)
}

/// The page on the `[build]` table.
pub open spec fn build_markdown(books: Seq<MDBook>) -> Seq<char> {
    "# The build table\n\n"@
        + "| Title | build-dir | create-missing | extra-watch-dirs | use-default-preprocessors |\n"@
        + "|-------|-------------|--------|------|------| \n"@ + concat_books(books, build_rows())
}

fn flag_text(f: Option<bool>) -> (r: String)
    ensures
        r@ == flag_cell(f),
{
    let mut r = String::new();
    if let Some(v) = f {
        push_bool(&mut r, v);
    }
    assert(r@ =~= flag_cell(f));
    r
}

fn build_cells(bk: &BookToml) -> (r: (String, String, String, String))
    ensures
        r.0@ == build_dir_cell(*bk),
        r.1@ == create_missing_cell(*bk),
        r.2@ == extra_watch_dirs_cell(*bk),
        r.3@ == use_default_preprocessors_cell(*bk),
{
    match &bk.build {
        Some(bd) => {
            let dir = text_or_default(&bd.build_dir, "");
            let dirs = match &bd.extra_watch_dirs {
                Some(d) => join_with_comma(d),
                None => String::new(),
            };
            proof { reveal_strlit(""); }
            (dir, flag_text(bd.create_missing), dirs, flag_text(bd.use_default_preprocessors))
        },
        None => (String::new(), String::new(), String::new(), String::new()),
    }
}

fn push_build_row(md: &mut String, b: &MDBook, bk: &BookToml)
    requires
        b.book == Some(*bk),
    ensures
        final(md)@ == old(md)@ + build_row(*b),
{
    let cells = build_cells(bk);
    md.append("| ");
    push_book_link(md, b);
    md.append(" | ");
    md.append(cells.0.as_str());
    md.append(" | ");
    md.append(cells.1.as_str());
    md.append(" | ");
    md.append(cells.2.as_str());
    md.append(" | ");
    md.append(cells.3.as_str());
    md.append(" |\n");
    assert(md@ =~= old(md)@ + build_row(*b));
}

/// The page on the `[build]` table, and its line in the table of contents.
pub fn build_page(mdbooks: &Vec<MDBook>) -> (r: (String, Vec<Page>))
    ensures
        r.0@ == "  - [build](./build.md)\n"@,
        pages_view(r.1@) == seq![("build.md"@, build_markdown(mdbooks@))],
{
    let mut md = String::from_str("# The build table\n\n");
    let summary = String::from_str("  - [build](./build.md)\n");
    md.append("| Title | build-dir | create-missing | extra-watch-dirs | use-default-preprocessors |\n");
    md.append("|-------|-------------|--------|------|------| \n");
    let ghost header = md@;
    let mut i: usize = 0;
    while i < mdbooks.len()
        invariant
            i <= mdbooks.len(),
            md@ == header + concat_books(mdbooks@.take(i as int), build_rows()),
        decreases mdbooks.len() - i,
    {
        let b = &mdbooks[i];
        if let Some(bk) = &b.book {
            push_build_row(&mut md, b, bk);
        }
        proof { lemma_concat_books_step(mdbooks@, build_rows(), i as int); }
        assert(md@ =~= header + concat_books(mdbooks@.take(i + 1), build_rows()));
        i = i + 1;
    }
    proof { lemma_take_all(mdbooks@); }
    let mut pages: Vec<Page> = Vec::new();
    pages.push(Page { path: String::from_str("build.md"), content: md });
    assert(pages_view(pages@) =~= seq![("build.md"@, build_markdown(mdbooks@))]);
    (summary, pages)
}

} // verus!
