//! Pages on the `[output]` and `[preprocessor]` tables of `book.toml`, read
//! from the plain TOML table of each book: which keys those tables hold.

use vstd::prelude::*;

use crate::markdown::{
    book_link, concat_books, flatten_text, lemma_concat_books_step, lemma_flatten_text_step,
    lemma_take_all, link_row, push_book_link, push_link_row, strings_view,
};
use crate::model::{
    pages_view, preprocessor_list, preprocessor_names, preprocessor_view, preprocessors, MDBook,
    Page, Preprocessor,
};
use crate::toml_table::{root_keys, subtree, table_keys, table_lookup, toml_tables, TableTree};

verus! {

/// A book whose `book.toml` was read as a record was also read as a table.
pub open spec fn tables_read(books: Seq<MDBook>) -> bool {
    forall|i: int| 0 <= i < books.len() && (#[trigger] books[i]).book is Some ==> books[i].everything is Some
}

/// The tables of a book's `book.toml`.
pub open spec fn tree_of(b: MDBook) -> TableTree {
    toml_tables(b.everything.unwrap())
}

/// Each key followed by a space.
pub open spec fn spaced(keys: Seq<Seq<char>>) -> Seq<char> {
    flatten_text(keys.map_values(|k: Seq<char>| k + " "@))
}

/// The keys of the table at `path`, each followed by a space, or `unknown`
/// when the value there is not a table.
pub open spec fn keys_or_unknown(tree: TableTree, path: Seq<Seq<char>>) -> Seq<char> {
    if tree.dom().contains(path) {
        spaced(tree[path])
    } else {
        "unknown"@
    }
}

/// What a book's cell says of the top-level entry `key`: nothing without
/// one, else its keys or `unknown`.
pub open spec fn section_cell(tree: TableTree, key: Seq<char>) -> Seq<char> {
    if root_keys(tree).contains(key) {
        keys_or_unknown(tree, seq![key])
    } else {
        Seq::empty()
    }
}

/// The keys, each followed by a space.
fn spaced_keys(keys: &Vec<String>) -> (r: String)
    ensures
        r@ == spaced(strings_view(keys@)),
{
    let ghost parts = strings_view(keys@).map_values(|k: Seq<char>| k + " "@);
    let mut r = String::new();
    let mut j: usize = 0;
    while j < keys.len()
        invariant
            j <= keys.len(),
            parts == strings_view(keys@).map_values(|k: Seq<char>| k + " "@),
            r@ == flatten_text(parts.take(j as int)),
        decreases keys.len() - j,
    {
        r.append(keys[j].as_str());
        r.append(" ");
        proof { lemma_flatten_text_step(parts, j as int); }
        assert(parts[j as int] == keys@[j as int]@ + " "@);
        assert(r@ =~= flatten_text(parts.take(j + 1)));
        j = j + 1;
    }
    assert(parts.take(keys.len() as int) =~= parts);
    r
}

/// The keys of the top-level table `key` of `t`, as its cell shows them.
fn section_fields(t: &toml::Table, key: &str) -> (r: String)
    ensures
        r@ == section_cell(toml_tables(*t), key@),
{
    match table_lookup(t, key) {
        None => String::new(),
        Some(None) => String::from_str("unknown"),
        Some(Some(sub)) => {
            let keys = table_keys(sub);
            assert(seq![key@] + Seq::<Seq<char>>::empty() =~= seq![key@]);
            spaced_keys(&keys)
        },
    }
}

pub open spec fn output_row(b: MDBook) -> Seq<char> {
    if b.book is Some {
        link_row(b, section_cell(tree_of(b), "output"@))
    } else {
        Seq::empty()
    }
}

pub open spec fn output_rows() -> spec_fn(MDBook) -> Seq<char> {
    |b: MDBook| output_row(b)
}

/// The page on the `[output]` table.
pub open spec fn output_markdown(books: Seq<MDBook>) -> Seq<char> {
    "# output\n\n"@ + "| Title | output field | \n"@ + "|-------|-------------| \n"@
        + concat_books(books, output_rows())
}

/// The page on the `[output]` table, and its line in the table of contents.
pub fn output_page(mdbooks: &Vec<MDBook>) -> (r: (String, Vec<Page>))
    requires
        tables_read(mdbooks@),
    ensures
        r.0@ == "  - [output](./output.md)\n"@,
        pages_view(r.1@) == seq![("output.md"@, output_markdown(mdbooks@))],
{
    let mut md = String::from_str("# output\n\n");
    let summary = String::from_str("  - [output](./output.md)\n");
    md.append("| Title | output field | \n");
    md.append("|-------|-------------| \n");
    let ghost header = md@;
    let mut i: usize = 0;
    while i < mdbooks.len()
        invariant
            i <= mdbooks.len(),
            tables_read(mdbooks@),
            md@ == header + concat_books(mdbooks@.take(i as int), output_rows()),
        decreases mdbooks.len() - i,
    {
        let b = &mdbooks[i];
        if b.book.is_some() {
            assert(mdbooks@[i as int] == *b);
            if let Some(table) = &b.everything {
                let fields = section_fields(table, "output");
                push_link_row(&mut md, b, fields.as_str());
            }
        }
        proof { lemma_concat_books_step(mdbooks@, output_rows(), i as int); }
        assert(md@ =~= header + concat_books(mdbooks@.take(i + 1), output_rows()));
        i = i + 1;
    }
    proof { lemma_take_all(mdbooks@); }
    let mut pages: Vec<Page> = Vec::new();
    pages.push(Page { path: String::from_str("output.md"), content: md });
    assert(pages_view(pages@) =~= seq![("output.md"@, output_markdown(mdbooks@))]);
    (summary, pages)
}

/// A preprocessor in the preprocessor cell: a link to its page when it has
/// one, followed by a space.
pub open spec fn preprocessor_item(k: Seq<char>) -> Seq<char> {
    (if preprocessor_names().contains(k) {
        "["@ + k + "](preprocessor-"@ + k + ".md)"@
    } else {
        k
    }) + " "@
}

/// What a book's cell says of its `[preprocessor]` table.
pub open spec fn preprocessor_cell(tree: TableTree) -> Seq<char> {
    if root_keys(tree).contains("preprocessor"@) {
        if tree.dom().contains(seq!["preprocessor"@]) {
            flatten_text(tree[seq!["preprocessor"@]].map_values(|k: Seq<char>| preprocessor_item(k)))
        } else {
            "unknown"@
        }
    } else {
        Seq::empty()
    }
}

/// Whether `name` is one of the preprocessors with a page of their own.
fn is_known_preprocessor(name: &String, known: &Vec<Preprocessor>) -> (r: bool)
    requires
        known@.map_values(|p: Preprocessor| preprocessor_view(p)) == preprocessor_list(),
    ensures
        r == preprocessor_names().contains(name@),
{
    let mut j: usize = 0;
    while j < known.len()
        invariant
            j <= known.len(),
            known@.map_values(|p: Preprocessor| preprocessor_view(p)) == preprocessor_list(),
            forall|k: int| 0 <= k < j ==> preprocessor_names()[k] != name@,
        decreases known.len() - j,
    {
        assert(preprocessor_list()[j as int] == preprocessor_view(known@[j as int]));
        if known[j].name == *name {
            assert(preprocessor_names()[j as int] == name@);
            return true;
        }
        j = j + 1;
    }
    false
}

/// The preprocessor cell of a book's table.
fn preprocessor_fields(t: &toml::Table, known: &Vec<Preprocessor>) -> (r: String)
    requires
        known@.map_values(|p: Preprocessor| preprocessor_view(p)) == preprocessor_list(),
    ensures
        r@ == preprocessor_cell(toml_tables(*t)),
{
    match table_lookup(t, "preprocessor") {
        None => String::new(),
        Some(None) => String::from_str("unknown"),
        Some(Some(sub)) => {
            let keys = table_keys(sub);
            assert(seq!["preprocessor"@] + Seq::<Seq<char>>::empty() =~= seq!["preprocessor"@]);
            let ghost parts = strings_view(keys@).map_values(|k: Seq<char>| preprocessor_item(k));
            let mut r = String::new();
            let mut j: usize = 0;
            while j < keys.len()
                invariant
                    j <= keys.len(),
                    known@.map_values(|p: Preprocessor| preprocessor_view(p)) == preprocessor_list(),
                    parts == strings_view(keys@).map_values(|k: Seq<char>| preprocessor_item(k)),
                    r@ == flatten_text(parts.take(j as int)),
                decreases keys.len() - j,
            {
                let k = &keys[j];
                if is_known_preprocessor(k, known) {
                    r.append("[");
                    r.append(k.as_str());
                    r.append("](preprocessor-");
                    r.append(k.as_str());
                    r.append(".md)");
                } else {
                    r.append(k.as_str());
                }
                r.append(" ");
                proof { lemma_flatten_text_step(parts, j as int); }
                assert(parts[j as int] == preprocessor_item(keys@[j as int]@));
                assert(r@ =~= flatten_text(parts.take(j + 1)));
                j = j + 1;
            }
            assert(parts.take(keys.len() as int) =~= parts);
            assert(strings_view(keys@) == toml_tables(*t)[seq!["preprocessor"@]]);
            r
        },
    }
}

pub open spec fn preprocessor_row(b: MDBook) -> Seq<char> {
    if b.book is Some {
        "| "@ + book_link(b) + " |  "@ + preprocessor_cell(tree_of(b)) + " | \n"@
    } else {
        Seq::empty()
    }
}

pub open spec fn preprocessor_rows() -> spec_fn(MDBook) -> Seq<char> {
    |b: MDBook| preprocessor_row(b)
}

/// The page on the `[preprocessor]` table.
pub open spec fn preprocessor_markdown(books: Seq<MDBook>) -> Seq<char> {
    "# preprocessor\n\n"@ + "| Title | preprocessors | \n"@ + "|-------|-------------| \n"@
        + concat_books(books, preprocessor_rows())
}

/// The row of a book on the page of the preprocessor `name`: only books
/// that configure it have one.
/// The book's `book.toml` was read and its `[preprocessor]` table has an
/// entry `name`.
pub open spec fn configures_preprocessor(b: MDBook, name: Seq<char>) -> bool {
    let tree = tree_of(b);
    b.book is Some && tree.dom().contains(seq!["preprocessor"@]) && tree[seq!["preprocessor"@]].contains(name)
}

pub open spec fn preprocessor_detail_row(name: Seq<char>, b: MDBook) -> Seq<char> {
    if configures_preprocessor(b, name) {
        link_row(b, keys_or_unknown(tree_of(b), seq!["preprocessor"@, name]))
    } else {
        Seq::empty()
    }
}

pub open spec fn preprocessor_detail_rows(name: Seq<char>) -> spec_fn(MDBook) -> Seq<char> {
    |b: MDBook| preprocessor_detail_row(name, b)
}

/// The page of one preprocessor: (name, crates.io page, description).
pub open spec fn preprocessor_details_markdown(
    books: Seq<MDBook>,
    p: (Seq<char>, Seq<char>, Seq<char>),
) -> Seq<char> {
    "# preprocessor "@ + p.0 + "\n\n"@ + "The preprocessor "@ + p.0 + " is available on [crates.io]("@ + p.1
        + ").\n\n"@ + p.2 + "\n\n"@ + "| Title | preprocessor field | \n"@ + "|-------|-------------| \n"@
        + concat_books(books, preprocessor_detail_rows(p.0))
}

/// The file of one preprocessor's page.
pub open spec fn preprocessor_details_path(p: (Seq<char>, Seq<char>, Seq<char>)) -> Seq<char> {
    "preprocessor-"@ + p.0 + ".md"@
}

/// The cell of a book's table on the page of the preprocessor `name`, or
/// `None` when the book does not configure it.
fn preprocessor_detail_fields(t: &toml::Table, name: &str) -> (r: Option<String>)
    ensures
        ({
            let tree = toml_tables(*t);
            let configured = tree.dom().contains(seq!["preprocessor"@]) && tree[seq!["preprocessor"@]].contains(name@);
            &&& r is Some <==> configured
            &&& r matches Some(f) ==> f@ == keys_or_unknown(tree, seq!["preprocessor"@, name@])
        }),
{
    match table_lookup(t, "preprocessor") {
        Some(Some(sub)) => {
            assert(seq!["preprocessor"@] + Seq::<Seq<char>>::empty() =~= seq!["preprocessor"@]);
            assert(seq!["preprocessor"@] + seq![name@] =~= seq!["preprocessor"@, name@]);
            match table_lookup(sub, name) {
                None => None,
                Some(None) => Some(String::from_str("unknown")),
                Some(Some(data)) => {
                    let keys = table_keys(data);
                    assert(seq![name@] + Seq::<Seq<char>>::empty() =~= seq![name@]);
                    Some(spaced_keys(&keys))
                },
            }
        },
        _ => None,
    }
}

/// The page of one preprocessor, listing the books that configure it and the
/// keys they set.
pub fn preprocessor_details_page(mdbooks: &Vec<MDBook>, preprocessor: &Preprocessor) -> (r: Page)
    requires
        tables_read(mdbooks@),
    ensures
        r.path@ == preprocessor_details_path(preprocessor_view(*preprocessor)),
        r.content@ == preprocessor_details_markdown(mdbooks@, preprocessor_view(*preprocessor)),
{
    let ghost p = preprocessor_view(*preprocessor);
    let mut md = String::from_str("# preprocessor ");
    md.append(preprocessor.name.as_str());
    md.append("\n\n");
    md.append("The preprocessor ");
    md.append(preprocessor.name.as_str());
    md.append(" is available on [crates.io](");
    md.append(preprocessor.cratesio.as_str());
    md.append(").\n\n");
    md.append(preprocessor.description.as_str());
    md.append("\n\n");
    md.append("| Title | preprocessor field | \n");
    md.append("|-------|-------------| \n");
    let ghost header = md@;
    let mut i: usize = 0;
    while i < mdbooks.len()
        invariant
            i <= mdbooks.len(),
            tables_read(mdbooks@),
            p == preprocessor_view(*preprocessor),
            md@ == header + concat_books(mdbooks@.take(i as int), preprocessor_detail_rows(p.0)),
        decreases mdbooks.len() - i,
    {
        let b = &mdbooks[i];
        if b.book.is_some() {
            assert(mdbooks@[i as int] == *b);
            if let Some(table) = &b.everything {
                if let Some(fields) = preprocessor_detail_fields(table, preprocessor.name.as_str()) {
                    push_link_row(&mut md, b, fields.as_str());
                }
            }
        }
        proof { lemma_concat_books_step(mdbooks@, preprocessor_detail_rows(p.0), i as int); }
        assert(md@ =~= header + concat_books(mdbooks@.take(i + 1), preprocessor_detail_rows(p.0)));
        i = i + 1;
    }
    proof { lemma_take_all(mdbooks@); }
    let mut path = String::from_str("preprocessor-");
    path.append(preprocessor.name.as_str());
    path.append(".md");
    assert(path@ =~= preprocessor_details_path(p));
    assert(md@ =~= preprocessor_details_markdown(mdbooks@, p));
    Page { path, content: md }
}

/// A book added to the list that does not configure a preprocessor leaves
/// that preprocessor's page as it was.
pub proof fn lemma_unconfigured_book_keeps_details_page(
    books: Seq<MDBook>,
    x: MDBook,
    p: (Seq<char>, Seq<char>, Seq<char>),
)
    requires
        !configures_preprocessor(x, p.0),
    ensures
        preprocessor_details_markdown(books.push(x), p) == preprocessor_details_markdown(books, p),
{
    let f = preprocessor_detail_rows(p.0);
    assert(books.push(x).drop_last() =~= books);
    assert(concat_books(books.push(x), f) =~= concat_books(books, f));
}

/// The line of one preprocessor's page in the table of contents.
pub open spec fn preprocessor_summary_line(p: (Seq<char>, Seq<char>, Seq<char>)) -> Seq<char> {
    "    - ["@ + p.0 + "](./preprocessor-"@ + p.0 + ".md)\n"@
}

/// The lines of the section on `[preprocessor]` in the table of contents.
pub open spec fn preprocessor_summary() -> Seq<char> {
    "  - [preprocessor](./preprocessor.md)\n"@ + flatten_text(
        preprocessor_list().map_values(|p: (Seq<char>, Seq<char>, Seq<char>)| preprocessor_summary_line(p)),
    )
}

/// The pages of the preprocessors: (path, content).
pub open spec fn preprocessor_detail_pages(books: Seq<MDBook>) -> Seq<(Seq<char>, Seq<char>)> {
    preprocessor_list().map_values(
        |p: (Seq<char>, Seq<char>, Seq<char>)| (preprocessor_details_path(p), preprocessor_details_markdown(books, p)),
    )
}

fn push_preprocessor_row(md: &mut String, b: &MDBook, t: &toml::Table, known: &Vec<Preprocessor>)
    requires
        known@.map_values(|p: Preprocessor| preprocessor_view(p)) == preprocessor_list(),
        b.book is Some,
        b.everything == Some(*t),
    ensures
        final(md)@ == old(md)@ + preprocessor_row(*b),
{
    let fields = preprocessor_fields(t, known);
    md.append("| ");
    push_book_link(md, b);
    md.append(" |  ");
    md.append(fields.as_str());
    md.append(" | \n");
    assert(md@ =~= old(md)@ + preprocessor_row(*b));
}

/// The page on the `[preprocessor]` table followed by the page of each
/// preprocessor, and their lines in the table of contents.
pub fn preprocessor_page(mdbooks: &Vec<MDBook>) -> (r: (String, Vec<Page>))
    requires
        tables_read(mdbooks@),
    ensures
        r.0@ == preprocessor_summary(),
        pages_view(r.1@) == seq![("preprocessor.md"@, preprocessor_markdown(mdbooks@))]
            + preprocessor_detail_pages(mdbooks@),
{
    let known = preprocessors();
    let mut md = String::from_str("# preprocessor\n\n");
    md.append("| Title | preprocessors | \n");
    md.append("|-------|-------------| \n");
    let ghost header = md@;
    let mut i: usize = 0;
    while i < mdbooks.len()
        invariant
            i <= mdbooks.len(),
            tables_read(mdbooks@),
            known@.map_values(|p: Preprocessor| preprocessor_view(p)) == preprocessor_list(),
            md@ == header + concat_books(mdbooks@.take(i as int), preprocessor_rows()),
        decreases mdbooks.len() - i,
    {
        let b = &mdbooks[i];
        if b.book.is_some() {
            assert(mdbooks@[i as int] == *b);
            if let Some(table) = &b.everything {
                push_preprocessor_row(&mut md, b, table, &known);
            }
        }
        proof { lemma_concat_books_step(mdbooks@, preprocessor_rows(), i as int); }
        assert(md@ =~= header + concat_books(mdbooks@.take(i + 1), preprocessor_rows()));
        i = i + 1;
    }
    proof { lemma_take_all(mdbooks@); }
    let mut summary = String::from_str("  - [preprocessor](./preprocessor.md)\n");
    let ghost prefix = summary@;
    let mut pages: Vec<Page> = Vec::new();
    pages.push(Page { path: String::from_str("preprocessor.md"), content: md });
    let ghost first = ("preprocessor.md"@, preprocessor_markdown(mdbooks@));
    let ghost lines = preprocessor_list().map_values(|p: (Seq<char>, Seq<char>, Seq<char>)| preprocessor_summary_line(p));
    let mut j: usize = 0;
    while j < known.len()
        invariant
            j <= known.len(),
            tables_read(mdbooks@),
            known@.map_values(|p: Preprocessor| preprocessor_view(p)) == preprocessor_list(),
            lines == preprocessor_list().map_values(|p: (Seq<char>, Seq<char>, Seq<char>)| preprocessor_summary_line(p)),
            summary@ == prefix + flatten_text(lines.take(j as int)),
            pages_view(pages@) == seq![first] + preprocessor_detail_pages(mdbooks@).take(j as int),
        decreases known.len() - j,
    {
        assert(preprocessor_list()[j as int] == preprocessor_view(known@[j as int]));
        let page = preprocessor_details_page(mdbooks, &known[j]);
        summary.append("    - [");
        summary.append(known[j].name.as_str());
        summary.append("](./preprocessor-");
        summary.append(known[j].name.as_str());
        summary.append(".md)\n");
        proof { lemma_flatten_text_step(lines, j as int); }
        assert(summary@ =~= prefix + flatten_text(lines.take(j + 1)));
        let ghost before = pages@;
        pages.push(page);
        assert(pages_view(pages@) =~= pages_view(before).push(pages_view(pages@).last()));
        assert(pages_view(pages@) =~= seq![first] + preprocessor_detail_pages(mdbooks@).take(j + 1));
        j = j + 1;
    }
    assert(lines.take(known.len() as int) =~= lines);
    assert(preprocessor_detail_pages(mdbooks@).take(known.len() as int) =~= preprocessor_detail_pages(mdbooks@));
    (summary, pages)
}

} // verus!
