//! Building blocks of the report's Markdown: links to a book's page, table
//! rows, and the text of a list of books.

use vstd::prelude::*;

use crate::model::{book_relative, MDBook};

verus! {

/// The texts `f(b)` of the books `b` of `books`, one after the other.
pub open spec fn concat_books(books: Seq<MDBook>, f: spec_fn(MDBook) -> Seq<char>) -> Seq<char>
    decreases books.len(),
{
    if books.len() == 0 {
        Seq::empty()
    } else {
        concat_books(books.drop_last(), f) + f(books.last())
    }
}

/// One more book adds its text at the end.
pub proof fn lemma_concat_books_step(books: Seq<MDBook>, f: spec_fn(MDBook) -> Seq<char>, i: int)
    requires
        0 <= i < books.len(),
    ensures
        concat_books(books.take(i + 1), f) == concat_books(books.take(i), f) + f(books[i]),
{
    assert(books.take(i + 1).drop_last() =~= books.take(i));
}

/// The texts of two lists of books one after the other.
pub proof fn lemma_concat_books_add(a: Seq<MDBook>, b: Seq<MDBook>, f: spec_fn(MDBook) -> Seq<char>)
    ensures
        concat_books(a + b, f) == concat_books(a, f) + concat_books(b, f),
    decreases b.len(),
{
    if b.len() == 0 {
        assert(a + b =~= a);
        assert(concat_books(a, f) + concat_books(b, f) =~= concat_books(a, f));
    } else {
        lemma_concat_books_add(a, b.drop_last(), f);
        assert((a + b).drop_last() =~= a + b.drop_last());
        assert((a + b).last() == b.last());
        assert(concat_books(a + b, f) =~= concat_books(a, f) + concat_books(b, f));
    }
}

/// The text of one book is its own.
pub proof fn lemma_concat_books_single(b: MDBook, f: spec_fn(MDBook) -> Seq<char>)
    ensures
        concat_books(seq![b], f) == f(b),
{
    assert(seq![b].drop_last() =~= Seq::<MDBook>::empty());
    assert(seq![b].last() == b);
    assert(concat_books(seq![b].drop_last(), f) == Seq::<char>::empty());
    assert(concat_books(seq![b], f) =~= f(b));
}

/// The texts of all the books are those of the whole sequence.
pub proof fn lemma_take_all(books: Seq<MDBook>)
    ensures
        books.take(books.len() as int) == books,
{
    assert(books.take(books.len() as int) =~= books);
}

/// A link to a book's page: `[title](./host/owner/name.md)`.
pub open spec fn book_link(b: MDBook) -> Seq<char> {
    "["@ + b.title@ + "]("@ + book_relative(b) + ")"@
}

/// The text of an optional value, or `dflt` when there is none.
pub open spec fn text_or(o: Option<String>, dflt: Seq<char>) -> Seq<char> {
    match o {
        Some(s) => s@,
        None => dflt,
    }
}

/// A table row with a book's link and one more cell.
pub open spec fn link_row(b: MDBook, cell: Seq<char>) -> Seq<char> {
    "| "@ + book_link(b) + " | "@ + cell + " | \n"@
}

/// Appends the link to a book's page.
pub fn push_book_link(md: &mut String, b: &MDBook)
    ensures
        final(md)@ == old(md)@ + book_link(*b),
{
    md.append("[");
    md.append(b.title.as_str());
    md.append("](");
    md.append(b.relative().as_str());
    md.append(")");
    assert(md@ =~= old(md)@ + book_link(*b));
}

/// Appends a table row with the book's link and `cell`.
pub fn push_link_row(md: &mut String, b: &MDBook, cell: &str)
    ensures
        final(md)@ == old(md)@ + link_row(*b, cell@),
{
    md.append("| ");
    push_book_link(md, b);
    md.append(" | ");
    md.append(cell);
    md.append(" | \n");
    assert(md@ =~= old(md)@ + link_row(*b, cell@));
}

/// The optional value, or `dflt` when there is none.
pub fn text_or_default(o: &Option<String>, dflt: &str) -> (r: String)
    ensures
        r@ == text_or(*o, dflt@),
{
    match o {
        Some(s) => s.clone(),
        None => String::from_str(dflt),
    }
}

/// The texts of `parts`, one after the other.
pub open spec fn flatten_text(parts: Seq<Seq<char>>) -> Seq<char>
    decreases parts.len(),
{
    if parts.len() == 0 {
        Seq::empty()
    } else {
        flatten_text(parts.drop_last()) + parts.last()
    }
}

/// One more part adds its text at the end.
pub proof fn lemma_flatten_text_step(parts: Seq<Seq<char>>, i: int)
    requires
        0 <= i < parts.len(),
    ensures
        flatten_text(parts.take(i + 1)) == flatten_text(parts.take(i)) + parts[i],
{
    assert(parts.take(i + 1).drop_last() =~= parts.take(i));
}

/// The texts of the strings of `v`.
pub open spec fn strings_view(v: Seq<String>) -> Seq<Seq<char>> {
    v.map_values(|s: String| s@)
}

/// Whether `v` holds a string equal to `s`.
pub fn contains_string(v: &Vec<String>, s: &String) -> (r: bool)
    ensures
        r == strings_view(v@).contains(s@),
{
    let mut j: usize = 0;
    while j < v.len()
        invariant
            j <= v.len(),
            forall|k: int| 0 <= k < j ==> v@[k]@ != s@,
        decreases v.len() - j,
    {
        if v[j] == *s {
            assert(strings_view(v@)[j as int] == s@);
            return true;
        }
        j = j + 1;
    }
    assert forall|k: int| 0 <= k < strings_view(v@).len() implies strings_view(v@)[k] != s@ by {
        assert(strings_view(v@)[k] == v@[k]@);
    }
    false
}

/// The texts of `parts` separated by `,`.
pub open spec fn join_comma(parts: Seq<Seq<char>>) -> Seq<char>
    decreases parts.len(),
{
    if parts.len() == 0 {
        Seq::empty()
    } else if parts.len() == 1 {
        parts[0]
    } else {
        join_comma(parts.drop_last()) + ","@ + parts.last()
    }
}

/// The strings of `v` separated by `,`.
pub fn join_with_comma(v: &Vec<String>) -> (r: String)
    ensures
        r@ == join_comma(strings_view(v@)),
{
    let mut r = String::new();
    let ghost parts = strings_view(v@);
    let mut j: usize = 0;
    while j < v.len()
        invariant
            j <= v.len(),
            parts == strings_view(v@),
            r@ == join_comma(parts.take(j as int)),
        decreases v.len() - j,
    {
        assert(parts.take(j + 1).drop_last() =~= parts.take(j as int));
        if j > 0 {
            r.append(",");
        }
        r.append(v[j].as_str());
        assert(parts[j as int] == v@[j as int]@);
        if j == 0 {
            assert(parts.take(1) =~= seq![parts[0]]);
            assert(r@ =~= join_comma(parts.take(j + 1)));
        } else {
            assert(r@ =~= join_comma(parts.take(j + 1)));
        }
        j = j + 1;
    }
    assert(parts.take(v.len() as int) =~= parts);
    r
}

/// How `str` prints with `{:?}`: quoted, with escapes.
pub uninterp spec fn debug_str(s: Seq<char>) -> Seq<char>;

/// A character that `{:?}` of a `str` prints as itself: printable ASCII other
/// than `"` and `\`.
pub open spec fn prints_plain(c: char) -> bool {
    ' ' <= c <= '~' && c != '"' && c != '\\'
}

/// `s` printed with `{:?}` (`impl Debug for str`).
///
/// Trusted: the text is named by `debug_str`; when every character prints
/// as itself (printable ASCII other than `"` and `\`, which `escape_debug`
/// leaves alone), it is `s` between double quotes.
#[verifier::external_body]
pub(crate) fn debug_text(s: &str) -> (r: String)
    ensures
        r@ == debug_str(s@),
        (forall|i: int| 0 <= i < s@.len() ==> prints_plain(#[trigger] s@[i])) ==> r@ == seq!['"'] + s@
            + seq!['"'],
{
    format!("{:?}", s)
}

/// The entries of a set as `{:?}` prints them: each item printed with
/// `{:?}`, separated by `, `.
pub open spec fn debug_entries(items: Seq<Seq<char>>) -> Seq<char>
    decreases items.len(),
{
    if items.len() == 0 {
        Seq::empty()
    } else if items.len() == 1 {
        debug_str(items[0])
    } else {
        debug_entries(items.drop_last()) + ", "@ + debug_str(items.last())
    }
}

/// A set of strings as `{:?}` prints it when walked in the order `items`
/// (`Formatter::debug_set`: the entries between braces).
pub open spec fn debug_set(items: Seq<Seq<char>>) -> Seq<char> {
    "{"@ + debug_entries(items) + "}"@
}

/// The strings of `v` printed as a set walked in the order of `v`.
pub fn print_as_set(v: &Vec<String>) -> (r: String)
    ensures
        r@ == debug_set(strings_view(v@)),
{
    let ghost parts = strings_view(v@);
    let mut entries = String::new();
    let mut j: usize = 0;
    while j < v.len()
        invariant
            j <= v.len(),
            parts == strings_view(v@),
            entries@ == debug_entries(parts.take(j as int)),
        decreases v.len() - j,
    {
        assert(parts.take(j + 1).drop_last() =~= parts.take(j as int));
        assert(parts[j as int] == v@[j as int]@);
        if j > 0 {
            entries.append(", ");
        }
        let item = debug_text(v[j].as_str());
        entries.append(item.as_str());
        if j == 0 {
            assert(parts.take(1) =~= seq![parts[0]]);
        }
        assert(entries@ =~= debug_entries(parts.take(j + 1)));
        j = j + 1;
    }
    assert(parts.take(v.len() as int) =~= parts);
    let mut r = String::from_str("{");
    r.append(entries.as_str());
    r.append("}");
    r
}

} // verus!
