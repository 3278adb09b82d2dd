//! Pages on `book.language`: one table of all books, and one page for each
//! language the report knows, listing the books written in it.

use vstd::prelude::*;

use crate::markdown::{
    concat_books, contains_string, debug_set, print_as_set, lemma_concat_books_add, lemma_concat_books_single, flatten_text, lemma_concat_books_step, lemma_flatten_text_step,
    lemma_take_all, link_row, push_link_row, strings_view, text_or, text_or_default,
};
use crate::model::{
    language_codes, language_list, language_view, languages, pages_view, Language, MDBook, Page,
};

verus! {

/// The repository to report unknown languages to.
pub open spec fn repo_link() -> Seq<char> {
    "https://github.com/szabgab/public-mdbooks/"@
}

/// The language of a book that read its `book.toml`, when that language has
/// no page of its own.
pub open spec fn unlisted_language(b: MDBook) -> Option<Seq<char>> {
    match b.book {
        Some(bk) => match bk.book.language {
            Some(l) => if language_codes().contains(l@) {
                None
            } else {
                Some(l@)
            },
            None => None,
        },
        None => None,
    }
}

/// The languages of `books` that have no page of their own, each once, in
/// the order in which they first occur.
pub open spec fn unlisted_languages(books: Seq<MDBook>) -> Seq<Seq<char>>
    decreases books.len(),
{
    if books.len() == 0 {
        Seq::empty()
    } else {
        let rest = unlisted_languages(books.drop_last());
        match unlisted_language(books.last()) {
            Some(l) => if rest.contains(l) {
                rest
            } else {
                rest.push(l)
            },
            None => rest,
        }
    }
}

/// The unlisted languages are a set: each occurs once, and a language is
/// there exactly when some book is written in it.
pub proof fn lemma_unlisted_languages(books: Seq<MDBook>)
    ensures
        unlisted_languages(books).no_duplicates(),
        forall|l: Seq<char>|
            unlisted_languages(books).contains(l) <==> exists|i: int|
                0 <= i < books.len() && #[trigger] unlisted_language(books[i]) == Some(l),
    decreases books.len(),
{
    if books.len() > 0 {
        let init = books.drop_last();
        lemma_unlisted_languages(init);
        let rest = unlisted_languages(init);
        let last = books[books.len() - 1];
        assert(last == books.last());
        assert forall|l: Seq<char>|
            unlisted_languages(books).contains(l) implies exists|i: int|
                0 <= i < books.len() && #[trigger] unlisted_language(books[i]) == Some(l) by {
            if rest.contains(l) {
                let i = choose|i: int| 0 <= i < init.len() && #[trigger] unlisted_language(init[i]) == Some(l);
                assert(books[i] == init[i]);
            } else {
                assert(unlisted_language(books[books.len() - 1]) == Some(l));
            }
        }
        assert forall|l: Seq<char>|
            (exists|i: int| 0 <= i < books.len() && #[trigger] unlisted_language(books[i]) == Some(l))
            implies unlisted_languages(books).contains(l) by {
            let i = choose|i: int| 0 <= i < books.len() && #[trigger] unlisted_language(books[i]) == Some(l);
            if i < books.len() - 1 {
                assert(init[i] == books[i]);
                assert(rest.contains(l));
                match unlisted_language(last) {
                    Some(m) => {
                        if !rest.contains(m) {
                            assert(rest.push(m)[rest.index_of(l)] == l);
                        }
                    },
                    None => {},
                }
            } else {
                match unlisted_language(last) {
                    Some(m) => {
                        assert(m == l);
                        if !rest.contains(m) {
                            assert(rest.push(m)[rest.len() as int] == l);
                        }
                    },
                    None => {},
                }
            }
        }
    }
}

/// Whether `code` is one of the languages with a page of their own.
fn is_listed_language(code: &String, langs: &Vec<Language>) -> (r: bool)
    requires
        langs@.map_values(|l: Language| language_view(l)) == language_list(),
    ensures
        r == language_codes().contains(code@),
{
    let mut j: usize = 0;
    while j < langs.len()
        invariant
            j <= langs.len(),
            langs@.map_values(|l: Language| language_view(l)) == language_list(),
            forall|k: int| 0 <= k < j ==> language_codes()[k] != code@,
        decreases langs.len() - j,
    {
        assert(language_list()[j as int] == language_view(langs@[j as int]));
        if langs[j].code == *code {
            assert(language_codes()[j as int] == code@);
            return true;
        }
        j = j + 1;
    }
    false
}

/// The languages of the books that have no page of their own, each once, in
/// the order in which they first occur.
pub fn missing_languages(mdbooks: &Vec<MDBook>) -> (r: Vec<String>)
    ensures
        strings_view(r@) == unlisted_languages(mdbooks@),
{
    let langs = languages();
    let mut missing: Vec<String> = Vec::new();
    let mut i: usize = 0;
    while i < mdbooks.len()
        invariant
            i <= mdbooks.len(),
            langs@.map_values(|l: Language| language_view(l)) == language_list(),
            strings_view(missing@) == unlisted_languages(mdbooks@.take(i as int)),
        decreases mdbooks.len() - i,
    {
        let b = &mdbooks[i];
        assert(mdbooks@.take(i + 1).drop_last() =~= mdbooks@.take(i as int));
        if let Some(bk) = &b.book {
            if let Some(l) = &bk.book.language {
                if !is_listed_language(l, &langs) && !contains_string(&missing, l) {
                    missing.push(l.clone());
                    assert(strings_view(missing@) =~= unlisted_languages(mdbooks@.take(i as int)).push(l@));
                }
            }
        }
        i = i + 1;
    }
    proof { lemma_take_all(mdbooks@); }
    missing
}

/// The strings of `items` in the order in which a
/// `std::collections::HashSet` built from them walks them.
///
/// Trusted: of distinct strings the set keeps each one, and its walk visits
/// every element once (`HashSet::into_iter`: all elements, in arbitrary
/// order), so the result holds the same strings. The order is not stated:
/// it follows a hash seed that each process draws.
#[verifier::external_body]
fn hash_set_order(items: &Vec<String>) -> (r: Vec<String>)
    requires
        strings_view(items@).no_duplicates(),
    ensures
        strings_view(r@).to_multiset() == strings_view(items@).to_multiset(),
{
    items.iter().cloned().collect::<std::collections::HashSet<String>>().into_iter().collect()
}

/// The row of a book on the `book.language` page.
pub open spec fn language_row(b: MDBook) -> Seq<char> {
    match b.book {
        Some(bk) => link_row(b, text_or(bk.book.language, "-"@)),
        None => Seq::empty(),
    }
}

pub open spec fn language_rows() -> spec_fn(MDBook) -> Seq<char> {
    |b: MDBook| language_row(b)
}

/// The page on `book.language`, given how the set of unlisted languages
/// prints.
pub open spec fn language_markdown(books: Seq<MDBook>, set_text: Seq<char>) -> Seq<char> {
    "# The book.language field\n\n"@ + (if unlisted_languages(books).len() > 0 {
        "The following languages are not in our list of supported languages: "@ + set_text
            + " Please open an [issue]("@ + repo_link() + ")\n\n"@
    } else {
        Seq::empty()
    }) + "| Title | language |\n"@ + "|-------|-------------|\n"@ + concat_books(books, language_rows())
}

/// The page on `book.language`, with `set_text` as the print of the set of
/// unlisted languages.
pub fn language_overview(mdbooks: &Vec<MDBook>, missing: &Vec<String>, set_text: &str) -> (r: String)
    requires
        strings_view(missing@) == unlisted_languages(mdbooks@),
    ensures
        r@ == language_markdown(mdbooks@, set_text@),
{
    let mut md = String::from_str("# The book.language field\n\n");
    if missing.len() > 0 {
        md.append("The following languages are not in our list of supported languages: ");
        md.append(set_text);
        md.append(" Please open an [issue](");
        md.append("https://github.com/szabgab/public-mdbooks/");
        md.append(")\n\n");
    }
    md.append("| Title | language |\n");
    md.append("|-------|-------------|\n");
    let ghost header = md@;
    assert(header =~= "# The book.language field\n\n"@ + (if unlisted_languages(mdbooks@).len() > 0 {
        "The following languages are not in our list of supported languages: "@ + set_text@
            + " Please open an [issue]("@ + repo_link() + ")\n\n"@
    } else {
        Seq::empty()
    }) + "| Title | language |\n"@ + "|-------|-------------|\n"@);
    let mut i: usize = 0;
    while i < mdbooks.len()
        invariant
            i <= mdbooks.len(),
            md@ == header + concat_books(mdbooks@.take(i as int), language_rows()),
        decreases mdbooks.len() - i,
    {
        let b = &mdbooks[i];
        if let Some(bk) = &b.book {
            let cell = text_or_default(&bk.book.language, "-");
            push_link_row(&mut md, b, cell.as_str());
        }
        proof { lemma_concat_books_step(mdbooks@, language_rows(), i as int); }
        assert(md@ =~= header + concat_books(mdbooks@.take(i + 1), language_rows()));
        i = i + 1;
    }
    proof { lemma_take_all(mdbooks@); }
    md
}

/// The row of a book on the page of the language `code`: only books written
/// in that language have one.
pub open spec fn single_language_row(code: Seq<char>, b: MDBook) -> Seq<char> {
    match b.book {
        Some(bk) => match bk.book.language {
            Some(l) => if l@ == code {
                link_row(b, l@)
            } else {
                Seq::empty()
            },
            None => Seq::empty(),
        },
        None => Seq::empty(),
    }
}

pub open spec fn single_language_rows(code: Seq<char>) -> spec_fn(MDBook) -> Seq<char> {
    |b: MDBook| single_language_row(code, b)
}

/// The page of one language: (code, name).
pub open spec fn single_language_markdown(books: Seq<MDBook>, lang: (Seq<char>, Seq<char>)) -> Seq<char> {
    "# "@ + lang.1 + " - book.language = "@ + lang.0 + "\n\n"@ + "| Title | language |\n"@
        + "|-------|-------------|\n"@ + concat_books(books, single_language_rows(lang.0))
}

/// The line of one language in the table of contents.
pub open spec fn single_language_summary(lang: (Seq<char>, Seq<char>)) -> Seq<char> {
    "      - ["@ + lang.1 + "](./language-"@ + lang.0 + ".md)\n"@
}

/// The file of one language's page.
pub open spec fn single_language_path(lang: (Seq<char>, Seq<char>)) -> Seq<char> {
    "language-"@ + lang.0 + ".md"@
}

/// A book written in a language is listed, with that language, on the
/// language's page, and books in other languages are not.
pub proof fn lemma_book_on_its_language_page(books: Seq<MDBook>, lang: (Seq<char>, Seq<char>), i: int)
    requires
        0 <= i < books.len(),
    ensures
        exists|before: Seq<char>, after: Seq<char>|
            single_language_markdown(books, lang) == before + single_language_row(lang.0, books[i]) + after,
        single_language_row(lang.0, books[i]) == (match books[i].book {
            Some(bk) => if bk.book.language matches Some(l) && l@ == lang.0 {
                link_row(books[i], lang.0)
            } else {
                Seq::empty()
            },
            None => Seq::empty(),
        }),
{
    let b = books[i];
    let f = single_language_rows(lang.0);
    assert(books =~= books.take(i) + seq![b] + books.skip(i + 1));
    lemma_concat_books_add(books.take(i) + seq![b], books.skip(i + 1), f);
    lemma_concat_books_add(books.take(i), seq![b], f);
    lemma_concat_books_single(b, f);
    let text = single_language_markdown(books, lang);
    let pre = text.take(text.len() - concat_books(books, f).len()) + concat_books(books.take(i), f);
    let post = concat_books(books.skip(i + 1), f);
    assert(text =~= pre + single_language_row(lang.0, b) + post);
}

/// The page of one language, and its line in the table of contents.
pub fn single_language_page(mdbooks: &Vec<MDBook>, language: &Language) -> (r: (String, Page))
    ensures
        r.0@ == single_language_summary(language_view(*language)),
        r.1.path@ == single_language_path(language_view(*language)),
        r.1.content@ == single_language_markdown(mdbooks@, language_view(*language)),
{
    let ghost lang = language_view(*language);
    let mut summary = String::from_str("      - [");
    summary.append(language.name.as_str());
    summary.append("](./language-");
    summary.append(language.code.as_str());
    summary.append(".md)\n");
    assert(summary@ =~= single_language_summary(lang));
    let mut md = String::from_str("# ");
    md.append(language.name.as_str());
    md.append(" - book.language = ");
    md.append(language.code.as_str());
    md.append("\n\n");
    md.append("| Title | language |\n");
    md.append("|-------|-------------|\n");
    let ghost header = md@;
    let mut i: usize = 0;
    while i < mdbooks.len()
        invariant
            i <= mdbooks.len(),
            lang == language_view(*language),
            md@ == header + concat_books(mdbooks@.take(i as int), single_language_rows(lang.0)),
        decreases mdbooks.len() - i,
    {
        let b = &mdbooks[i];
        if let Some(bk) = &b.book {
            if let Some(l) = &bk.book.language {
                if *l == language.code {
                    push_link_row(&mut md, b, l.as_str());
                }
            }
        }
        proof { lemma_concat_books_step(mdbooks@, single_language_rows(lang.0), i as int); }
        assert(md@ =~= header + concat_books(mdbooks@.take(i + 1), single_language_rows(lang.0)));
        i = i + 1;
    }
    proof { lemma_take_all(mdbooks@); }
    let mut path = String::from_str("language-");
    path.append(language.code.as_str());
    path.append(".md");
    assert(path@ =~= single_language_path(lang));
    assert(md@ =~= single_language_markdown(mdbooks@, lang));
    (summary, Page { path, content: md })
}

/// The lines of the languages' pages in the table of contents.
pub open spec fn language_summaries() -> Seq<char> {
    flatten_text(language_list().map_values(|l: (Seq<char>, Seq<char>)| single_language_summary(l)))
}

/// The pages of the languages: (path, content).
pub open spec fn single_language_pages(books: Seq<MDBook>) -> Seq<(Seq<char>, Seq<char>)> {
    language_list().map_values(
        |l: (Seq<char>, Seq<char>)| (single_language_path(l), single_language_markdown(books, l)),
    )
}

/// The unlisted languages printed with `{:?}` as a
/// `std::collections::HashSet` of them prints, walked in the order its hash
/// seed gives (the `book.language` page shows it only when there is one).
pub fn unlisted_set_text(mdbooks: &Vec<MDBook>) -> (r: String)
    ensures
        exists|walk: Seq<Seq<char>>|
            walk.to_multiset() == unlisted_languages(mdbooks@).to_multiset() && r@ == #[trigger] debug_set(walk),
{
    let missing = missing_languages(mdbooks);
    proof { lemma_unlisted_languages(mdbooks@); }
    let walk = hash_set_order(&missing);
    let r = print_as_set(&walk);
    assert(strings_view(walk@).to_multiset() == unlisted_languages(mdbooks@).to_multiset());
    r
}

/// The page on `book.language` followed by the page of each language, and
/// their lines in the table of contents, with `set_text` as the print of the
/// set of unlisted languages.
pub fn language_page_with(mdbooks: &Vec<MDBook>, set_text: &str) -> (r: (String, Vec<Page>))
    ensures
        r.0@ == "    - [language](./language.md)\n"@ + language_summaries(),
        pages_view(r.1@) == seq![("language.md"@, language_markdown(mdbooks@, set_text@))]
            + single_language_pages(mdbooks@),
{
    let missing = missing_languages(mdbooks);
    let md = language_overview(mdbooks, &missing, set_text);
    let mut pages: Vec<Page> = Vec::new();
    pages.push(Page { path: String::from_str("language.md"), content: md });
    let ghost first = ("language.md"@, language_markdown(mdbooks@, set_text@));
    let mut summary = String::from_str("    - [language](./language.md)\n");
    let ghost prefix = summary@;
    let langs = languages();
    let ghost summaries = language_list().map_values(|l: (Seq<char>, Seq<char>)| single_language_summary(l));
    let mut j: usize = 0;
    while j < langs.len()
        invariant
            j <= langs.len(),
            langs@.map_values(|l: Language| language_view(l)) == language_list(),
            summaries == language_list().map_values(|l: (Seq<char>, Seq<char>)| single_language_summary(l)),
            summary@ == prefix + flatten_text(summaries.take(j as int)),
            pages_view(pages@) == seq![first] + single_language_pages(mdbooks@).take(j as int),
        decreases langs.len() - j,
    {
        assert(language_list()[j as int] == language_view(langs@[j as int]));
        let (line, page) = single_language_page(mdbooks, &langs[j]);
        summary.append(line.as_str());
        proof { lemma_flatten_text_step(summaries, j as int); }
        assert(summary@ =~= prefix + flatten_text(summaries.take(j + 1)));
        let ghost before = pages@;
        pages.push(page);
        assert(pages_view(pages@) =~= pages_view(before).push(pages_view(pages@).last()));
        assert(pages_view(pages@) =~= seq![first] + single_language_pages(mdbooks@).take(j + 1));
        j = j + 1;
    }
    assert(summaries.take(langs.len() as int) =~= summaries);
    assert(single_language_pages(mdbooks@).take(langs.len() as int) =~= single_language_pages(mdbooks@));
    (summary, pages)
}

/// The page on `book.language` followed by the page of each language, and
/// their lines in the table of contents. The set of unlisted languages
/// prints as a set, in the order its hash seed gives.
pub fn language_page(mdbooks: &Vec<MDBook>) -> (r: (String, Vec<Page>))
    ensures
        r.0@ == "    - [language](./language.md)\n"@ + language_summaries(),
        exists|walk: Seq<Seq<char>>|
            walk.to_multiset() == unlisted_languages(mdbooks@).to_multiset() && pages_view(r.1@)
                == seq![("language.md"@, language_markdown(mdbooks@, #[trigger] debug_set(walk)))]
                + single_language_pages(mdbooks@),
{
    let set_text = unlisted_set_text(mdbooks);
    language_page_with(mdbooks, set_text.as_str())
}

} // verus!
