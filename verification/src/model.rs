//! The records the report works on: the books listed in `mdbooks.yaml`, what
//! their `book.toml` says, and the languages and preprocessors the report
//! knows about.

use vstd::prelude::*;

use crate::repo::{slash_join, Repo};

verus! {

/// One mdBook with public sources, as listed in `mdbooks.yaml`, together with
/// what was found in its `book.toml`.
#[derive(Debug)]
pub struct MDBook {
    pub title: String,
    pub repo: Repo,
    /// Directory of the repository that holds `book.toml`, when not the root.
    pub folder: Option<String>,
    pub site: Option<String>,
    pub description: Option<String>,
    pub comment: Option<String>,
    /// The text of `book.toml`, empty until it was read.
    pub raw_book_toml: String,
    /// `book.toml` read as the report's typed record.
    pub book: Option<BookToml>,
    /// `book.toml` read as a plain TOML table.
    pub everything: Option<toml::Table>,
    /// What went wrong while cloning the repository or reading `book.toml`.
    pub error: Option<String>,
}

/// The parts of `book.toml` that the report reads.
#[derive(Debug)]
pub struct BookToml {
    pub book: Book,
    pub rust: Option<Rust>,
    pub build: Option<Build>,
}

/// The `[book]` table.
#[derive(Debug)]
pub struct Book {
    pub title: String,
    pub src: Option<String>,
    pub language: Option<String>,
    pub text_direction: Option<String>,
    pub multilingual: Option<bool>,
    pub authors: Option<Vec<String>>,
    pub description: Option<String>,
}

/// The `[rust]` table.
#[derive(Debug)]
pub struct Rust {
    pub edition: String,
}

/// The `[build]` table.
#[derive(Debug)]
pub struct Build {
    pub build_dir: Option<String>,
    pub create_missing: Option<bool>,
    pub extra_watch_dirs: Option<Vec<String>>,
    pub use_default_preprocessors: Option<bool>,
}

/// A file of the generated book: its path below `report/src` and its text.
#[derive(Debug)]
pub struct Page {
    pub path: String,
    pub content: String,
}

/// A page as plain text: (path, content).
pub open spec fn page_view(p: Page) -> (Seq<char>, Seq<char>) {
    (p.path@, p.content@)
}

/// The pages as plain text.
pub open spec fn pages_view(ps: Seq<Page>) -> Seq<(Seq<char>, Seq<char>)> {
    ps.map_values(|p: Page| page_view(p))
}

/// The link target of a book's own page: `./host/owner/name.md`.
pub open spec fn book_relative(b: MDBook) -> Seq<char> {
    "./"@ + slash_join(b.repo@.0, b.repo@.1, b.repo@.2) + ".md"@
}

impl MDBook {
    /// The link target of the book's own page in the report:
    /// `./host/owner/name.md`.
    pub fn relative(&self) -> (r: String)
        ensures
            r@ == book_relative(*self),
    {
        let mut r = String::from_str("./");
        r.append(self.repo.path().as_str());
        r.append(".md");
        r
    }
}

/// The value of `raw_book_toml` before `book.toml` was read: the empty text.
pub fn default_empty_string() -> (r: String)
    ensures
        r@ == Seq::<char>::empty(),
{
    String::new()
}

/// A language that the report gives a page of its own.
pub struct Language {
    pub code: String,
    pub name: String,
}

/// The languages with a page of their own: (code, name).
pub open spec fn language_list() -> Seq<(Seq<char>, Seq<char>)> {
    seq![
        ("en"@, "English"@),
        ("de"@, "German"@),
        ("fr"@, "French"@),
        ("es"@, "Spanish"@),
        ("ja"@, "Japanese"@),
        ("he"@, "Hebrew"@),
        ("zh"@, "Chinese"@),
        ("vi"@, "Vietnamese"@),
        ("pt"@, "Portuguese"@),
        ("kr"@, "Korean"@),
        ("ca"@, "Catalan"@),
        ("sv"@, "Swedish"@),
    ]
}

/// The codes of the languages with a page of their own.
pub open spec fn language_codes() -> Seq<Seq<char>> {
    language_list().map_values(|l: (Seq<char>, Seq<char>)| l.0)
}

/// A language as plain text: (code, name).
pub open spec fn language_view(l: Language) -> (Seq<char>, Seq<char>) {
    (l.code@, l.name@)
}

fn language(code: &str, name: &str) -> (r: Language)
    ensures
        r.code@ == code@,
        r.name@ == name@,
{
    Language { code: String::from_str(code), name: String::from_str(name) }
}

/// The languages with a page of their own, in the order of their pages.
pub fn languages() -> (r: Vec<Language>)
    ensures
        r@.map_values(|l: Language| language_view(l)) == language_list(),
{
    let mut r: Vec<Language> = Vec::new();
    r.push(language("en", "English"));
    r.push(language("de", "German"));
    r.push(language("fr", "French"));
    r.push(language("es", "Spanish"));
    r.push(language("ja", "Japanese"));
    r.push(language("he", "Hebrew"));
    r.push(language("zh", "Chinese"));
    r.push(language("vi", "Vietnamese"));
    r.push(language("pt", "Portuguese"));
    r.push(language("kr", "Korean"));
    r.push(language("ca", "Catalan"));
    r.push(language("sv", "Swedish"));
    assert(r@.map_values(|l: Language| language_view(l)) =~= language_list());
    r
}

/// A preprocessor that the report gives a page of its own.
pub struct Preprocessor {
    pub name: String,
    pub cratesio: String,
    pub description: String,
}

/// The preprocessors with a page of their own: (name, crates.io page,
/// description).
pub open spec fn preprocessor_list() -> Seq<(Seq<char>, Seq<char>, Seq<char>)> {
    seq![
        ("admonish"@, "https://crates.io/crates/mdbook-admonish"@, "A preprocessor for mdbook to add Material Design admonishments."@),
        ("alerts"@, "https://crates.io/crates/mdbook-alerts"@, "mdBook preprocessor to add GitHub Flavored Markdown's Alerts to your book."@),
        ("aquascope"@, "https://crates.io/crates/mdbook-aquascope"@, "Interactive Aquascope editor for your mdBook"@),
        ("embedify"@, "https://crates.io/crates/mdbook-embedify"@, "A rust based mdbook preprocessor plugin that allows you to embed apps to your book, like youtube, codepen and some other apps."@),
        ("footnote"@, "https://crates.io/crates/mdbook-footnote"@, "mdbook preprocessor for footnotes."@),
        ("hints"@, "https://crates.io/crates/mdbook-hints"@, "mdBook preprocessor to add hover hints to your book."@),
        ("katex"@, "https://crates.io/crates/mdbook-katex"@, "mdBook preprocessor rendering LaTeX equations to HTML."@),
        ("mathpunc"@, "https://crates.io/crates/mdbook-mathpunc"@, "An mdbook preprocessor that prevents line breaks between inline math blocks and punctuation marks when using katex."@),
        ("mermaid"@, "https://crates.io/crates/mdbook-mermaid"@, "mdbook preprocessor to add mermaid support."@),
        ("numeq"@, "https://crates.io/crates/mdbook-numeq"@, "An mdbook preprocessor for automatically numbering centered equations."@),
        ("numthm"@, "https://crates.io/crates/mdbook-numthm"@, "An mdbook preprocessor for automatically numbering theorems, lemmas, etc."@),
        ("pikchr"@, "https://crates.io/crates/mdbook-pikchr"@, "A mdbook preprocessor to render pikchr code blocks as images in your book."@),
        ("quiz"@, "https://crates.io/crates/mdbook-quiz"@, "Interactive quizzes for your mdBook."@),
        ("repl"@, "https://crates.io/crates/mdbook-repl"@, "A rust based mdbook preprocessor that allows you to execute code in your mdbook without any server. Python, Typescript, Javascript etc."@),
        ("template"@, "https://crates.io/crates/mdbook-template"@, "A mdbook preprocessor that allows the re-usability of template files with dynamic arguments. (deprecated)"@),
        ("toc"@, "https://crates.io/crates/mdbook-toc"@, "mdbook preprocessor to add Table of Contents."@),
    ]
}

/// The names of the preprocessors with a page of their own.
pub open spec fn preprocessor_names() -> Seq<Seq<char>> {
    preprocessor_list().map_values(|p: (Seq<char>, Seq<char>, Seq<char>)| p.0)
}

/// A preprocessor as plain text: (name, crates.io page, description).
pub open spec fn preprocessor_view(p: Preprocessor) -> (Seq<char>, Seq<char>, Seq<char>) {
    (p.name@, p.cratesio@, p.description@)
}

fn preprocessor(name: &str, cratesio: &str, description: &str) -> (r: Preprocessor)
    ensures
        r.name@ == name@,
        r.cratesio@ == cratesio@,
        r.description@ == description@,
{
    Preprocessor {
        name: String::from_str(name),
        cratesio: String::from_str(cratesio),
        description: String::from_str(description),
    }
}

/// The preprocessors with a page of their own, in the order of their pages.
pub fn preprocessors() -> (r: Vec<Preprocessor>)
    ensures
        r@.map_values(|p: Preprocessor| preprocessor_view(p)) == preprocessor_list(),
{
    let mut r: Vec<Preprocessor> = Vec::new();
    r.push(preprocessor("admonish", "https://crates.io/crates/mdbook-admonish", "A preprocessor for mdbook to add Material Design admonishments."));
    r.push(preprocessor("alerts", "https://crates.io/crates/mdbook-alerts", "mdBook preprocessor to add GitHub Flavored Markdown's Alerts to your book."));
    r.push(preprocessor("aquascope", "https://crates.io/crates/mdbook-aquascope", "Interactive Aquascope editor for your mdBook"));
    r.push(preprocessor("embedify", "https://crates.io/crates/mdbook-embedify", "A rust based mdbook preprocessor plugin that allows you to embed apps to your book, like youtube, codepen and some other apps."));
    r.push(preprocessor("footnote", "https://crates.io/crates/mdbook-footnote", "mdbook preprocessor for footnotes."));
    r.push(preprocessor("hints", "https://crates.io/crates/mdbook-hints", "mdBook preprocessor to add hover hints to your book."));
    r.push(preprocessor("katex", "https://crates.io/crates/mdbook-katex", "mdBook preprocessor rendering LaTeX equations to HTML."));
    r.push(preprocessor("mathpunc", "https://crates.io/crates/mdbook-mathpunc", "An mdbook preprocessor that prevents line breaks between inline math blocks and punctuation marks when using katex."));
    r.push(preprocessor("mermaid", "https://crates.io/crates/mdbook-mermaid", "mdbook preprocessor to add mermaid support."));
    r.push(preprocessor("numeq", "https://crates.io/crates/mdbook-numeq", "An mdbook preprocessor for automatically numbering centered equations."));
    r.push(preprocessor("numthm", "https://crates.io/crates/mdbook-numthm", "An mdbook preprocessor for automatically numbering theorems, lemmas, etc."));
    r.push(preprocessor("pikchr", "https://crates.io/crates/mdbook-pikchr", "A mdbook preprocessor to render pikchr code blocks as images in your book."));
    r.push(preprocessor("quiz", "https://crates.io/crates/mdbook-quiz", "Interactive quizzes for your mdBook."));
    r.push(preprocessor("repl", "https://crates.io/crates/mdbook-repl", "A rust based mdbook preprocessor that allows you to execute code in your mdbook without any server. Python, Typescript, Javascript etc."));
    r.push(preprocessor("template", "https://crates.io/crates/mdbook-template", "A mdbook preprocessor that allows the re-usability of template files with dynamic arguments. (deprecated)"));
    r.push(preprocessor("toc", "https://crates.io/crates/mdbook-toc", "mdbook preprocessor to add Table of Contents."));
    assert(r@.map_values(|p: Preprocessor| preprocessor_view(p)) =~= preprocessor_list());
    r
}

} // verus!
