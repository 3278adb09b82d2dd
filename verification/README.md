# public-mdbooks

Collects information about mdBooks whose sources are public (which
`book.toml` settings, preprocessors and languages they use) and writes it up
as an mdBook of its own.

- `src/` is the library, verified with Verus: the records of the books
  (`model`), their repositories (`repo`), what is read of each `book.toml`
  (`toml_table`, `report`), the order of the books (`order`) and every page
  of the report with its table of contents (`pages`, `markdown`, `text`).
- `app/` is the command line program: it reads `mdbooks.yaml`, clones or
  updates the repositories, reads the `book.toml` files and writes the pages
  to `report/src`.
- `tests/` runs the library on concrete books.

Run `cargo run -- --clone` to fetch the repositories into `repos/`, then
`cargo run -- --report && mdbook build report` to build the report.
