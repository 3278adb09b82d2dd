//! What the report reads of a parsed `book.toml`: which keys its tables hold.
//!
//! A TOML document is a tree of tables. The report only looks at table keys:
//! the top-level keys, the keys of `[output]`, of `[preprocessor]` and of each
//! `[preprocessor.<name>]`. A table is therefore modelled by the keys of every
//! table in it, indexed by the path of keys that leads there from the root
//! (the root itself has the empty path).

use vstd::prelude::*;

verus! {

#[verifier::external_type_specification]
#[verifier::external_body]
#[verifier::reject_recursive_types(K)]
#[verifier::reject_recursive_types(V)]
pub struct ExTomlMap<K, V>(toml::map::Map<K, V>);

#[verifier::external_type_specification]
#[verifier::external_body]
pub struct ExTomlValue(toml::Value);

/// Paths of keys from a table to its sub-tables, each with the keys of that
/// sub-table in the order in which the table lists them.
pub type TableTree = Map<Seq<Seq<char>>, Seq<Seq<char>>>;

/// The tables that `t` holds: for the path of keys that leads from `t`,
/// through values that are tables, to each table (the empty path for `t`
/// itself), the keys of that table in iteration order.
pub uninterp spec fn toml_tables(t: toml::Table) -> TableTree;

/// What `toml::from_str::<toml::Table>` makes of `content`: the tables of
/// the document, as `toml_tables` describes them, or the message of the
/// error (as `toml::de::Error` displays it) when it rejects the text.
pub uninterp spec fn toml_parse(content: Seq<char>) -> Result<TableTree, Seq<char>>;

/// The part of `tree` below the key `key` of its root table.
pub open spec fn subtree(tree: TableTree, key: Seq<char>) -> TableTree {
    Map::new(
        |p: Seq<Seq<char>>| tree.dom().contains(seq![key] + p),
        |p: Seq<Seq<char>>| tree[seq![key] + p],
    )
}

/// The keys of the root table of `tree`.
pub open spec fn root_keys(tree: TableTree) -> Seq<Seq<char>> {
    tree[Seq::empty()]
}

/// Parses `content` as a TOML document with `toml::from_str::<toml::Table>`,
/// and displays the error when it fails.
///
/// Trusted: the outcome is the one `toml_parse` names: the table holds the
/// tables named there, or the message is the one named there. Which
/// documents parse, and what the messages say, is left to the name.
#[verifier::external_body]
pub(crate) fn parse_toml_table(content: &str) -> (r: Result<toml::Table, String>)
    ensures
        r is Ok <==> toml_parse(content@) is Ok,
        r matches Ok(t) ==> toml_tables(t) == toml_parse(content@)->Ok_0,
        r matches Err(m) ==> m@ == toml_parse(content@)->Err_0,
{
    match toml::from_str::<toml::Table>(content) {
        Ok(t) => Ok(t),
        Err(e) => Err(e.to_string()),
    }
}

/// The keys of `t` in iteration order (`toml::map::Map::keys`).
///
/// Trusted: the keys are the ones `toml_tables` names for the empty path.
#[verifier::external_body]
pub(crate) fn table_keys(t: &toml::Table) -> (r: Vec<String>)
    ensures
        r@.map_values(|s: String| s@) == root_keys(toml_tables(*t)),
{
    t.keys().cloned().collect()
}

/// Looks up `key` in `t` (`toml::map::Map::get`): `None` when `t` has no such
/// key, `Some(None)` when its value is not a table, `Some(Some(sub))` when it
/// is the table `sub`.
///
/// Trusted: a key is found exactly when it is one of the keys of `t`; the
/// value is a table exactly when `toml_tables` has the one-key path to it,
/// and then that table holds the part of the tree below the key.
#[verifier::external_body]
pub(crate) fn table_lookup<'a>(t: &'a toml::Table, key: &str) -> (r: Option<Option<&'a toml::Table>>)
    ensures
        r is Some <==> root_keys(toml_tables(*t)).contains(key@),
        r is Some && r->0 is Some <==> toml_tables(*t).dom().contains(seq![key@]),
        r matches Some(Some(sub)) ==> toml_tables(*sub) == subtree(toml_tables(*t), key@),
{
    match t.get(key) {
        None => None,
        Some(toml::Value::Table(sub)) => Some(Some(sub)),
        Some(_) => Some(None),
    }
}

} // verus!
