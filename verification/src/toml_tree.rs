//! The boundary to the `toml` crate.
//!
//! Tables and values of `toml` are opaque to the verifier. What they hold is
//! described by a mathematical tree (`Node`), and each call into the crate is
//! a small function whose contract is trusted, not proved.

use crate::text::texts;
use vstd::prelude::*;

verus! {

#[verifier::external_type_specification]
#[verifier::external_body]
#[verifier::reject_recursive_types(K)]
#[verifier::reject_recursive_types(V)]
pub struct ExTomlMap<K, V>(toml::map::Map<K, V>);

#[verifier::external_type_specification]
#[verifier::external_body]
pub struct ExTomlValue(toml::Value);

#[verifier::external_type_specification]
#[verifier::external_body]
pub struct ExTomlReadError(toml::de::Error);

#[verifier::external_type_specification]
#[verifier::external_body]
pub struct ExTomlWriteError(toml::ser::Error);

/// What a TOML value holds, as far as the manifest format reads it: strings,
/// booleans and tables keep their content, every other kind is `Other`.
pub enum Node {
    Text(Seq<char>),
    Flag(bool),
    Table(Map<Seq<char>, Node>),
    Other,
}

/// The key-value pairs that a table holds.
pub uninterp spec fn table_nodes(t: toml::Table) -> Map<Seq<char>, Node>;

/// The content of a value.
pub uninterp spec fn value_node(v: toml::Value) -> Node;

/// The table that `toml::from_str` reads from a text, if it reads one.
pub uninterp spec fn parsed(text: Seq<char>) -> Option<Map<Seq<char>, Node>>;

/// The text that `toml::to_string_pretty` writes for a table, if it writes one.
pub uninterp spec fn rendered(doc: Map<Seq<char>, Node>) -> Option<Seq<char>>;

/// A node that holds a string or a boolean.
pub open spec fn is_scalar(node: Node) -> bool {
    node is Text || node is Flag
}

/// A document made of tables of strings and booleans only. Such a document
/// is known in full from its nodes.
pub open spec fn is_flat(doc: Map<Seq<char>, Node>) -> bool {
    forall|k: Seq<char>| #[trigger]
        doc.dom().contains(k) ==> {
            &&& doc[k] is Table
            &&& forall|f: Seq<char>| #[trigger]
                doc[k]->Table_0.dom().contains(f) ==> is_scalar(doc[k]->Table_0[f])
        }
}

/// Calls `toml::from_str` for a table.
///
/// Trusted: whether a table comes back, and what it holds, depends on the
/// text alone.
#[verifier::external_body]
pub(crate) fn parse(text: &str) -> (out: Result<toml::Table, toml::de::Error>)
    ensures
        match out {
            Ok(t) => parsed(text@) == Some(table_nodes(t)),
            Err(_) => parsed(text@) is None,
        },
{
    toml::from_str::<toml::Table>(text)
}

/// Calls `toml::map::Map::keys` and hands the keys out.
///
/// Trusted: the keys are those of the table, each once.
#[verifier::external_body]
pub(crate) fn keys(t: &toml::Table) -> (out: Vec<String>)
    ensures
        texts(out@).no_duplicates(),
        texts(out@).to_set() == table_nodes(*t).dom(),
{
    t.keys().cloned().collect()
}

/// Calls `toml::map::Map::get`.
///
/// Trusted: a value comes back exactly when the table has the key, and it is
/// the value held under it.
#[verifier::external_body]
pub(crate) fn get<'a>(t: &'a toml::Table, key: &str) -> (out: Option<&'a toml::Value>)
    ensures
        match out {
            Some(v) => table_nodes(*t).dom().contains(key@) && table_nodes(*t)[key@]
                == value_node(*v),
            None => !table_nodes(*t).dom().contains(key@),
        },
{
    t.get(key)
}

/// Calls `toml::Value::as_table`.
///
/// Trusted: a table comes back exactly when the value is one.
#[verifier::external_body]
pub(crate) fn as_table(v: &toml::Value) -> (out: Option<&toml::Table>)
    ensures
        match out {
            Some(t) => value_node(*v) == Node::Table(table_nodes(*t)),
            None => !(value_node(*v) is Table),
        },
{
    v.as_table()
}

/// Calls `toml::Value::as_str`.
///
/// Trusted: a string comes back exactly when the value is one.
#[verifier::external_body]
pub(crate) fn as_text(v: &toml::Value) -> (out: Option<&str>)
    ensures
        match out {
            Some(s) => value_node(*v) == Node::Text(s@),
            None => !(value_node(*v) is Text),
        },
{
    v.as_str()
}

/// Calls `toml::Value::as_bool`.
///
/// Trusted: a boolean comes back exactly when the value is one.
#[verifier::external_body]
pub(crate) fn as_flag(v: &toml::Value) -> (out: Option<bool>)
    ensures
        match out {
            Some(b) => value_node(*v) == Node::Flag(b),
            None => !(value_node(*v) is Flag),
        },
{
    v.as_bool()
}

/// Calls `toml::map::Map::new`.
///
/// Trusted: the new table is empty.
#[verifier::external_body]
pub(crate) fn new_table() -> (out: toml::Table)
    ensures
        table_nodes(out) == (Map::<Seq<char>, Node>::empty()),
{
    toml::Table::new()
}

/// Calls `toml::map::Map::insert`.
///
/// Trusted: afterwards the table holds the value under the key, and
/// everything else as before.
#[verifier::external_body]
pub(crate) fn insert(t: &mut toml::Table, key: String, v: toml::Value)
    ensures
        table_nodes(*final(t)) == table_nodes(*old(t)).insert(key@, value_node(v)),
{
    t.insert(key, v);
}

/// Builds `toml::Value::String`.
///
/// Trusted: the value is a string with the given text.
#[verifier::external_body]
pub(crate) fn text_value(s: String) -> (out: toml::Value)
    ensures
        value_node(out) == Node::Text(s@),
{
    toml::Value::String(s)
}

/// Builds `toml::Value::Boolean`.
///
/// Trusted: the value is the given boolean.
#[verifier::external_body]
pub(crate) fn flag_value(b: bool) -> (out: toml::Value)
    ensures
        value_node(out) == Node::Flag(b),
{
    toml::Value::Boolean(b)
}

/// Builds `toml::Value::Table`.
///
/// Trusted: the value is a table that holds what the given table holds.
#[verifier::external_body]
pub(crate) fn table_value(t: toml::Table) -> (out: toml::Value)
    ensures
        value_node(out) == Node::Table(table_nodes(t)),
{
    toml::Value::Table(t)
}

/// Calls `toml::to_string_pretty` on a table.
///
/// Trusted: for a flat document, whether a text comes back, and which,
/// depends on what the table holds alone.
#[verifier::external_body]
pub(crate) fn render(t: &toml::Table) -> (out: Result<String, toml::ser::Error>)
    requires
        is_flat(table_nodes(*t)),
    ensures
        match out {
            Ok(s) => rendered(table_nodes(*t)) == Some(s@),
            Err(_) => rendered(table_nodes(*t)) is None,
        },
{
    toml::to_string_pretty(t)
}

} // verus!
