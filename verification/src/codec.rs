//! The manifest's file format: one table per entry, keyed by the entry's
//! name, with the fields `local_file`, `path` and `dir`.

use crate::entries::Entries;
use crate::entry::{Entry, EntryView};
use crate::text::{lemma_index_is_listed, lemma_listed_has_index, texts};
use crate::toml_tree::{
    as_flag, as_table, as_text, flag_value, get, insert, is_flat, keys, new_table, table_nodes,
    table_value, text_value, value_node, Node,
};
use vstd::prelude::*;

verus! {

/// The field that holds the stored copy's path.
pub open spec fn local_file_key() -> Seq<char> {
    "local_file"@
}

/// The field that holds the original path.
pub open spec fn path_key() -> Seq<char> {
    "path"@
}

/// The field that says whether the path is a directory.
pub open spec fn dir_key() -> Seq<char> {
    "dir"@
}

/// The text under a key, where the table has the key and holds a string there.
pub open spec fn text_at(fields: Map<Seq<char>, Node>, key: Seq<char>) -> Option<Seq<char>> {
    if fields.dom().contains(key) {
        match fields[key] {
            Node::Text(s) => Some(s),
            _ => None,
        }
    } else {
        None
    }
}

/// The boolean under a key, where the table has the key and holds a boolean there.
pub open spec fn flag_at(fields: Map<Seq<char>, Node>, key: Seq<char>) -> Option<bool> {
    if fields.dom().contains(key) {
        match fields[key] {
            Node::Flag(b) => Some(b),
            _ => None,
        }
    } else {
        None
    }
}

/// The entry that a node stands for: a table with the three fields, each of
/// its kind. Other fields of the table are passed over.
pub open spec fn entry_of(node: Node) -> Option<EntryView> {
    match node {
        Node::Table(fields) => match (
            text_at(fields, local_file_key()),
            text_at(fields, path_key()),
            flag_at(fields, dir_key()),
        ) {
            (Some(local_file), Some(path), Some(dir)) => Some(
                EntryView { local_file, path, dir },
            ),
            _ => None,
        },
        _ => None,
    }
}

/// The node that stands for an entry.
pub open spec fn node_of(entry: EntryView) -> Node {
    Node::Table(
        Map::<Seq<char>, Node>::empty().insert(
            local_file_key(),
            Node::Text(entry.local_file),
        ).insert(path_key(), Node::Text(entry.path)).insert(dir_key(), Node::Flag(entry.dir)),
    )
}

/// The entries that a document stands for. One key that holds no entry
/// spoils the whole document.
pub open spec fn decode(doc: Map<Seq<char>, Node>) -> Option<Map<Seq<char>, EntryView>> {
    if forall|k: Seq<char>| doc.dom().contains(k) ==> entry_of(#[trigger] doc[k]) is Some {
        Some(Map::new(|k: Seq<char>| doc.dom().contains(k), |k: Seq<char>| entry_of(doc[k])->0))
    } else {
        None
    }
}

/// The document that stands for a map of entries.
pub open spec fn encode(entries: Map<Seq<char>, EntryView>) -> Map<Seq<char>, Node> {
    Map::new(|k: Seq<char>| entries.dom().contains(k), |k: Seq<char>| node_of(entries[k]))
}

/// The three field names differ from each other.
pub proof fn lemma_field_keys_differ()
    ensures
        local_file_key() != path_key(),
        local_file_key() != dir_key(),
        path_key() != dir_key(),
{
    reveal_strlit("local_file");
    reveal_strlit("path");
    reveal_strlit("dir");
    assert(local_file_key().len() == 10);
    assert(path_key().len() == 4);
    assert(dir_key().len() == 3);
}

/// An entry that is written as a node is read back unchanged.
pub proof fn lemma_entry_round_trip(entry: EntryView)
    ensures
        entry_of(node_of(entry)) == Some(entry),
{
    lemma_field_keys_differ();
}

/// Writing a map of entries as a document and reading the document back
/// gives the same map: the same names, each with the same stored path,
/// original path and directory flag.
pub proof fn lemma_round_trip(entries: Map<Seq<char>, EntryView>)
    ensures
        decode(encode(entries)) == Some(entries),
{
    let doc = encode(entries);
    assert forall|k: Seq<char>| doc.dom().contains(k) implies entry_of(#[trigger] doc[k])
        == Some(entries[k]) by {
        lemma_entry_round_trip(entries[k]);
    }
    assert(decode(doc)->0 =~= entries);
}

/// The document of any map of entries is made of tables of strings and
/// booleans only.
pub proof fn lemma_encode_is_flat(entries: Map<Seq<char>, EntryView>)
    ensures
        is_flat(encode(entries)),
{
}

fn text_field(t: &toml::Table, key: &str) -> (out: Option<String>)
    ensures
        out.is_some() == text_at(table_nodes(*t), key@).is_some(),
        out matches Some(s) ==> text_at(table_nodes(*t), key@) == Some(s@),
{
    match get(t, key) {
        Some(v) => match as_text(v) {
            Some(s) => Some(s.to_owned()),
            None => None,
        },
        None => None,
    }
}

fn flag_field(t: &toml::Table, key: &str) -> (out: Option<bool>)
    ensures
        out == flag_at(table_nodes(*t), key@),
{
    match get(t, key) {
        Some(v) => as_flag(v),
        None => None,
    }
}

/// Reads one entry from a value of the document.
pub fn read_entry(v: &toml::Value) -> (out: Option<Entry>)
    ensures
        out.is_some() == entry_of(value_node(*v)).is_some(),
        out matches Some(e) ==> entry_of(value_node(*v)) == Some(e@),
{
    let fields = match as_table(v) {
        Some(t) => t,
        None => {
            return None;
        },
    };
    let local_file = match text_field(fields, "local_file") {
        Some(s) => s,
        None => {
            return None;
        },
    };
    let path = match text_field(fields, "path") {
        Some(s) => s,
        None => {
            return None;
        },
    };
    let dir = match flag_field(fields, "dir") {
        Some(b) => b,
        None => {
            return None;
        },
    };
    Some(Entry { local_file, path, dir })
}

/// Writes one entry as a value of the document.
pub fn write_entry(entry: &Entry) -> (out: toml::Value)
    ensures
        value_node(out) == node_of(entry@),
{
    let mut fields = new_table();
    insert(&mut fields, "local_file".to_owned(), text_value(entry.local_file.clone()));
    insert(&mut fields, "path".to_owned(), text_value(entry.path.clone()));
    insert(&mut fields, "dir".to_owned(), flag_value(entry.dir));
    table_value(fields)
}

/// Reads the entries of a document. Nothing is read where one key holds
/// something else than an entry.
pub fn decode_table(t: &toml::Table) -> (out: Option<Entries>)
    ensures
        out.is_some() == decode(table_nodes(*t)).is_some(),
        out matches Some(es) ==> es.wf() && decode(table_nodes(*t)) == Some(es@),
{
    let ghost doc = table_nodes(*t);
    let names = keys(t);
    let mut out = Entries::new();
    let mut i: usize = 0;
    while i < names.len()
        invariant
            i <= names.len(),
            doc == table_nodes(*t),
            texts(names@).no_duplicates(),
            texts(names@).to_set() == doc.dom(),
            out.wf(),
            forall|j: int| 0 <= j < i ==> entry_of(doc[#[trigger] names[j]@]) is Some,
            out@ =~= Map::new(
                |k: Seq<char>| exists|j: int| 0 <= j < i && #[trigger] names[j]@ == k,
                |k: Seq<char>| entry_of(doc[k])->0,
            ),
        decreases names.len() - i,
    {
        let ghost k = names[i as int]@;
        proof {
            lemma_index_is_listed(names@, i as int);
        }
        let entry = match get(t, names[i].as_str()) {
            Some(v) => read_entry(v),
            None => None,
        };
        match entry {
            Some(e) => {
                out.insert(names[i].clone(), e);
            },
            None => {
                assert(doc.dom().contains(k) && entry_of(doc[k]) is None);
                return None;
            },
        }
        i += 1;
    }
    proof {
        assert forall|k: Seq<char>| doc.dom().contains(k) implies entry_of(
            #[trigger] doc[k],
        ) is Some && out@.dom().contains(k) by {
            let j = lemma_listed_has_index(names@, k);
        }
        assert forall|k: Seq<char>| out@.dom().contains(k) implies doc.dom().contains(k) by {
            let j = choose|j: int| 0 <= j < i && #[trigger] names[j]@ == k;
            lemma_index_is_listed(names@, j);
        }
        assert(out@ =~= decode(doc)->0);
    }
    Some(out)
}

/// Writes the entries as a document.
pub fn encode_table(entries: &Entries) -> (out: toml::Table)
    requires
        entries.wf(),
    ensures
        table_nodes(out) == encode(entries@),
        is_flat(table_nodes(out)),
{
    let names = entries.names();
    let mut out = new_table();
    let mut i: usize = 0;
    while i < names.len()
        invariant
            i <= names.len(),
            entries.wf(),
            texts(names@).no_duplicates(),
            texts(names@).to_set() == entries@.dom(),
            table_nodes(out) =~= Map::new(
                |k: Seq<char>| exists|j: int| 0 <= j < i && #[trigger] names[j]@ == k,
                |k: Seq<char>| node_of(entries@[k]),
            ),
        decreases names.len() - i,
    {
        let ghost k = names[i as int]@;
        proof {
            lemma_index_is_listed(names@, i as int);
        }
        match entries.get(names[i].as_str()) {
            Some(e) => {
                insert(&mut out, names[i].clone(), write_entry(e));
            },
            None => {
                assert(false);
            },
        }
        i += 1;
    }
    proof {
        assert forall|k: Seq<char>| entries@.dom().contains(k) implies table_nodes(
            out,
        ).dom().contains(k) by {
            let j = lemma_listed_has_index(names@, k);
        }
        assert forall|k: Seq<char>| table_nodes(out).dom().contains(k) implies entries@.dom().contains(
            k,
        ) by {
            let j = choose|j: int| 0 <= j < i && #[trigger] names[j]@ == k;
            lemma_index_is_listed(names@, j);
        }
        assert(table_nodes(out) =~= encode(entries@));
        lemma_encode_is_flat(entries@);
    }
    out
}

} // verus!
