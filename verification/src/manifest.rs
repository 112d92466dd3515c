//! The manifest store: the map from names to tracked entries, the place of
//! the file that persists it, and the storage directory that holds the copies.

use crate::codec::{decode, decode_table, encode, encode_table};
use crate::entries::Entries;
use crate::entry::{Entry, EntryView};
use crate::paths::{
    join, joined, lies_under, manifest_file_name, place_view, stored_path, stored_place,
};
use crate::text::texts;
use crate::toml_tree::{parse, parsed, render, rendered, table_nodes, Node};
use crate::transfer::{copy, Failure, Transfer, TransferView};
use vstd::prelude::*;

verus! {

/// The persisted collection of entries, with the path of its file and the
/// base storage directory. The path and the directory are fixed when the
/// manifest is made.
#[derive(Debug)]
pub struct Manifest {
    path: String,
    base_dir: String,
    entries: Entries,
}

/// The mathematical value of a `Manifest`.
pub struct ManifestView {
    pub path: Seq<char>,
    pub base_dir: Seq<char>,
    pub entries: Map<Seq<char>, EntryView>,
}

impl View for Manifest {
    type V = ManifestView;

    closed spec fn view(&self) -> ManifestView {
        ManifestView { path: self.path@, base_dir: self.base_dir@, entries: self.entries@ }
    }
}

/// The entries that a manifest starts with, given what was read from its
/// file: those of the document, or none where no document was read or the
/// document holds something else than entries.
pub open spec fn loaded_entries(doc: Option<Map<Seq<char>, Node>>) -> Map<Seq<char>, EntryView> {
    match doc {
        Some(d) => match decode(d) {
            Some(entries) => entries,
            None => Map::empty(),
        },
        None => Map::empty(),
    }
}

/// What planning answers for a name, given the place of its stored copy:
/// nothing to copy for a name that is present; else a directory is refused
/// as unsupported, whatever its place; else a name without a place is
/// refused; else the plan of the copy from the original path to the place.
pub open spec fn plan_answer(
    m: ManifestView,
    name: Seq<char>,
    path: Seq<char>,
    is_dir: bool,
    place: Option<Seq<char>>,
) -> Result<Option<TransferView>, Failure> {
    if m.entries.dom().contains(name) {
        Ok(None)
    } else if is_dir {
        Err(Failure::Unsupported)
    } else {
        match place {
            None => Err(Failure::OutsideStore),
            Some(dest) => Ok(Some(TransferView { src: path, dest })),
        }
    }
}

/// The manifest after an entry is recorded for a name, given the place of
/// its stored copy: a name that is present, a directory, or a name without
/// a place leaves it as it was.
pub open spec fn recorded_at(
    m: ManifestView,
    name: Seq<char>,
    path: Seq<char>,
    is_dir: bool,
    place: Option<Seq<char>>,
) -> ManifestView {
    match place {
        Some(local_file) if !m.entries.dom().contains(name) && !is_dir => ManifestView {
            entries: m.entries.insert(name, EntryView { local_file, path, dir: false }),
            ..m
        },
        _ => m,
    }
}

/// Whether the stored copy for a name lies under the base directory.
pub open spec fn in_store(m: ManifestView, name: Seq<char>) -> bool {
    stored_place(m.base_dir, name) is Some
}

/// The entry that is recorded for a name and the original path of a file.
pub open spec fn new_entry(m: ManifestView, name: Seq<char>, path: Seq<char>) -> EntryView {
    EntryView { local_file: joined(m.base_dir, name), path, dir: false }
}

/// Whether `record_entry` records a name: the name is absent, the path is
/// no directory, and the stored copy lies under the base directory.
pub open spec fn records(m: ManifestView, name: Seq<char>, is_dir: bool) -> bool {
    !m.entries.dom().contains(name) && !is_dir && in_store(m, name)
}

/// The manifest after `record_entry`.
pub open spec fn recorded(m: ManifestView, name: Seq<char>, path: Seq<char>, is_dir: bool)
    -> ManifestView {
    recorded_at(m, name, path, is_dir, stored_place(m.base_dir, name))
}

/// What `add_entry` answers.
pub open spec fn add_answer(m: ManifestView, name: Seq<char>, path: Seq<char>, is_dir: bool)
    -> Result<Option<TransferView>, Failure> {
    plan_answer(m, name, path, is_dir, stored_place(m.base_dir, name))
}

/// The manifest after `drop_entry`.
pub open spec fn dropped(m: ManifestView, name: Seq<char>) -> ManifestView {
    ManifestView { entries: m.entries.remove(name), ..m }
}

/// The value of an answer of `add_entry`.
pub open spec fn answer_view(answer: Result<Option<Transfer>, Failure>) -> Result<
    Option<TransferView>,
    Failure,
> {
    match answer {
        Ok(Some(t)) => Ok(Some(t@)),
        Ok(None) => Ok(None),
        Err(e) => Err(e),
    }
}

/// Every entry's stored copy is the base directory with the entry's name
/// adjoined, and lies under the base directory.
pub open spec fn stored_by_name(m: ManifestView) -> bool {
    forall|k: Seq<char>| #[trigger]
        m.entries.dom().contains(k) ==> m.entries[k].local_file == joined(m.base_dir, k)
            && lies_under(m.entries[k].local_file, m.base_dir)
}

impl Manifest {
    /// No name occurs twice in the collection.
    pub closed spec fn wf(&self) -> bool {
        self.entries.wf()
    }

    /// The empty manifest at the well-known place under the base directory.
    pub fn new(base_dir: String) -> (out: Self)
        ensures
            out.wf(),
            out@ == (ManifestView {
                path: joined(base_dir@, manifest_file_name()),
                base_dir: base_dir@,
                entries: Map::empty(),
            }),
    {
        let path = join(base_dir.as_str(), ".dot.toml");
        Manifest { path, base_dir, entries: Entries::new() }
    }

    /// The manifest for a document that was read from the file at `path`,
    /// or for none. The path is recorded whatever was read.
    pub fn from_parsed(path: String, base_dir: String, doc: Option<toml::Table>) -> (out: Self)
        ensures
            out.wf(),
            out@ == (ManifestView {
                path: path@,
                base_dir: base_dir@,
                entries: loaded_entries(
                    match doc {
                        Some(t) => Some(table_nodes(t)),
                        None => None,
                    },
                ),
            }),
    {
        let decoded = match doc {
            Some(t) => decode_table(&t),
            None => None,
        };
        let entries = match decoded {
            Some(es) => es,
            None => Entries::new(),
        };
        Manifest { path, base_dir, entries }
    }

    /// The manifest for the content of the file at `path`, or for a file
    /// that could not be read. A content that is no manifest gives the
    /// empty manifest, and the path is recorded all the same.
    pub fn load(path: String, base_dir: String, contents: Option<&str>) -> (out: Self)
        ensures
            out.wf(),
            out@ == (ManifestView {
                path: path@,
                base_dir: base_dir@,
                entries: match contents {
                    Some(text) => loaded_entries(parsed(text@)),
                    None => Map::empty(),
                },
            }),
    {
        let doc = match contents {
            Some(text) => match parse(text) {
                Ok(t) => Some(t),
                Err(_) => None,
            },
            None => None,
        };
        Manifest::from_parsed(path, base_dir, doc)
    }

    /// The path of the manifest's file.
    pub fn path(&self) -> (out: &str)
        ensures
            out@ == self@.path,
    {
        self.path.as_str()
    }

    /// The base storage directory.
    pub fn base_dir(&self) -> (out: &str)
        ensures
            out@ == self@.base_dir,
    {
        self.base_dir.as_str()
    }

    /// The names of the entries, each once.
    pub fn names(&self) -> (out: Vec<String>)
        requires
            self.wf(),
        ensures
            texts(out@).no_duplicates(),
            texts(out@).to_set() == self@.entries.dom(),
    {
        self.entries.names()
    }

    /// The entry under a name, by exact match.
    pub fn entry(&self, name: &str) -> (out: Option<&Entry>)
        requires
            self.wf(),
        ensures
            match out {
                Some(e) => self@.entries.dom().contains(name@) && self@.entries[name@] == e@,
                None => !self@.entries.dom().contains(name@),
            },
    {
        self.entries.get(name)
    }

    /// Removes the entry under a name. A name that is absent leaves the
    /// manifest as it was. The stored copy is not touched.
    pub fn drop_entry(&mut self, name: &str)
        requires
            old(self).wf(),
        ensures
            final(self).wf(),
            final(self)@ == dropped(old(self)@, name@),
            !old(self)@.entries.dom().contains(name@) ==> final(self)@ == old(self)@,
            stored_by_name(old(self)@) ==> stored_by_name(final(self)@),
    {
        self.entries.remove(name);
        proof {
            if !old(self)@.entries.dom().contains(name@) {
                assert(old(self)@.entries.remove(name@) =~= old(self)@.entries);
            }
        }
    }

    /// Plans the tracking of a path under a name whose stored copy has the
    /// given place, or none. For a name that is present nothing is to be
    /// copied. Else a directory is refused as unsupported, and a name
    /// without a place is refused. Else the answer is the copy from the path
    /// to the place.
    pub fn plan_entry(&self, name: &str, path: &str, is_dir: bool, place: Option<String>) -> (out:
        Result<Option<Transfer>, Failure>)
        ensures
            answer_view(out) == plan_answer(self@, name@, path@, is_dir, place_view(place)),
    {
        if self.entries.contains_key(name) {
            return Ok(None);
        }
        if is_dir {
            return Err(Failure::Unsupported);
        }
        match place {
            Some(local) => match copy(path, local.as_str(), is_dir) {
                Ok(t) => Ok(Some(t)),
                Err(e) => Err(e),
            },
            None => Err(Failure::OutsideStore),
        }
    }

    /// Records an entry for a name whose stored copy has the given place, or
    /// none. A name that is present keeps the entry it has; a directory and
    /// a name without a place are not recorded. The answer says whether the
    /// entry was recorded.
    pub fn record_at(&mut self, name: &str, path: String, is_dir: bool, place: Option<String>)
        -> (out: bool)
        requires
            old(self).wf(),
        ensures
            final(self).wf(),
            final(self)@ == recorded_at(old(self)@, name@, path@, is_dir, place_view(place)),
            out == (place is Some && !is_dir && !old(self)@.entries.dom().contains(name@)),
    {
        if is_dir || self.entries.contains_key(name) {
            return false;
        }
        let local = match place {
            Some(p) => p,
            None => {
                return false;
            },
        };
        self.entries.insert(name.to_owned(), Entry { local_file: local, path, dir: false });
        true
    }

    /// Plans the tracking of a path under a name, and records nothing. For a
    /// name that is present nothing is to be copied. Else a directory is
    /// refused as unsupported, and a name whose stored copy would lie
    /// outside the base directory is refused. Else the answer is the copy
    /// that brings the file into the store. Once that copy has been made,
    /// `record_entry` records the entry.
    pub fn add_entry(&mut self, name: &str, path: String, is_dir: bool) -> (out: Result<
        Option<Transfer>,
        Failure,
    >)
        requires
            old(self).wf(),
        ensures
            final(self).wf(),
            final(self)@ == old(self)@,
            answer_view(out) == add_answer(old(self)@, name@, path@, is_dir),
    {
        let place = stored_path(self.base_dir.as_str(), name);
        self.plan_entry(name, path.as_str(), is_dir, place)
    }

    /// Records the entry of a file that has been copied into the store: its
    /// stored copy in the base directory under its name, its original path,
    /// and no directory. A name that is present keeps the entry it has. A
    /// directory is not recorded, nor a name whose stored copy would lie
    /// outside the base directory. The answer says whether the entry was
    /// recorded, which is when `add_entry` answers a copy.
    pub fn record_entry(&mut self, name: &str, path: String, is_dir: bool) -> (out: bool)
        requires
            old(self).wf(),
        ensures
            final(self).wf(),
            final(self)@ == recorded(old(self)@, name@, path@, is_dir),
            out == records(old(self)@, name@, is_dir),
            out == (add_answer(old(self)@, name@, path@, is_dir) matches Ok(Some(_))),
            stored_by_name(old(self)@) ==> stored_by_name(final(self)@),
    {
        let place = stored_path(self.base_dir.as_str(), name);
        self.record_at(name, path, is_dir, place)
    }

    /// The text that persists the manifest: all entries, written anew.
    pub fn save(&self) -> (out: Result<String, Failure>)
        requires
            self.wf(),
        ensures
            match out {
                Ok(text) => rendered(encode(self@.entries)) == Some(text@),
                Err(e) => e == Failure::Serialize && rendered(encode(self@.entries)) is None,
            },
    {
        let table = encode_table(&self.entries);
        match render(&table) {
            Ok(text) => Ok(text),
            Err(_) => Err(Failure::Serialize),
        }
    }
}

} // verus!
