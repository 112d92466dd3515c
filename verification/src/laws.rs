//! What holds of the manifest's operations, whatever the manifest and the
//! arguments are.

use crate::codec::{decode, encode, lemma_round_trip};
use crate::commands::{export_plan, import_plan};
use crate::entry::EntryView;
use crate::manifest::{
    add_answer, dropped, in_store, loaded_entries, new_entry, recorded, records, stored_by_name,
    ManifestView,
};
use crate::paths::lies_under;
use crate::toml_tree::Node;
use crate::transfer::{Failure, TransferView};
use vstd::prelude::*;

verus! {

/// A manifest that is written as a document and loaded from that document
/// has the entries it had.
pub proof fn lemma_written_document_loads(entries: Map<Seq<char>, EntryView>)
    ensures
        loaded_entries(Some(encode(entries))) == entries,
{
    lemma_round_trip(entries);
}

/// Where no document was read, or the document holds something that is no
/// entry, the loaded manifest is empty.
pub proof fn lemma_load_falls_back(doc: Option<Map<Seq<char>, Node>>)
    requires
        doc matches Some(d) ==> decode(d) is None,
    ensures
        loaded_entries(doc) == Map::<Seq<char>, EntryView>::empty(),
{
}

/// Once a file has been recorded under a name, recording the name again,
/// with whatever path, changes nothing: the first entry stays as it is. And
/// for a name that is recorded, planning asks for no copy.
pub proof fn lemma_record_twice(
    m: ManifestView,
    name: Seq<char>,
    first: Seq<char>,
    second: Seq<char>,
    second_is_dir: bool,
)
    ensures
        ({
            let once = recorded(m, name, first, false);
            &&& recorded(once, name, second, second_is_dir) == once
            &&& records(m, name, false) ==> once.entries[name] == new_entry(m, name, first)
            &&& once.entries.dom().contains(name) ==> add_answer(
                once,
                name,
                second,
                second_is_dir,
            ) == Ok::<Option<TransferView>, Failure>(None)
        }),
{
}

/// An entry is recorded exactly when planning answers a copy.
pub proof fn lemma_records_what_was_planned(
    m: ManifestView,
    name: Seq<char>,
    path: Seq<char>,
    is_dir: bool,
)
    ensures
        records(m, name, is_dir) <==> add_answer(m, name, path, is_dir) matches Ok(Some(_)),
        !records(m, name, is_dir) ==> recorded(m, name, path, is_dir) == m,
{
}

/// For a file under a name that is absent and stays in the store, planning
/// answers the copy from the original path to the stored one, and recording
/// keeps the entry with its stored copy in the base directory under its
/// name, its original path, and as no directory.
pub proof fn lemma_plan_and_record(m: ManifestView, name: Seq<char>, path: Seq<char>)
    requires
        records(m, name, false),
    ensures
        add_answer(m, name, path, false) == Ok::<Option<TransferView>, Failure>(
            Some(TransferView { src: path, dest: new_entry(m, name, path).local_file }),
        ),
        recorded(m, name, path, false).entries[name] == new_entry(m, name, path),
        recorded(m, name, path, false).entries.dom() == m.entries.dom().insert(name),
        lies_under(new_entry(m, name, path).local_file, m.base_dir),
{
}

/// Recording touches no other name.
pub proof fn lemma_record_keeps_others(
    m: ManifestView,
    name: Seq<char>,
    path: Seq<char>,
    is_dir: bool,
    other: Seq<char>,
)
    requires
        other != name,
    ensures
        recorded(m, name, path, is_dir).entries.dom().contains(other)
            == m.entries.dom().contains(other),
        m.entries.dom().contains(other) ==> recorded(m, name, path, is_dir).entries[other]
            == m.entries[other],
{
}

/// A file under a name whose stored copy would lie outside the base
/// directory is refused when it is planned, and is not recorded.
pub proof fn lemma_outside_store_is_refused(m: ManifestView, name: Seq<char>, path: Seq<char>)
    requires
        !m.entries.dom().contains(name),
        !in_store(m, name),
    ensures
        add_answer(m, name, path, false) == Err::<Option<TransferView>, Failure>(
            Failure::OutsideStore,
        ),
        recorded(m, name, path, false) == m,
{
}

/// Dropping a name that is absent leaves the manifest as it was.
pub proof fn lemma_drop_absent(m: ManifestView, name: Seq<char>)
    requires
        !m.entries.dom().contains(name),
    ensures
        dropped(m, name) == m,
{
    assert(m.entries.remove(name) =~= m.entries);
}

/// Dropping a name removes exactly that name: it is absent afterwards, and
/// every other name is there as before, with the entry it had.
pub proof fn lemma_drop_removes_exactly(m: ManifestView, name: Seq<char>, other: Seq<char>)
    requires
        other != name,
    ensures
        !dropped(m, name).entries.dom().contains(name),
        dropped(m, name).entries.dom().contains(other) == m.entries.dom().contains(other),
        m.entries.dom().contains(other) ==> dropped(m, name).entries[other] == m.entries[other],
        dropped(m, name).path == m.path,
        dropped(m, name).base_dir == m.base_dir,
{
}

/// Tracking a directory under a name that is absent is refused as
/// unsupported, whatever the name is, and a directory is never recorded.
pub proof fn lemma_track_refuses_directory(m: ManifestView, name: Seq<char>, path: Seq<char>)
    requires
        !m.entries.dom().contains(name),
    ensures
        add_answer(m, name, path, true) == Err::<Option<TransferView>, Failure>(
            Failure::Unsupported,
        ),
        recorded(m, name, path, true) == m,
{
}

/// Exporting or importing an entry that is a directory is refused as
/// unsupported.
pub proof fn lemma_transfer_refuses_directory(m: ManifestView, name: Seq<char>)
    requires
        m.entries.dom().contains(name),
        m.entries[name].dir,
    ensures
        export_plan(m, name) == Err::<TransferView, Failure>(Failure::Unsupported),
        import_plan(m, name) == Err::<TransferView, Failure>(Failure::Unsupported),
{
}

/// Exporting or importing a name that is not tracked is refused as not found.
pub proof fn lemma_transfer_needs_entry(m: ManifestView, name: Seq<char>)
    requires
        !m.entries.dom().contains(name),
    ensures
        export_plan(m, name) == Err::<TransferView, Failure>(Failure::NotFound),
        import_plan(m, name) == Err::<TransferView, Failure>(Failure::NotFound),
{
}

/// Export and import of an entry copy between the same two paths, in
/// opposite directions.
pub proof fn lemma_export_reverses_import(m: ManifestView, name: Seq<char>)
    requires
        m.entries.dom().contains(name),
        !m.entries[name].dir,
    ensures
        export_plan(m, name) is Ok,
        import_plan(m, name) is Ok,
        export_plan(m, name)->Ok_0.src == import_plan(m, name)->Ok_0.dest,
        export_plan(m, name)->Ok_0.dest == import_plan(m, name)->Ok_0.src,
{
}

/// In the empty manifest, and after recording and dropping, every stored
/// copy is the base directory with its entry's name adjoined and lies under
/// the base directory.
pub proof fn lemma_stored_by_name_is_kept(
    m: ManifestView,
    name: Seq<char>,
    path: Seq<char>,
    is_dir: bool,
)
    ensures
        stored_by_name(ManifestView { entries: Map::empty(), ..m }),
        stored_by_name(m) ==> stored_by_name(recorded(m, name, path, is_dir)),
        stored_by_name(m) ==> stored_by_name(dropped(m, name)),
{
}

} // verus!
