//! The operations of the command line, as functions on the manifest.
//!
//! Each one says what becomes of the manifest and which copy the caller has
//! to carry out; none of them touches a file.

use crate::manifest::{add_answer, answer_view, dropped, Manifest, ManifestView};
use crate::text::{display_sorted, sort_names, texts};
use crate::transfer::{copy, copy_plan, plan_view, Failure, Transfer, TransferView};
use vstd::prelude::*;

verus! {

/// What `export` answers: the copy from the store to the original place.
pub open spec fn export_plan(m: ManifestView, name: Seq<char>) -> Result<
    TransferView,
    Failure,
> {
    if m.entries.dom().contains(name) {
        let e = m.entries[name];
        copy_plan(e.local_file, e.path, e.dir)
    } else {
        Err(Failure::NotFound)
    }
}

/// What `import` answers: the copy from the original place to the store.
pub open spec fn import_plan(m: ManifestView, name: Seq<char>) -> Result<
    TransferView,
    Failure,
> {
    if m.entries.dom().contains(name) {
        let e = m.entries[name];
        copy_plan(e.path, e.local_file, e.dir)
    } else {
        Err(Failure::NotFound)
    }
}

/// Plans the copy that brings a path into the store under a name. The
/// manifest stays as it is: the entry is recorded once the copy is made.
pub fn track(manifest: &mut Manifest, name: &str, path: String, is_dir: bool) -> (out: Result<
    Option<Transfer>,
    Failure,
>)
    requires
        old(manifest).wf(),
    ensures
        final(manifest).wf(),
        final(manifest)@ == old(manifest)@,
        answer_view(out) == add_answer(old(manifest)@, name@, path@, is_dir),
{
    manifest.add_entry(name, path, is_dir)
}

/// Removes the record of a name. The stored copy stays where it is.
pub fn untrack(manifest: &mut Manifest, name: &str)
    requires
        old(manifest).wf(),
    ensures
        final(manifest).wf(),
        final(manifest)@ == dropped(old(manifest)@, name@),
{
    manifest.drop_entry(name);
}

/// Plans the copy of an entry from the store to its original place.
pub fn export(manifest: &Manifest, name: &str) -> (out: Result<Transfer, Failure>)
    requires
        manifest.wf(),
    ensures
        plan_view(out) == export_plan(manifest@, name@),
{
    match manifest.entry(name) {
        Some(e) => copy(e.local_file.as_str(), e.path.as_str(), e.dir),
        None => Err(Failure::NotFound),
    }
}

/// Plans the copy of an entry from its original place to the store.
pub fn import(manifest: &Manifest, name: &str) -> (out: Result<Transfer, Failure>)
    requires
        manifest.wf(),
    ensures
        plan_view(out) == import_plan(manifest@, name@),
{
    match manifest.entry(name) {
        Some(e) => copy(e.path.as_str(), e.local_file.as_str(), e.dir),
        None => Err(Failure::NotFound),
    }
}

/// The tracked names in display order: each once, ascending by their
/// lowercase forms.
pub fn list(manifest: &Manifest) -> (out: Vec<String>)
    requires
        manifest.wf(),
    ensures
        texts(out@).no_duplicates(),
        texts(out@).to_set() == manifest@.entries.dom(),
        display_sorted(texts(out@)),
{
    let names = manifest.names();
    let ghost given = texts(names@);
    let out = sort_names(names);
    proof {
        let sorted = texts(out@);
        given.lemma_multiset_has_no_duplicates();
        sorted.lemma_multiset_has_no_duplicates_conv();
        assert forall|k: Seq<char>| sorted.to_set().contains(k) <==> given.to_set().contains(
            k,
        ) by {
            vstd::seq_lib::to_multiset_contains(sorted, k);
            vstd::seq_lib::to_multiset_contains(given, k);
        }
        assert(sorted.to_set() =~= given.to_set());
    }
    out
}

} // verus!
