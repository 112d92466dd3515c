//! One tracked dotfile.

use vstd::prelude::*;

verus! {

/// A tracked dotfile: where it lives on the machine and where its copy is
/// kept in the store.
#[derive(Debug)]
pub struct Entry {
    /// The copy inside the storage directory.
    pub local_file: String,
    /// The place of the file on the machine.
    pub path: String,
    /// Whether the tracked path is a directory.
    pub dir: bool,
}

/// The mathematical value of an `Entry`.
pub struct EntryView {
    pub local_file: Seq<char>,
    pub path: Seq<char>,
    pub dir: bool,
}

impl View for Entry {
    type V = EntryView;

    open spec fn view(&self) -> EntryView {
        EntryView { local_file: self.local_file@, path: self.path@, dir: self.dir }
    }
}

impl Clone for Entry {
    fn clone(&self) -> (out: Self)
        ensures
            out@ == self@,
    {
        Entry { local_file: self.local_file.clone(), path: self.path.clone(), dir: self.dir }
    }
}

} // verus!
