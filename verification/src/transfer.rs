//! File transfer: the copy of one regular file from one path to another.
//!
//! The library decides whether a copy is made and between which paths; the
//! caller carries it out.

use vstd::prelude::*;

verus! {

/// Why an operation was not carried out.
#[derive(Debug, Clone, Copy, PartialEq, Eq, Structural)]
pub enum Failure {
    /// No entry is tracked under the name.
    NotFound,
    /// The operation would have to copy a directory.
    Unsupported,
    /// The stored copy of the name would not lie under the storage directory.
    OutsideStore,
    /// The manifest could not be written as text.
    Serialize,
}

impl Failure {
    /// A line that names the error.
    pub fn message(&self) -> (out: &'static str)
        ensures
            out@ == match *self {
                Failure::NotFound => "no entry found"@,
                Failure::Unsupported => "copying a directory is not supported"@,
                Failure::OutsideStore => "the name leads out of the storage directory"@,
                Failure::Serialize => "failed to serialize the manifest"@,
            },
    {
        match self {
            Failure::NotFound => "no entry found",
            Failure::Unsupported => "copying a directory is not supported",
            Failure::OutsideStore => "the name leads out of the storage directory",
            Failure::Serialize => "failed to serialize the manifest",
        }
    }
}

/// A copy to carry out: the full content of `src` goes to `dest`, which is
/// created or overwritten.
#[derive(Debug)]
pub struct Transfer {
    pub src: String,
    pub dest: String,
}

/// The mathematical value of a `Transfer`.
pub struct TransferView {
    pub src: Seq<char>,
    pub dest: Seq<char>,
}

impl View for Transfer {
    type V = TransferView;

    open spec fn view(&self) -> TransferView {
        TransferView { src: self.src@, dest: self.dest@ }
    }
}

/// What `copy` answers for a source, a destination and a directory flag.
pub open spec fn copy_plan(src: Seq<char>, dest: Seq<char>, is_directory: bool) -> Result<
    TransferView,
    Failure,
> {
    if is_directory {
        Err(Failure::Unsupported)
    } else {
        Ok(TransferView { src, dest })
    }
}

/// The value of an answer of `copy`.
pub open spec fn plan_view(plan: Result<Transfer, Failure>) -> Result<TransferView, Failure> {
    match plan {
        Ok(t) => Ok(t@),
        Err(e) => Err(e),
    }
}

/// Plans the copy of `src` to `dest`. A directory is not copied: the answer
/// is `Unsupported`.
pub fn copy(src: &str, dest: &str, is_directory: bool) -> (out: Result<Transfer, Failure>)
    ensures
        plan_view(out) == copy_plan(src@, dest@, is_directory),
{
    if is_directory {
        Err(Failure::Unsupported)
    } else {
        Ok(Transfer { src: src.to_owned(), dest: dest.to_owned() })
    }
}

} // verus!
