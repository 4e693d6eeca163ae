//! The container descriptor: the fixed entry of the archive that names the
//! package document.

use vstd::prelude::*;

verus! {

/// The container descriptor.
#[derive(Debug, PartialEq)]
pub struct Container {
    pub rootfiles: RootFiles,
}

/// The list of root files of a container; this reader looks at one.
#[derive(Debug, PartialEq)]
pub struct RootFiles {
    pub rootfile: RootFile,
}

/// The entry of the container that names the package document.
#[derive(Debug, PartialEq)]
pub struct RootFile {
    /// Path of the package document, relative to the archive's root.
    pub full_path: String,
    pub media_type: String,
}

impl Container {
    /// The path of the package document, relative to the archive's root.
    pub open spec fn package_path(&self) -> Seq<char> {
        self.rootfiles.rootfile.full_path@
    }
}

} // verus!
