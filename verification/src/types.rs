//! Records shared by the package and the navigation document.

use vstd::prelude::*;

verus! {

/// A free-form metadata entry: a name and its content.
#[derive(Debug, PartialEq)]
pub struct Meta {
    pub name: String,
    pub content: String,
}

} // verus!
