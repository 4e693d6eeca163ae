//! The navigation document: a head of metadata entries and a tree of
//! navigation points.

use vstd::prelude::*;
use vstd::string::*;
use crate::text::{parse_usize, parsed_usize};
use crate::types::Meta;

verus! {

/// The navigation document.
#[derive(Debug)]
pub struct Toc {
    pub head: Head,
    pub nav_map: NavMap,
}

#[derive(Debug)]
pub struct Head {
    pub metas: Vec<Meta>,
}

/// The top level of the navigation tree.
#[derive(Debug)]
pub struct NavMap {
    pub nav_points: Vec<NavPoint>,
}

/// A node of the navigation tree. Nodes nest to any depth.
#[derive(Debug)]
pub struct NavPoint {
    pub play_order: u32,
    pub id: String,
    pub class: String,
    pub nav_lable: NavLabel,
    pub sub_navpoints: Vec<NavPoint>,
}

#[derive(Debug)]
pub struct NavLabel {
    pub text: Text,
}

#[derive(Debug)]
pub struct Text {
    pub text: String,
}

/// The first of `metas` whose name is `name`, if there is one.
pub open spec fn first_with_name(metas: Seq<Meta>, name: Seq<char>) -> Option<Meta>
    decreases metas.len(),
{
    if metas.len() == 0 {
        None
    } else if metas[0].name@ == name {
        Some(metas[0])
    } else {
        first_with_name(metas.drop_first(), name)
    }
}

impl Toc {
    /// The entry of the head that states the depth of the tree: the first one
    /// named `dtb:depth`.
    pub open spec fn depth_meta(&self) -> Option<Meta> {
        first_with_name(self.head.metas@, "dtb:depth"@)
    }

    /// The depth that the head states: 0 where it states none, and nothing
    /// where what it states is no number.
    pub open spec fn stated_depth(&self) -> Option<usize> {
        match self.depth_meta() {
            None => Some(0),
            Some(meta) => parsed_usize(meta.content@),
        }
    }

    fn find_depth_meta(&self) -> (found: Option<&Meta>)
        ensures
            found matches Some(meta) ==> self.depth_meta() == Some(*meta),
            found is None ==> self.depth_meta() is None,
    {
        let wanted = String::from_str("dtb:depth");
        let metas = &self.head.metas;
        let mut i: usize = 0;
        assert(metas@.skip(0) =~= metas@);
        while i < metas.len()
            invariant
                i <= metas.len(),
                wanted@ == "dtb:depth"@,
                metas == &self.head.metas,
                first_with_name(metas@, "dtb:depth"@) == first_with_name(
                    metas@.skip(i as int),
                    "dtb:depth"@,
                ),
            decreases metas.len() - i,
        {
            if metas[i].name == wanted {
                return Some(&metas[i]);
            }
            assert(metas@.skip(i as int).drop_first() =~= metas@.skip(i + 1));
            i += 1;
        }
        None
    }

    /// The depth of the navigation tree as the head states it; `None` where
    /// the entry is there and its content is no unsigned decimal number.
    pub fn checked_depth(&self) -> (depth: Option<usize>)
        ensures
            depth == self.stated_depth(),
    {
        match self.find_depth_meta() {
            Some(meta) => parse_usize(meta.content.as_str()),
            None => Some(0),
        }
    }

    /// The depth of the navigation tree as the head states it, 0 where the
    /// head has no `dtb:depth` entry.
    ///
    /// Where the entry is there, its content must be an unsigned decimal
    /// number; `checked_depth` tells whether it is.
    pub fn depth(&self) -> (depth: usize)
        requires
            self.stated_depth() is Some,
        ensures
            self.stated_depth() == Some(depth),
    {
        match self.checked_depth() {
            Some(depth) => depth,
            None => vstd::pervasive::unreached(),
        }
    }
}

} // verus!
