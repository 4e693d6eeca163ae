//! The package document: metadata, manifest, spine and guide.

use vstd::prelude::*;
use vstd::string::*;
use crate::result::EpubError;
use crate::text::{contains, str_contains};
use crate::types::Meta;

verus! {

/// The package document.
#[derive(Debug, PartialEq)]
pub struct Opf {
    pub metadata: Metadata,
    pub manifest: Manifest,
    pub spine: Spine,
    pub guide: Guide,
}

/// What the package says about the publication as a whole.
#[derive(Debug, PartialEq)]
pub struct Metadata {
    pub contributor: Contributor,
    pub creator: Creator,
    pub date: String,
    pub title: String,
    pub language: String,
    pub publisher: String,
    pub identifiers: Vec<Identifier>,
    pub metas: Vec<Meta>,
}

#[derive(Debug, PartialEq)]
pub struct Contributor {
    pub role: String,
    pub name: String,
}

#[derive(Debug, PartialEq)]
pub struct Creator {
    pub file_as: String,
    pub role: String,
    pub name: String,
}

#[derive(Debug, PartialEq)]
pub struct Identifier {
    pub scheme: String,
    pub value: String,
    pub id: Option<String>,
}

/// The content files of the publication, in the order of the document.
#[derive(Debug, PartialEq)]
pub struct Manifest {
    pub items: Vec<Item>,
}

/// One content file: its id, its reference relative to the package document,
/// and its media type.
#[derive(Debug, PartialEq)]
pub struct Item {
    pub id: String,
    pub href: String,
    pub media_type: String,
}

/// The reading order, and the id of the manifest item that is the navigation
/// document.
#[derive(Debug, PartialEq)]
pub struct Spine {
    pub toc: String,
    pub itemrefs: Vec<ItemRef>,
}

/// A reference from the spine to a manifest item, by id.
#[derive(Debug, PartialEq)]
pub struct ItemRef {
    pub id_ref: String,
}

#[derive(Debug, PartialEq)]
pub struct Guide {
    pub reference: Vec<Reference>,
}

/// A named landmark of the publication.
#[derive(Debug, PartialEq)]
pub struct Reference {
    pub type_: String,
    pub title: String,
    pub href: String,
}

/// Message of the failure of a package whose spine names no manifest item as
/// the navigation document.
pub const MISSING_NAVIGATION: &'static str = "the spine names no navigation document";

/// The first of `items` whose id is `id`, if there is one.
pub open spec fn first_with_id(items: Seq<Item>, id: Seq<char>) -> Option<Item>
    decreases items.len(),
{
    if items.len() == 0 {
        None
    } else if items[0].id@ == id {
        Some(items[0])
    } else {
        first_with_id(items.drop_first(), id)
    }
}

/// `first_with_id` finds an item exactly where some item has the id, and the
/// item it finds is the one at the least index that has it.
pub proof fn lemma_first_with_id(items: Seq<Item>, id: Seq<char>)
    ensures
        first_with_id(items, id) is None <==> forall|i: int|
            0 <= i < items.len() ==> (#[trigger] items[i]).id@ != id,
        first_with_id(items, id) matches Some(item) ==> exists|i: int|
            0 <= i < items.len() && #[trigger] items[i] == item && item.id@ == id && forall|j: int|
                0 <= j < i ==> (#[trigger] items[j]).id@ != id,
    decreases items.len(),
{
    if items.len() == 0 {
    } else if items[0].id@ == id {
        assert(items[0] == items[0]);
    } else {
        let rest = items.drop_first();
        lemma_first_with_id(rest, id);
        assert forall|i: int| 0 <= i < rest.len() implies #[trigger] rest[i] == items[i + 1] by {}
        if first_with_id(rest, id) is None {
            assert forall|i: int| 0 <= i < items.len() implies (#[trigger] items[i]).id@ != id by {
                if i > 0 {
                    assert(rest[i - 1] == items[i]);
                }
            }
        } else {
            let item = first_with_id(rest, id)->0;
            let k = choose|i: int|
                0 <= i < rest.len() && #[trigger] rest[i] == item && item.id@ == id && forall|j: int|
                    0 <= j < i ==> (#[trigger] rest[j]).id@ != id;
            assert(items[k + 1] == item);
            assert forall|j: int| 0 <= j < k + 1 implies (#[trigger] items[j]).id@ != id by {
                if j > 0 {
                    assert(rest[j - 1] == items[j]);
                }
            }
        }
    }
}

impl Opf {
    /// The manifest item with the id `id`: the first one, should several share it.
    pub open spec fn find_item(&self, id: Seq<char>) -> Option<Item> {
        first_with_id(self.manifest.items@, id)
    }

    /// The manifest item that the spine names as the navigation document.
    pub open spec fn toc_item(&self) -> Option<Item> {
        self.find_item(self.spine.toc@)
    }

    /// The reference of the cover image, by the rule of `cover_path`.
    pub open spec fn cover_href(&self) -> Option<Seq<char>> {
        if self.manifest.items@.len() > 0 && contains(
            self.manifest.items@[0].media_type@,
            "image"@,
        ) {
            Some(self.manifest.items@[0].href@)
        } else {
            None
        }
    }

    /// The reference of the navigation document, as the manifest gives it.
    ///
    /// The spine must name an item of the manifest; `checked_toc_path` asks
    /// for nothing and tells where it does not.
    pub fn toc_path(&self) -> (href: String)
        requires
            self.toc_item() is Some,
        ensures
            self.toc_item() matches Some(item) && href@ == item.href@,
    {
        match self.get_item(self.spine.toc.as_str()) {
            Some(item) => item.href.clone(),
            None => vstd::pervasive::unreached(),
        }
    }

    /// The reference of the navigation document, as the manifest gives it, or
    /// an archive-format failure where the spine names no item of the
    /// manifest.
    pub fn checked_toc_path(&self) -> (href: Result<String, EpubError>)
        ensures
            href matches Ok(h) ==> self.toc_item() matches Some(item) && h@ == item.href@,
            href matches Err(e) ==> e matches EpubError::InvalidEpub(cause) && cause@
                == MISSING_NAVIGATION@ && self.toc_item() is None,
    {
        if self.get_item(self.spine.toc.as_str()).is_some() {
            Ok(self.toc_path())
        } else {
            Err(EpubError::InvalidEpub(String::from_str(MISSING_NAVIGATION)))
        }
    }

    /// The reference of the book's cover image.
    ///
    /// Only the first item of the manifest is looked at: its reference is the
    /// cover where its media type holds the text `image`. An image further
    /// down the manifest is not found.
    pub fn cover_path(&self) -> (href: Option<String>)
        ensures
            href matches Some(h) ==> self.cover_href() == Some(h@),
            href is None ==> self.cover_href() is None,
    {
        if self.manifest.items.len() > 0 {
            let first = &self.manifest.items[0];
            if str_contains(first.media_type.as_str(), "image") {
                return Some(first.href.clone());
            }
        }
        None
    }

    /// The manifest item with the id `id`, if there is one.
    pub fn get_item(&self, id: &str) -> (found: Option<&Item>)
        ensures
            found matches Some(item) ==> self.find_item(id@) == Some(*item),
            found is None ==> self.find_item(id@) is None,
    {
        let wanted = String::from_str(id);
        let items = &self.manifest.items;
        let mut i: usize = 0;
        assert(items@.skip(0) =~= items@);
        while i < items.len()
            invariant
                i <= items.len(),
                wanted@ == id@,
                items == &self.manifest.items,
                first_with_id(items@, id@) == first_with_id(items@.skip(i as int), id@),
            decreases items.len() - i,
        {
            if items[i].id == wanted {
                return Some(&items[i]);
            }
            assert(items@.skip(i as int).drop_first() =~= items@.skip(i + 1));
            i += 1;
        }
        None
    }
}

} // verus!
