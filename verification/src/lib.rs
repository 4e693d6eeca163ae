//! A verified reader for the structure of EPUB books.
//!
//! An EPUB is a zip archive. A fixed entry, the container descriptor, names
//! the package document; the package document lists the content files (the
//! manifest) and their reading order (the spine) and names the navigation
//! document, a tree of navigation points. This crate holds the rules by which
//! these documents lead to one another and to the chapters of the book, and
//! proves with Verus that the code follows them:
//!
//! - [`path`] resolves a reference found in one document into a path relative
//!   to the archive's root;
//! - [`opf`], [`toc`], [`container`] and [`types`] hold the decoded documents
//!   and their lookups;
//! - [`chapter`] reads title and size out of a content document;
//! - [`archive`] reads entries out of the bytes of an archive;
//! - [`epub`] holds the steps of opening a book, and the opened book;
//! - [`text`] holds the character-level helpers that the others share.
//!
//! The crate reads no files and decodes no XML: a caller hands it the bytes
//! of the archive and the decoded documents, led by the steps of
//! [`epub::open_step`].
//!
//! What is taken on trust rather than proved stands behind four small
//! declarations: that the `zip` crate reads an entry, that the `scraper`
//! crate finds the text nodes of an HTML document, and what the standard
//! library's `String::push` and `String::from_utf8` do.

use vstd::prelude::*;

pub mod archive;
pub mod chapter;
pub mod container;
pub mod epub;
pub mod opf;
pub mod path;
pub mod result;
pub mod text;
pub mod toc;
pub mod types;

pub use chapter::Chapter;
pub use epub::EpubContainer;

verus! {

/// A book that can be read: its title, its cover, its table of contents and
/// its chapters.
pub trait Epub {
    /// The book's title.
    fn title(&self) -> String;

    /// The path of the book's cover image, relative to the archive's root.
    fn cover(&self) -> Option<String>;

    /// The book's table of contents.
    fn toc(&self) -> &toc::Toc;

    /// All chapters of the book that can be read, in reading order.
    fn chapters(&self) -> Vec<Chapter>;

    /// The chapter at `index` of the reading order, counted from 1.
    fn get_chapter(&self, index: usize) -> Option<Chapter>;
}

} // verus!
