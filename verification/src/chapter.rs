//! Chapters: what is read out of one content document.

use vstd::prelude::*;
use vstd::string::*;
use crate::text::{trim, trimmed_len};

verus! {

/// One chapter of the book.
#[derive(Debug)]
pub struct Chapter {
    /// Position in the spine, counted from 1.
    pub index: usize,
    /// Title of the content document; empty where it states none.
    pub title: String,
    /// Reference of the content document, as the manifest gives it.
    pub path: String,
    /// Size of the document's text: the number of characters of its text
    /// nodes, each node counted without its leading and trailing whitespace.
    pub word_count: usize,
}

/// The mathematical value of a `Chapter`.
pub struct ChapterView {
    pub index: usize,
    pub title: Seq<char>,
    pub path: Seq<char>,
    pub word_count: usize,
}

impl View for Chapter {
    type V = ChapterView;

    open spec fn view(&self) -> ChapterView {
        ChapterView {
            index: self.index,
            title: self.title@,
            path: self.path@,
            word_count: self.word_count,
        }
    }
}

/// The text nodes of a selection: for each selected element, in the order of
/// the selection, the text nodes below it.
pub type TextNodes = Seq<Seq<Seq<char>>>;

/// The text nodes that the `scraper` crate finds in the HTML document
/// `content` below each element that the CSS selector `selector` matches: one
/// sequence per element, in the order in which `Html::select` yields the
/// elements, the text nodes of one element in the order in which
/// `ElementRef::text` yields them. `None` where `Selector::parse` refuses
/// `selector`.
pub uninterp spec fn html_text_nodes(content: Seq<char>, selector: Seq<char>) -> Option<TextNodes>;

/// Parses `content` with `scraper::Html::parse_document` and `selector` with
/// `scraper::Selector::parse`, and copies out the text nodes of every element
/// that `Html::select` yields. Trusted: that the result is `html_text_nodes`
/// of the two arguments, which says no more than that the parse and the
/// selection depend on these two texts alone.
#[verifier::external_body]
fn select_text_nodes(content: &str, selector: &str) -> (nodes: Option<Vec<Vec<String>>>)
    ensures
        nodes.deep_view() == html_text_nodes(content@, selector@),
{
    let selector = scraper::Selector::parse(selector).ok()?;
    let document = scraper::Html::parse_document(content);
    Some(document.select(&selector).map(|e| e.text().map(String::from).collect()).collect())
}

/// The first text node of the first selected element; empty where nothing is
/// selected or the first element has no text.
pub open spec fn first_text(nodes: Option<TextNodes>) -> Seq<char> {
    match nodes {
        Some(elements) => if elements.len() > 0 && elements[0].len() > 0 {
            elements[0][0]
        } else {
            Seq::empty()
        },
        None => Seq::empty(),
    }
}

/// The number of characters of `texts`, each text taken without its leading
/// and trailing whitespace.
pub open spec fn trimmed_total(texts: Seq<Seq<char>>) -> nat
    decreases texts.len(),
{
    if texts.len() == 0 {
        0
    } else {
        trimmed_total(texts.drop_last()) + trim(texts.last()).len()
    }
}

/// The size of the text of the first selected element; 0 where nothing is
/// selected.
pub open spec fn text_size(nodes: Option<TextNodes>) -> nat {
    match nodes {
        Some(elements) => if elements.len() > 0 {
            trimmed_total(elements[0])
        } else {
            0
        },
        None => 0,
    }
}

/// The chapter that the text nodes of a document's titles and of its bodies
/// make: `None` where the size of the text does not fit in `usize`.
pub open spec fn chapter_of(
    index: usize,
    href: Seq<char>,
    titles: Option<TextNodes>,
    bodies: Option<TextNodes>,
) -> Option<ChapterView> {
    if text_size(bodies) <= usize::MAX {
        Some(
            ChapterView {
                index,
                title: first_text(titles),
                path: href,
                word_count: text_size(bodies) as usize,
            },
        )
    } else {
        None
    }
}

/// Texts never count less than any of their prefixes.
pub proof fn lemma_trimmed_total_prefix(texts: Seq<Seq<char>>, n: int)
    requires
        0 <= n <= texts.len(),
    ensures
        trimmed_total(texts.take(n)) <= trimmed_total(texts),
    decreases texts.len(),
{
    if n == texts.len() {
        assert(texts.take(n) =~= texts);
    } else {
        lemma_trimmed_total_prefix(texts.drop_last(), n);
        assert(texts.drop_last().take(n) =~= texts.take(n));
    }
}

fn count_trimmed(texts: &Vec<String>) -> (total: Option<usize>)
    ensures
        total matches Some(n) ==> n == trimmed_total(texts.deep_view()),
        total is None ==> trimmed_total(texts.deep_view()) > usize::MAX,
{
    let ghost views = texts.deep_view();
    let mut total: usize = 0;
    let mut i: usize = 0;
    assert(views.take(0) =~= Seq::<Seq<char>>::empty());
    while i < texts.len()
        invariant
            i <= texts.len(),
            views == texts.deep_view(),
            total == trimmed_total(views.take(i as int)),
        decreases texts.len() - i,
    {
        let n = trimmed_len(texts[i].as_str());
        assert(views.take(i + 1).drop_last() =~= views.take(i as int));
        assert(views.take(i + 1).last() == texts[i as int]@);
        total = match total.checked_add(n) {
            Some(sum) => sum,
            None => {
                proof {
                    lemma_trimmed_total_prefix(views, i + 1);
                }
                return None;
            },
        };
        i += 1;
    }
    assert(views.take(i as int) =~= views);
    Some(total)
}

impl Chapter {
    /// The chapter `index` of the reference `href`, made of the text nodes
    /// that were selected from its document: `titles` below its `title`
    /// elements, `bodies` below its `body` elements.
    ///
    /// The title is the first text node of the first `title` element, and the
    /// word count is the size of the text below the first `body` element.
    /// `None` only where that size does not fit in `usize`.
    pub fn from_text_nodes(
        index: usize,
        href: &str,
        titles: &Option<Vec<Vec<String>>>,
        bodies: &Option<Vec<Vec<String>>>,
    ) -> (chapter: Option<Chapter>)
        ensures
            chapter matches Some(c) ==> chapter_of(
                index,
                href@,
                titles.deep_view(),
                bodies.deep_view(),
            ) == Some(c@),
            chapter is None ==> chapter_of(index, href@, titles.deep_view(), bodies.deep_view())
                is None,
    {
        let mut title = String::new();
        if let Some(elements) = titles {
            if elements.len() > 0 && elements[0].len() > 0 {
                title = elements[0][0].clone();
            }
        }
        let mut word_count: usize = 0;
        if let Some(elements) = bodies {
            if elements.len() > 0 {
                match count_trimmed(&elements[0]) {
                    Some(n) => {
                        word_count = n;
                    },
                    None => {
                        return None;
                    },
                }
            }
        }
        Some(Chapter { index, title, path: String::from_str(href), word_count })
    }

    /// The chapter that `parse` reads out of the document `content`.
    pub open spec fn parsed(index: usize, href: Seq<char>, content: Seq<char>) -> Option<
        ChapterView,
    > {
        chapter_of(
            index,
            href,
            html_text_nodes(content, "title"@),
            html_text_nodes(content, "body"@),
        )
    }

    /// Reads the chapter `index` of the reference `href` out of `content`, the
    /// text of its content document, which is taken as HTML however loosely
    /// it is written.
    ///
    /// A document without a title gives an empty title, one without a body
    /// the word count 0. `None` only where the size of the text does not fit
    /// in `usize`.
    pub fn parse(index: usize, href: &str, content: &str) -> (chapter: Option<Chapter>)
        ensures
            chapter matches Some(c) ==> Chapter::parsed(index, href@, content@) == Some(c@),
            chapter is None ==> Chapter::parsed(index, href@, content@) is None,
    {
        let titles = select_text_nodes(content, "title");
        let bodies = select_text_nodes(content, "body");
        Chapter::from_text_nodes(index, href, &titles, &bodies)
    }
}

} // verus!
