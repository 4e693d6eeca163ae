//! The opened book: how it is opened, step by step, and what it then offers.

use vstd::prelude::*;
use vstd::string::*;
use crate::archive::{entry_text, read_entry_text};
use crate::chapter::{Chapter, ChapterView};
use crate::container::Container;
use crate::opf::{Item, Opf, MISSING_NAVIGATION};
use crate::path::{get_abs_path, resolve};
use crate::result::EpubError;
use crate::toc::Toc;
use crate::Epub;

verus! {

/// The entry that every EPUB archive holds and that names the package
/// document.
pub const ENTRY_FILE: &'static str = "META-INF/container.xml";

/// Message of the failure of an opening that is handed something it did not
/// ask for.
pub const UNEXPECTED_EVENT: &'static str = "unexpected document";

// ---------------------------------------------------------------------------
// Opening
// ---------------------------------------------------------------------------

/// The three documents that opening a book decodes, in this order.
#[derive(Debug, PartialEq, Eq, Structural, Clone, Copy)]
pub enum DocumentKind {
    Container,
    Package,
    Navigation,
}

/// A decoded document.
#[derive(Debug)]
pub enum Document {
    Container(Container),
    Package(Opf),
    Navigation(Toc),
}

/// How far the opening of a book has come. `Opened` and `Failed` are final.
#[derive(Debug)]
pub enum OpenState {
    Unopened,
    AwaitingContainer,
    AwaitingPackage { opf_path: String },
    AwaitingNavigation { opf_path: String, opf: Opf },
    Opened { opf_path: String, opf: Opf, toc: Toc },
    Failed(EpubError),
}

/// What happened since the last step.
#[derive(Debug)]
pub enum OpenEvent {
    /// Opening begins.
    Start,
    /// The document asked for was read and decoded.
    Fetched(Document),
    /// The document asked for could not be read or decoded.
    FetchFailed(EpubError),
}

/// What the one who drives the opening has to do next.
#[derive(Debug)]
pub enum OpenAction {
    /// Read the entry at `path`, relative to the archive's root, decode it as
    /// a document of kind `kind`, and hand back the outcome.
    Fetch { kind: DocumentKind, path: String },
    /// The book is open.
    Finish,
    /// Opening has failed.
    Abort,
}

/// The steps that opening may take: `next` and `action` follow from `state`
/// and `event`.
///
/// The documents are asked for in the order container, package, navigation.
/// The first failure ends the opening with that failure; so does a package
/// whose spine names no navigation document, and anything that was not asked
/// for. A final state stays as it is whatever comes.
pub open spec fn open_transition(
    state: OpenState,
    event: OpenEvent,
    next: OpenState,
    action: OpenAction,
) -> bool {
    match (state, event) {
        (OpenState::Opened { .. }, _) => next == state && action is Finish,
        (OpenState::Failed(_), _) => next == state && action is Abort,
        (_, OpenEvent::FetchFailed(e)) => next == OpenState::Failed(e) && action is Abort,
        (OpenState::Unopened, OpenEvent::Start) => {
            &&& next is AwaitingContainer
            &&& action matches OpenAction::Fetch { kind, path }
            &&& kind is Container
            &&& path@ == ENTRY_FILE@
        },
        (OpenState::AwaitingContainer, OpenEvent::Fetched(Document::Container(container))) => {
            &&& next == OpenState::AwaitingPackage {
                opf_path: container.rootfiles.rootfile.full_path,
            }
            &&& action matches OpenAction::Fetch { kind, path }
            &&& kind is Package
            &&& path@ == container.package_path()
        },
        (OpenState::AwaitingPackage { opf_path }, OpenEvent::Fetched(Document::Package(opf))) => {
            match opf.toc_item() {
                Some(item) => {
                    &&& next == OpenState::AwaitingNavigation { opf_path, opf }
                    &&& action matches OpenAction::Fetch { kind, path }
                    &&& kind is Navigation
                    &&& path@ == resolve(opf_path@, item.href@)
                },
                None => {
                    &&& next matches OpenState::Failed(EpubError::InvalidEpub(cause))
                    &&& cause@ == MISSING_NAVIGATION@
                    &&& action is Abort
                },
            }
        },
        (
            OpenState::AwaitingNavigation { opf_path, opf },
            OpenEvent::Fetched(Document::Navigation(toc)),
        ) => next == OpenState::Opened { opf_path, opf, toc } && action is Finish,
        _ => {
            &&& next matches OpenState::Failed(EpubError::XmlDeserilize(cause))
            &&& cause@ == UNEXPECTED_EVENT@
            &&& action is Abort
        },
    }
}

fn unexpected() -> (next: (OpenState, OpenAction))
    ensures
        next.0 matches OpenState::Failed(EpubError::XmlDeserilize(cause)) && cause@
            == UNEXPECTED_EVENT@,
        next.1 is Abort,
{
    (
        OpenState::Failed(EpubError::XmlDeserilize(String::from_str(UNEXPECTED_EVENT))),
        OpenAction::Abort,
    )
}

/// One step of opening a book: takes the state and what happened, and gives
/// the next state and what to do.
///
/// The caller starts with `Unopened` and `Start`, does what each action asks
/// and hands the outcome back, until the action is `Finish` or `Abort`.
pub fn open_step(state: OpenState, event: OpenEvent) -> (next: (OpenState, OpenAction))
    ensures
        open_transition(state, event, next.0, next.1),
{
    match state {
        OpenState::Opened { opf_path, opf, toc } => (
            OpenState::Opened { opf_path, opf, toc },
            OpenAction::Finish,
        ),
        OpenState::Failed(e) => (OpenState::Failed(e), OpenAction::Abort),
        OpenState::Unopened => match event {
            OpenEvent::FetchFailed(e) => (OpenState::Failed(e), OpenAction::Abort),
            OpenEvent::Start => (
                OpenState::AwaitingContainer,
                OpenAction::Fetch {
                    kind: DocumentKind::Container,
                    path: String::from_str(ENTRY_FILE),
                },
            ),
            OpenEvent::Fetched(_) => unexpected(),
        },
        OpenState::AwaitingContainer => match event {
            OpenEvent::FetchFailed(e) => (OpenState::Failed(e), OpenAction::Abort),
            OpenEvent::Fetched(Document::Container(container)) => {
                let path = container.rootfiles.rootfile.full_path.clone();
                (
                    OpenState::AwaitingPackage { opf_path: container.rootfiles.rootfile.full_path },
                    OpenAction::Fetch { kind: DocumentKind::Package, path },
                )
            },
            _ => unexpected(),
        },
        OpenState::AwaitingPackage { opf_path } => match event {
            OpenEvent::FetchFailed(e) => (OpenState::Failed(e), OpenAction::Abort),
            OpenEvent::Fetched(Document::Package(opf)) => {
                match opf.checked_toc_path() {
                    Ok(href) => {
                        let path = get_abs_path(opf_path.as_str(), href.as_str());
                        (
                            OpenState::AwaitingNavigation { opf_path, opf },
                            OpenAction::Fetch { kind: DocumentKind::Navigation, path },
                        )
                    },
                    Err(e) => (OpenState::Failed(e), OpenAction::Abort),
                }
            },
            _ => unexpected(),
        },
        OpenState::AwaitingNavigation { opf_path, opf } => match event {
            OpenEvent::FetchFailed(e) => (OpenState::Failed(e), OpenAction::Abort),
            OpenEvent::Fetched(Document::Navigation(toc)) => (
                OpenState::Opened { opf_path, opf, toc },
                OpenAction::Finish,
            ),
            _ => unexpected(),
        },
    }
}

/// The step from `states[i]` to `states[i + 1]` on `events[i]` is one that
/// opening may take.
pub open spec fn is_step(states: Seq<OpenState>, events: Seq<OpenEvent>, i: int) -> bool {
    exists|action: OpenAction|
        #[trigger] open_transition(states[i], events[i], states[i + 1], action)
}

/// `states` and `events` are the history of an opening: it begins unopened,
/// and each state follows from the one before it and the event between them.
pub open spec fn is_opening(states: Seq<OpenState>, events: Seq<OpenEvent>) -> bool {
    &&& states.len() == events.len() + 1
    &&& states[0] is Unopened
    &&& forall|i: int| 0 <= i < events.len() ==> #[trigger] is_step(states, events, i)
}

/// A final state is never left: once an opening has failed or succeeded, it
/// stays in that very state.
pub proof fn lemma_final_state_stays(
    states: Seq<OpenState>,
    events: Seq<OpenEvent>,
    i: int,
    j: int,
)
    requires
        is_opening(states, events),
        0 <= i <= j < states.len(),
        states[i] is Opened || states[i] is Failed,
    ensures
        states[j] == states[i],
    decreases j - i,
{
    if i < j {
        lemma_final_state_stays(states, events, i, j - 1);
        assert(is_step(states, events, j - 1));
    }
}

/// The first failure ends the opening: when a document cannot be fetched
/// while the opening is under way, every later state is that failure.
pub proof fn lemma_first_failure_aborts(
    states: Seq<OpenState>,
    events: Seq<OpenEvent>,
    i: int,
    j: int,
)
    requires
        is_opening(states, events),
        0 <= i < j < states.len(),
        events[i] is FetchFailed,
        !(states[i] is Opened),
        !(states[i] is Failed),
    ensures
        states[j] == OpenState::Failed(events[i]->FetchFailed_0),
{
    assert(is_step(states, events, i));
    lemma_final_state_stays(states, events, i + 1, j);
}

/// All or nothing: an opening that has reached `Opened` has taken at least
/// four steps, was started, was handed the container, the package and the
/// navigation document in this order, and holds exactly these.
pub proof fn lemma_opened_holds_all_three(
    states: Seq<OpenState>,
    events: Seq<OpenEvent>,
    k: int,
)
    requires
        is_opening(states, events),
        0 <= k < states.len(),
        states[k] is Opened,
    ensures
        k >= 4,
        events[0] is Start,
        events[1] matches OpenEvent::Fetched(Document::Container(container))
            && events[2] matches OpenEvent::Fetched(Document::Package(opf))
            && events[3] matches OpenEvent::Fetched(Document::Navigation(toc))
            && states[k] == (OpenState::Opened {
            opf_path: container.rootfiles.rootfile.full_path,
            opf,
            toc,
        }),
{
    assert(k >= 1);
    assert(is_step(states, events, 0));
    if states[1] is Failed {
        lemma_final_state_stays(states, events, 1, k);
    }
    assert(states[1] is AwaitingContainer);
    assert(k >= 2);
    assert(is_step(states, events, 1));
    if states[2] is Failed {
        lemma_final_state_stays(states, events, 2, k);
    }
    assert(states[2] is AwaitingPackage);
    assert(k >= 3);
    assert(is_step(states, events, 2));
    if states[3] is Failed {
        lemma_final_state_stays(states, events, 3, k);
    }
    assert(states[3] is AwaitingNavigation);
    assert(k >= 4);
    assert(is_step(states, events, 3));
    if states[4] is Failed {
        lemma_final_state_stays(states, events, 4, k);
    }
    assert(states[4] is Opened);
    lemma_final_state_stays(states, events, 4, k);
}

// ---------------------------------------------------------------------------
// The opened book
// ---------------------------------------------------------------------------

/// An opened book: the bytes of its archive, and the package and navigation
/// documents that were decoded out of it.
pub struct EpubContainer {
    archive: Vec<u8>,
    opf_path: String,
    opf: Opf,
    toc: Toc,
}

/// The mathematical values of `chapters`, in order.
pub open spec fn chapter_views(chapters: Seq<Chapter>) -> Seq<ChapterView> {
    Seq::new(chapters.len(), |i: int| chapters[i]@)
}

/// The mathematical value of the text of a content document, where there is
/// one.
pub open spec fn content_view(content: Option<String>) -> Option<Seq<char>> {
    match content {
        Some(text) => Some(text@),
        None => None,
    }
}

/// The mathematical values of the texts of content documents, in order.
pub open spec fn content_views(contents: Seq<Option<String>>) -> Seq<Option<Seq<char>>> {
    Seq::new(contents.len(), |i: int| content_view(contents[i]))
}

/// The text among `contents` that belongs to chapter `index`, counted from 1:
/// nothing where `contents` does not reach that far.
pub open spec fn content_at(contents: Seq<Option<Seq<char>>>, index: int) -> Option<Seq<char>> {
    if 1 <= index <= contents.len() {
        contents[index - 1]
    } else {
        None
    }
}

impl EpubContainer {
    /// The bytes of the archive that the book was opened from.
    pub closed spec fn archive(&self) -> Seq<u8> {
        self.archive@
    }

    /// The path of the package document, relative to the archive's root.
    pub closed spec fn package_path(&self) -> Seq<char> {
        self.opf_path@
    }

    /// The package document.
    pub closed spec fn package(&self) -> Opf {
        self.opf
    }

    /// The navigation document.
    pub closed spec fn navigation(&self) -> Toc {
        self.toc
    }

    /// The number of entries of the spine.
    pub open spec fn spine_len(&self) -> nat {
        self.package().spine.itemrefs@.len()
    }

    /// The manifest item that the spine refers to at `index`, counted from 1:
    /// nothing where `index` is outside the spine or the reference dangles.
    pub open spec fn chapter_item(&self, index: int) -> Option<Item> {
        if 1 <= index <= self.spine_len() {
            self.package().find_item(self.package().spine.itemrefs@[index - 1].id_ref@)
        } else {
            None
        }
    }

    /// The path of the content document of chapter `index`, relative to the
    /// archive's root.
    pub open spec fn chapter_location(&self, index: int) -> Option<Seq<char>> {
        match self.chapter_item(index) {
            Some(item) => Some(resolve(self.package_path(), item.href@)),
            None => None,
        }
    }

    /// The chapter at `index`, counted from 1, as `content` gives it: nothing
    /// where the spine has no such entry, its reference dangles, or there is
    /// no content.
    pub open spec fn chapter_of_content(&self, index: int, content: Option<Seq<char>>) -> Option<
        ChapterView,
    > {
        match (self.chapter_item(index), content) {
            (Some(item), Some(text)) => Chapter::parsed(index as usize, item.href@, text),
            _ => None,
        }
    }

    /// The chapters at the indices 1 to `n` that `contents` give, in order.
    pub open spec fn chapters_among(&self, contents: Seq<Option<Seq<char>>>, n: nat) -> Seq<
        ChapterView,
    >
        decreases n,
    {
        if n == 0 {
            Seq::empty()
        } else {
            let before = self.chapters_among(contents, (n - 1) as nat);
            match self.chapter_of_content(n as int, content_at(contents, n as int)) {
                Some(chapter) => before.push(chapter),
                None => before,
            }
        }
    }

    /// The text that the archive holds for chapter `index`: nothing where the
    /// chapter has no content document, or the archive has no such entry, or
    /// the entry is not valid UTF-8.
    pub open spec fn archived_content(&self, index: int) -> Option<Seq<char>> {
        match self.chapter_location(index) {
            Some(path) => entry_text(self.archive(), path),
            None => None,
        }
    }

    /// The texts that the archive holds for the entries of the spine, in
    /// order.
    pub open spec fn archived_contents(&self) -> Seq<Option<Seq<char>>> {
        Seq::new(self.spine_len(), |i: int| self.archived_content(i + 1))
    }

    /// The chapter at `index` as the archive gives it.
    pub open spec fn chapter_at(&self, index: int) -> Option<ChapterView> {
        self.chapter_of_content(index, self.archived_content(index))
    }

    /// Among the first `n` entries of the spine there are at most `n`
    /// chapters, and exactly `n` where every one of them is there.
    pub proof fn lemma_chapters_among_len(&self, contents: Seq<Option<Seq<char>>>, n: nat)
        ensures
            self.chapters_among(contents, n).len() <= n,
            (forall|i: int|
                1 <= i <= n ==> self.chapter_of_content(i, content_at(contents, i)) is Some)
                ==> self.chapters_among(contents, n).len() == n,
        decreases n,
    {
        if n > 0 {
            self.lemma_chapters_among_len(contents, (n - 1) as nat);
        }
    }

    /// The book of the archive `archive`, whose package document `opf` stands
    /// at `opf_path` and whose navigation document is `toc`.
    pub fn new(archive: Vec<u8>, opf_path: String, opf: Opf, toc: Toc) -> (book: EpubContainer)
        ensures
            book.archive() == archive@,
            book.package_path() == opf_path@,
            book.package() == opf,
            book.navigation() == toc,
    {
        EpubContainer { archive, opf_path, opf, toc }
    }

    /// The number of entries of the spine.
    pub fn spine_count(&self) -> (n: usize)
        ensures
            n == self.spine_len(),
    {
        self.opf.spine.itemrefs.len()
    }

    /// The manifest item that the spine refers to at `index`, counted from 1.
    pub fn spine_item(&self, index: usize) -> (found: Option<&Item>)
        ensures
            found matches Some(item) ==> self.chapter_item(index as int) == Some(*item),
            found is None ==> self.chapter_item(index as int) is None,
    {
        if index == 0 || index > self.opf.spine.itemrefs.len() {
            return None;
        }
        self.opf.get_item(self.opf.spine.itemrefs[index - 1].id_ref.as_str())
    }

    /// The path of the content document of chapter `index`, relative to the
    /// archive's root.
    pub fn chapter_path(&self, index: usize) -> (path: Option<String>)
        ensures
            path matches Some(p) ==> self.chapter_location(index as int) == Some(p@),
            path is None ==> self.chapter_location(index as int) is None,
    {
        match self.spine_item(index) {
            Some(item) => Some(get_abs_path(self.opf_path.as_str(), item.href.as_str())),
            None => None,
        }
    }

    /// The chapter at `index`, counted from 1, read out of `content`, the text
    /// of its content document, for a caller that holds the documents
    /// outside the archive.
    pub fn chapter_from(&self, index: usize, content: &str) -> (chapter: Option<Chapter>)
        ensures
            chapter matches Some(c) ==> self.chapter_of_content(index as int, Some(content@))
                == Some(c@),
            chapter is None ==> self.chapter_of_content(index as int, Some(content@)) is None,
            index == 0 || index > self.spine_len() ==> chapter is None,
    {
        match self.spine_item(index) {
            Some(item) => Chapter::parse(index, item.href.as_str(), content),
            None => None,
        }
    }

    /// The chapters that `contents` give, in reading order: `contents[i]` is
    /// the text of the content document of chapter `i + 1`, or nothing where
    /// it could not be read. A chapter without content is left out.
    pub fn chapters_from(&self, contents: &Vec<Option<String>>) -> (all: Vec<Chapter>)
        ensures
            chapter_views(all@) == self.chapters_among(content_views(contents@), self.spine_len()),
            all.len() <= self.spine_len(),
            (forall|i: int|
                1 <= i <= self.spine_len() ==> self.chapter_of_content(
                    i,
                    content_at(content_views(contents@), i),
                ) is Some) ==> all.len() == self.spine_len(),
    {
        let mut all: Vec<Chapter> = Vec::new();
        let n = self.opf.spine.itemrefs.len();
        let ghost views = content_views(contents@);
        let mut i: usize = 0;
        assert(chapter_views(all@) =~= self.chapters_among(views, 0));
        while i < n
            invariant
                i <= n,
                n == self.spine_len(),
                views == content_views(contents@),
                chapter_views(all@) == self.chapters_among(views, i as nat),
            decreases n - i,
        {
            let ghost before = chapter_views(all@);
            let found = if i < contents.len() {
                match &contents[i] {
                    Some(content) => self.chapter_from(i + 1, content.as_str()),
                    None => None,
                }
            } else {
                None
            };
            match found {
                Some(chapter) => {
                    all.push(chapter);
                    assert(chapter_views(all@) =~= before.push(chapter@));
                },
                None => {},
            }
            i += 1;
        }
        proof {
            self.lemma_chapters_among_len(views, n as nat);
            assert(chapter_views(all@).len() == all.len());
        }
        all
    }
}

impl Epub for EpubContainer {
    fn title(&self) -> (title: String)
        ensures
            title@ == self.package().metadata.title@,
    {
        self.opf.metadata.title.clone()
    }

    /// The cover is the one that the package's `cover_path` finds, resolved
    /// against the place of the package document.
    fn cover(&self) -> (cover: Option<String>)
        ensures
            cover matches Some(path) ==> self.package().cover_href() matches Some(href) && path@
                == resolve(self.package_path(), href),
            cover is None ==> self.package().cover_href() is None,
    {
        match self.opf.cover_path() {
            Some(href) => Some(get_abs_path(self.opf_path.as_str(), href.as_str())),
            None => None,
        }
    }

    fn toc(&self) -> (toc: &Toc)
        ensures
            *toc == self.navigation(),
    {
        &self.toc
    }

    /// Every chapter that `get_chapter` finds at the indices 1 to the length
    /// of the spine, in that order. A chapter that cannot be read is left
    /// out, so there may be fewer chapters than the spine has entries.
    fn chapters(&self) -> (all: Vec<Chapter>)
        ensures
            chapter_views(all@) == self.chapters_among(self.archived_contents(), self.spine_len()),
            all.len() <= self.spine_len(),
            (forall|i: int| 1 <= i <= self.spine_len() ==> self.chapter_at(i) is Some)
                ==> all.len() == self.spine_len(),
    {
        let mut all: Vec<Chapter> = Vec::new();
        let n = self.opf.spine.itemrefs.len();
        let ghost contents = self.archived_contents();
        let mut i: usize = 0;
        assert(chapter_views(all@) =~= self.chapters_among(contents, 0));
        while i < n
            invariant
                i <= n,
                n == self.spine_len(),
                contents == self.archived_contents(),
                chapter_views(all@) == self.chapters_among(contents, i as nat),
            decreases n - i,
        {
            let ghost before = chapter_views(all@);
            assert(content_at(contents, i + 1) == self.archived_content(i + 1));
            match self.get_chapter(i + 1) {
                Some(chapter) => {
                    all.push(chapter);
                    assert(chapter_views(all@) =~= before.push(chapter@));
                },
                None => {},
            }
            i += 1;
        }
        proof {
            self.lemma_chapters_among_len(contents, n as nat);
            assert(chapter_views(all@).len() == all.len());
            if forall|i: int| 1 <= i <= n ==> self.chapter_at(i) is Some {
                assert forall|i: int| 1 <= i <= n implies self.chapter_of_content(
                    i,
                    content_at(contents, i),
                ) is Some by {
                    assert(content_at(contents, i) == self.archived_content(i));
                    assert(self.chapter_at(i) is Some);
                }
            }
        }
        all
    }

    /// Nothing where `index` is 0 or beyond the spine, where the spine's
    /// reference dangles, or where the content document cannot be read from
    /// the archive as text.
    fn get_chapter(&self, index: usize) -> (chapter: Option<Chapter>)
        ensures
            chapter matches Some(c) ==> self.chapter_at(index as int) == Some(c@),
            chapter is None ==> self.chapter_at(index as int) is None,
            index == 0 || index > self.spine_len() ==> chapter is None,
    {
        let path = match self.chapter_path(index) {
            Some(path) => path,
            None => {
                return None;
            },
        };
        match read_entry_text(&self.archive, path.as_str()) {
            Some(content) => self.chapter_from(index, content.as_str()),
            None => None,
        }
    }
}

} // verus!
