use std::io::Write;

use epub_parser::archive::read_entry;
use epub_parser::container::{Container, RootFile, RootFiles};
use epub_parser::epub::{
    open_step, Document, DocumentKind, OpenAction, OpenEvent, OpenState, ENTRY_FILE,
};
use epub_parser::opf::{
    Contributor, Creator, Guide, Item, ItemRef, Manifest, Metadata, Opf, Spine,
};
use epub_parser::result::EpubError;
use epub_parser::toc::{Head, NavLabel, NavMap, NavPoint, Text, Toc};
use epub_parser::types::Meta;
use epub_parser::{Epub, EpubContainer};

const CHAPTER_ONE: &str = "<html><head><title>The Beginning</title></head><body><h1>One</h1><p> It was a dark night. </p></body></html>";
const CHAPTER_TWO: &str = "<html><head><title>The End</title></head><body><p>Fin</p></body></html>";

fn archive_of(entries: &[(&str, &[u8])]) -> Vec<u8> {
    let mut writer = zip::ZipWriter::new(std::io::Cursor::new(Vec::new()));
    let options = zip::write::FileOptions::default();
    for (name, content) in entries {
        writer.start_file(*name, options).unwrap();
        writer.write_all(content).unwrap();
    }
    writer.finish().unwrap().into_inner()
}

fn sample_archive() -> Vec<u8> {
    archive_of(&[
        ("mimetype", b"application/epub+zip"),
        ("META-INF/container.xml", b"<container/>"),
        ("OEBPS/content.opf", b"<package/>"),
        ("OEBPS/toc.ncx", b"<ncx/>"),
        ("OEBPS/text/ch1.xhtml", CHAPTER_ONE.as_bytes()),
        ("OEBPS/text/ch2.xhtml", CHAPTER_TWO.as_bytes()),
        ("OEBPS/text/bad.xhtml", &[0x3c, 0x70, 0x3e, 0xff, 0xfe]),
        ("cover.jpeg", &[0xff, 0xd8, 0xff]),
    ])
}

fn container(full_path: &str) -> Container {
    Container {
        rootfiles: RootFiles {
            rootfile: RootFile {
                full_path: full_path.to_string(),
                media_type: "application/oebps-package+xml".to_string(),
            },
        },
    }
}

fn item(id: &str, href: &str, media_type: &str) -> Item {
    Item { id: id.to_string(), href: href.to_string(), media_type: media_type.to_string() }
}

fn package(title: &str, items: Vec<Item>, toc: &str, spine: &[&str]) -> Opf {
    Opf {
        metadata: Metadata {
            contributor: Contributor { role: String::new(), name: String::new() },
            creator: Creator { file_as: String::new(), role: "aut".to_string(), name: "Anon".to_string() },
            date: String::new(),
            title: title.to_string(),
            language: "en".to_string(),
            publisher: String::new(),
            identifiers: Vec::new(),
            metas: Vec::new(),
        },
        manifest: Manifest { items },
        spine: Spine {
            toc: toc.to_string(),
            itemrefs: spine.iter().map(|id| ItemRef { id_ref: id.to_string() }).collect(),
        },
        guide: Guide { reference: Vec::new() },
    }
}

fn sample_package() -> Opf {
    package(
        "A Dark Night",
        vec![
            item("cover", "../cover.jpeg", "image/jpeg"),
            item("ch1", "text/ch1.xhtml", "application/xhtml+xml"),
            item("ch2", "text/ch2.xhtml", "application/xhtml+xml"),
            item("ncx", "toc.ncx", "application/x-dtbncx+xml"),
        ],
        "ncx",
        &["ch1", "ch2"],
    )
}

fn point(order: u32, label: &str, children: Vec<NavPoint>) -> NavPoint {
    NavPoint {
        play_order: order,
        id: format!("np{}", order),
        class: "chapter".to_string(),
        nav_lable: NavLabel { text: Text { text: label.to_string() } },
        sub_navpoints: children,
    }
}

fn sample_toc() -> Toc {
    Toc {
        head: Head { metas: vec![Meta { name: "dtb:depth".to_string(), content: "2".to_string() }] },
        nav_map: NavMap {
            nav_points: vec![
                point(1, "The Beginning", vec![point(2, "Night", vec![]), point(3, "Dawn", vec![])]),
                point(4, "The End", vec![]),
            ],
        },
    }
}

fn count_points(points: &[NavPoint]) -> usize {
    points.iter().map(|p| 1 + count_points(&p.sub_navpoints)).sum()
}

fn book_of(archive: Vec<u8>, opf: Opf) -> EpubContainer {
    EpubContainer::new(archive, "OEBPS/content.opf".to_string(), opf, sample_toc())
}

fn fetch_of(action: OpenAction) -> (DocumentKind, String) {
    match action {
        OpenAction::Fetch { kind, path } => (kind, path),
        other => panic!("expected a fetch, got {:?}", other),
    }
}

// ---------------------------------------------------------------------------
// Opening
// ---------------------------------------------------------------------------

#[test]
fn opening_asks_for_the_three_documents_in_order() {
    let (state, action) = open_step(OpenState::Unopened, OpenEvent::Start);
    assert!(matches!(state, OpenState::AwaitingContainer));
    assert_eq!(fetch_of(action), (DocumentKind::Container, "META-INF/container.xml".to_string()));

    let (state, action) =
        open_step(state, OpenEvent::Fetched(Document::Container(container("OEBPS/content.opf"))));
    match &state {
        OpenState::AwaitingPackage { opf_path } => assert_eq!(opf_path, "OEBPS/content.opf"),
        other => panic!("unexpected state {:?}", other),
    }
    assert_eq!(fetch_of(action), (DocumentKind::Package, "OEBPS/content.opf".to_string()));

    let (state, action) = open_step(state, OpenEvent::Fetched(Document::Package(sample_package())));
    match &state {
        OpenState::AwaitingNavigation { opf_path, opf } => {
            assert_eq!(opf_path, "OEBPS/content.opf");
            assert_eq!(opf, &sample_package());
        }
        other => panic!("unexpected state {:?}", other),
    }
    assert_eq!(fetch_of(action), (DocumentKind::Navigation, "OEBPS/toc.ncx".to_string()));

    let (state, action) = open_step(state, OpenEvent::Fetched(Document::Navigation(sample_toc())));
    assert!(matches!(action, OpenAction::Finish));
    match state {
        OpenState::Opened { opf_path, opf, toc } => {
            assert_eq!(opf_path, "OEBPS/content.opf");
            assert_eq!(opf, sample_package());
            assert_eq!(toc.depth(), 2);
            assert_eq!(count_points(&toc.nav_map.nav_points), 4);
        }
        other => panic!("unexpected state {:?}", other),
    }
}

#[test]
fn the_entry_file_is_fixed() {
    assert_eq!(ENTRY_FILE, "META-INF/container.xml");
}

#[test]
fn the_navigation_path_is_resolved_against_the_package() {
    let opf = package("t", vec![item("ncx", "../nav/./toc.ncx", "application/x-dtbncx+xml")], "ncx", &[]);
    let state = OpenState::AwaitingPackage { opf_path: "a/b/content.opf".to_string() };
    let (_, action) = open_step(state, OpenEvent::Fetched(Document::Package(opf)));
    assert_eq!(fetch_of(action), (DocumentKind::Navigation, "a/nav/toc.ncx".to_string()));

    let flat = package("t", vec![item("ncx", "toc.ncx", "application/x-dtbncx+xml")], "ncx", &[]);
    let state = OpenState::AwaitingPackage { opf_path: "content.opf".to_string() };
    let (_, action) = open_step(state, OpenEvent::Fetched(Document::Package(flat)));
    assert_eq!(fetch_of(action), (DocumentKind::Navigation, "toc.ncx".to_string()));
}

#[test]
fn a_failed_fetch_ends_the_opening_with_that_failure() {
    let states = [
        OpenState::Unopened,
        OpenState::AwaitingContainer,
        OpenState::AwaitingPackage { opf_path: "content.opf".to_string() },
        OpenState::AwaitingNavigation { opf_path: "content.opf".to_string(), opf: sample_package() },
    ];
    for state in states {
        let failure = EpubError::XmlDeserilize("missing field `manifest`".to_string());
        let (next, action) = open_step(state, OpenEvent::FetchFailed(failure));
        assert!(matches!(action, OpenAction::Abort));
        match next {
            OpenState::Failed(e) => {
                assert_eq!(e, EpubError::XmlDeserilize("missing field `manifest`".to_string()))
            }
            other => panic!("unexpected state {:?}", other),
        }
    }
}

#[test]
fn a_failure_keeps_its_kind() {
    let failures = [
        EpubError::IO("permission denied".to_string()),
        EpubError::InvalidEpub("invalid Zip archive".to_string()),
        EpubError::XmlDeserilize("unexpected end".to_string()),
    ];
    for failure in failures {
        let expected = failure.message();
        let (next, _) = open_step(OpenState::AwaitingContainer, OpenEvent::FetchFailed(failure));
        match next {
            OpenState::Failed(e) => assert_eq!(e.message(), expected),
            other => panic!("unexpected state {:?}", other),
        }
    }
}

#[test]
fn a_package_without_navigation_item_fails_as_an_invalid_archive() {
    let opf = package("t", vec![item("ch1", "ch1.xhtml", "application/xhtml+xml")], "ncx", &["ch1"]);
    let state = OpenState::AwaitingPackage { opf_path: "content.opf".to_string() };
    let (next, action) = open_step(state, OpenEvent::Fetched(Document::Package(opf)));
    assert!(matches!(action, OpenAction::Abort));
    match next {
        OpenState::Failed(e) => {
            assert_eq!(e, EpubError::InvalidEpub("the spine names no navigation document".to_string()))
        }
        other => panic!("unexpected state {:?}", other),
    }
}

#[test]
fn a_document_that_was_not_asked_for_fails_the_opening() {
    let cases = [
        (OpenState::Unopened, OpenEvent::Fetched(Document::Container(container("c.opf")))),
        (OpenState::AwaitingContainer, OpenEvent::Fetched(Document::Package(sample_package()))),
        (OpenState::AwaitingContainer, OpenEvent::Fetched(Document::Navigation(sample_toc()))),
        (OpenState::AwaitingContainer, OpenEvent::Start),
        (
            OpenState::AwaitingPackage { opf_path: "c.opf".to_string() },
            OpenEvent::Fetched(Document::Container(container("c.opf"))),
        ),
        (
            OpenState::AwaitingPackage { opf_path: "c.opf".to_string() },
            OpenEvent::Fetched(Document::Navigation(sample_toc())),
        ),
        (
            OpenState::AwaitingNavigation { opf_path: "c.opf".to_string(), opf: sample_package() },
            OpenEvent::Fetched(Document::Package(sample_package())),
        ),
        (
            OpenState::AwaitingNavigation { opf_path: "c.opf".to_string(), opf: sample_package() },
            OpenEvent::Start,
        ),
    ];
    for (state, event) in cases {
        let (next, action) = open_step(state, event);
        assert!(matches!(action, OpenAction::Abort));
        match next {
            OpenState::Failed(e) => {
                assert_eq!(e, EpubError::XmlDeserilize("unexpected document".to_string()))
            }
            other => panic!("unexpected state {:?}", other),
        }
    }
}

#[test]
fn final_states_stay() {
    let events = || {
        [
            OpenEvent::Start,
            OpenEvent::Fetched(Document::Navigation(sample_toc())),
            OpenEvent::FetchFailed(EpubError::IO("late".to_string())),
        ]
    };
    for event in events() {
        let failed = OpenState::Failed(EpubError::InvalidEpub("first".to_string()));
        let (next, action) = open_step(failed, event);
        assert!(matches!(action, OpenAction::Abort));
        match next {
            OpenState::Failed(e) => assert_eq!(e, EpubError::InvalidEpub("first".to_string())),
            other => panic!("unexpected state {:?}", other),
        }
    }
    for event in events() {
        let opened = OpenState::Opened {
            opf_path: "content.opf".to_string(),
            opf: sample_package(),
            toc: sample_toc(),
        };
        let (next, action) = open_step(opened, event);
        assert!(matches!(action, OpenAction::Finish));
        match next {
            OpenState::Opened { opf_path, opf, .. } => {
                assert_eq!(opf_path, "content.opf");
                assert_eq!(opf, sample_package());
            }
            other => panic!("unexpected state {:?}", other),
        }
    }
}

#[test]
fn an_archive_without_container_fails_as_an_invalid_archive() {
    let archive = archive_of(&[("mimetype", b"application/epub+zip"), ("content.opf", b"<package/>")]);
    let (state, action) = open_step(OpenState::Unopened, OpenEvent::Start);
    let (_, path) = fetch_of(action);
    let event = match read_entry(&archive, &path) {
        Ok(_) => panic!("the archive has no container"),
        Err(e) => OpenEvent::FetchFailed(e),
    };
    let (state, action) = open_step(state, event);
    assert!(matches!(action, OpenAction::Abort));
    match state {
        OpenState::Failed(e) => {
            assert!(matches!(e, EpubError::InvalidEpub(_)));
            assert!(!matches!(e, EpubError::XmlDeserilize(_)));
            assert_eq!(e.message(), "Invalid EPUB file: specified file not found in archive");
        }
        other => panic!("unexpected state {:?}", other),
    }
}

// ---------------------------------------------------------------------------
// The opened book
// ---------------------------------------------------------------------------

#[test]
fn title_cover_and_toc_of_an_opened_book() {
    let book = book_of(sample_archive(), sample_package());
    assert_eq!(book.title(), "A Dark Night");
    assert_eq!(book.cover(), Some("cover.jpeg".to_string()));
    assert_eq!(book.toc().depth(), 2);
    assert_eq!(book.toc().nav_map.nav_points[0].nav_lable.text.text, "The Beginning");
}

#[test]
fn cover_is_nothing_when_the_first_item_is_no_image() {
    let opf = package(
        "t",
        vec![item("ch1", "ch1.xhtml", "application/xhtml+xml"), item("c", "c.png", "image/png")],
        "ncx",
        &[],
    );
    assert_eq!(book_of(sample_archive(), opf).cover(), None);
    let empty = package("t", vec![], "ncx", &[]);
    assert_eq!(book_of(sample_archive(), empty).cover(), None);
}

#[test]
fn cover_is_resolved_against_the_package() {
    let opf = package("t", vec![item("c", "images/c.png", "image/png")], "ncx", &[]);
    assert_eq!(book_of(sample_archive(), opf).cover(), Some("OEBPS/images/c.png".to_string()));
}

#[test]
fn get_chapter_reads_a_chapter() {
    let book = book_of(sample_archive(), sample_package());
    let first = book.get_chapter(1).unwrap();
    assert_eq!(first.index, 1);
    assert_eq!(first.title, "The Beginning");
    assert_eq!(first.path, "text/ch1.xhtml");
    // "One" 3, "It was a dark night." 20
    assert_eq!(first.word_count, 23);
    let second = book.get_chapter(2).unwrap();
    assert_eq!(second.index, 2);
    assert_eq!(second.title, "The End");
    assert_eq!(second.path, "text/ch2.xhtml");
    assert_eq!(second.word_count, 3);
}

#[test]
fn get_chapter_outside_the_spine_is_nothing() {
    let book = book_of(sample_archive(), sample_package());
    assert!(book.get_chapter(0).is_none());
    assert!(book.get_chapter(3).is_none());
    assert!(book.get_chapter(usize::MAX).is_none());
    let empty = book_of(sample_archive(), package("t", vec![], "ncx", &[]));
    assert!(empty.get_chapter(0).is_none());
    assert!(empty.get_chapter(1).is_none());
}

#[test]
fn get_chapter_of_a_dangling_reference_is_nothing() {
    let opf = package(
        "t",
        vec![item("ch1", "text/ch1.xhtml", "application/xhtml+xml")],
        "ncx",
        &["gone", "ch1"],
    );
    let book = book_of(sample_archive(), opf);
    assert!(book.get_chapter(1).is_none());
    assert_eq!(book.get_chapter(2).unwrap().title, "The Beginning");
}

#[test]
fn get_chapter_of_an_unreadable_document_is_nothing() {
    let opf = package(
        "t",
        vec![
            item("missing", "text/ch9.xhtml", "application/xhtml+xml"),
            item("bad", "text/bad.xhtml", "application/xhtml+xml"),
            item("ch2", "text/ch2.xhtml", "application/xhtml+xml"),
        ],
        "ncx",
        &["missing", "bad", "ch2"],
    );
    let book = book_of(sample_archive(), opf);
    assert!(book.get_chapter(1).is_none());
    assert!(book.get_chapter(2).is_none());
    assert_eq!(book.get_chapter(3).unwrap().index, 3);
    let nowhere = book_of(Vec::new(), sample_package());
    assert!(nowhere.get_chapter(1).is_none());
}

#[test]
fn chapters_are_all_there_when_every_document_can_be_read() {
    let book = book_of(sample_archive(), sample_package());
    let all = book.chapters();
    assert_eq!(all.len(), 2);
    assert_eq!(all[0].index, 1);
    assert_eq!(all[0].title, "The Beginning");
    assert_eq!(all[1].index, 2);
    assert_eq!(all[1].title, "The End");
}

#[test]
fn chapters_leave_out_what_cannot_be_read() {
    let opf = package(
        "t",
        vec![
            item("ch1", "text/ch1.xhtml", "application/xhtml+xml"),
            item("bad", "text/bad.xhtml", "application/xhtml+xml"),
            item("ch2", "text/ch2.xhtml", "application/xhtml+xml"),
        ],
        "ncx",
        &["ch1", "gone", "bad", "ch2", "ch1"],
    );
    let book = book_of(sample_archive(), opf);
    let all = book.chapters();
    assert!(all.len() <= 5);
    let indices: Vec<usize> = all.iter().map(|c| c.index).collect();
    assert_eq!(indices, vec![1, 4, 5]);
    let paths: Vec<&str> = all.iter().map(|c| c.path.as_str()).collect();
    assert_eq!(paths, vec!["text/ch1.xhtml", "text/ch2.xhtml", "text/ch1.xhtml"]);
    assert!(book_of(Vec::new(), sample_package()).chapters().is_empty());
    assert!(book_of(sample_archive(), package("t", vec![], "ncx", &[])).chapters().is_empty());
}

#[test]
fn chapter_paths_are_relative_to_the_root() {
    let book = book_of(sample_archive(), sample_package());
    assert_eq!(book.chapter_path(1), Some("OEBPS/text/ch1.xhtml".to_string()));
    assert_eq!(book.chapter_path(2), Some("OEBPS/text/ch2.xhtml".to_string()));
    assert_eq!(book.chapter_path(0), None);
    assert_eq!(book.chapter_path(3), None);
    assert_eq!(book.spine_item(2).unwrap().id, "ch2");
    assert!(book.spine_item(0).is_none());
}

#[test]
fn opening_a_sample_archive_round_trip() {
    let archive = sample_archive();
    let (mut state, mut action) = open_step(OpenState::Unopened, OpenEvent::Start);
    let mut fetched = Vec::new();
    loop {
        let (kind, path) = match action {
            OpenAction::Fetch { kind, path } => (kind, path),
            OpenAction::Finish => break,
            OpenAction::Abort => panic!("opening failed: {:?}", state),
        };
        let event = match read_entry(&archive, &path) {
            Err(e) => OpenEvent::FetchFailed(e),
            Ok(_) => OpenEvent::Fetched(match kind {
                DocumentKind::Container => Document::Container(container("OEBPS/content.opf")),
                DocumentKind::Package => Document::Package(sample_package()),
                DocumentKind::Navigation => Document::Navigation(sample_toc()),
            }),
        };
        fetched.push(path);
        let next = open_step(state, event);
        state = next.0;
        action = next.1;
    }
    assert_eq!(fetched, vec!["META-INF/container.xml", "OEBPS/content.opf", "OEBPS/toc.ncx"]);
    let book = match state {
        OpenState::Opened { opf_path, opf, toc } => EpubContainer::new(archive, opf_path, opf, toc),
        other => panic!("unexpected state {:?}", other),
    };
    assert_eq!(book.title(), "A Dark Night");
    assert_eq!(count_points(&book.toc().nav_map.nav_points), 4);
    let chapters = book.chapters();
    assert_eq!(chapters.len(), 2);
    assert!(chapters.iter().any(|c| c.word_count > 0));
}

#[test]
fn chapter_from_reads_supplied_content() {
    let book = book_of(Vec::new(), sample_package());
    assert_eq!(book.spine_count(), 2);
    let first = book.chapter_from(1, CHAPTER_ONE).unwrap();
    assert_eq!(first.index, 1);
    assert_eq!(first.title, "The Beginning");
    assert_eq!(first.path, "text/ch1.xhtml");
    assert_eq!(first.word_count, 23);
    assert!(book.chapter_from(0, CHAPTER_ONE).is_none());
    assert!(book.chapter_from(3, CHAPTER_ONE).is_none());
}

#[test]
fn chapters_from_supplied_contents() {
    let opf = package(
        "t",
        vec![
            item("ch1", "text/ch1.xhtml", "application/xhtml+xml"),
            item("ch2", "text/ch2.xhtml", "application/xhtml+xml"),
        ],
        "ncx",
        &["ch1", "gone", "ch2", "ch1"],
    );
    let book = book_of(Vec::new(), opf);
    let contents = vec![
        Some(CHAPTER_ONE.to_string()),
        Some(CHAPTER_TWO.to_string()),
        None,
        Some(CHAPTER_TWO.to_string()),
    ];
    let all = book.chapters_from(&contents);
    let found: Vec<(usize, &str, &str)> =
        all.iter().map(|c| (c.index, c.path.as_str(), c.title.as_str())).collect();
    assert_eq!(found, vec![(1, "text/ch1.xhtml", "The Beginning"), (4, "text/ch1.xhtml", "The End")]);
    // Contents that end early, or go on beyond the spine, change nothing else.
    assert_eq!(book.chapters_from(&vec![Some(CHAPTER_ONE.to_string())]).len(), 1);
    assert_eq!(book.chapters_from(&Vec::new()).len(), 0);
    let mut long = contents;
    long[2] = Some(CHAPTER_TWO.to_string());
    long.push(Some(CHAPTER_ONE.to_string()));
    assert_eq!(book.chapters_from(&long).len(), 3);
}

#[test]
fn chapters_from_gives_every_chapter_when_all_contents_are_there() {
    let book = book_of(Vec::new(), sample_package());
    let contents = vec![Some(CHAPTER_ONE.to_string()), Some(CHAPTER_TWO.to_string())];
    let all = book.chapters_from(&contents);
    assert_eq!(all.len(), book.spine_count());
    assert_eq!(all[1].title, "The End");
}

fn print_nav_map(nav_map: &NavMap, depth: usize) {
    let indent = " ".repeat(depth * 4);
    for nav_point in &nav_map.nav_points {
        print_nav_point(nav_point, &indent);
    }
}

fn print_nav_point(nav_point: &NavPoint, indent: &str) {
    println!("{}NavPoint {{", indent);
    println!("{}    nav_lable: \"{}\",", indent, nav_point.nav_lable.text.text);
    if !nav_point.sub_navpoints.is_empty() {
        println!("{}    sub_navpoints: [", indent);
        for sub_navpoint in &nav_point.sub_navpoints {
            print_nav_point(sub_navpoint, &format!("{}    ", indent));
        }
        println!("{}    ],", indent);
    }
    println!("{}}},", indent);
}

#[test]
fn parse() {
    let epub = book_of(sample_archive(), sample_package());

    print_nav_map(&epub.toc().nav_map, epub.toc().depth());
}

#[test]
fn get_chapter() {
    let epub = book_of(sample_archive(), sample_package());
    let ch = epub.get_chapter(2).unwrap();
    println!("ch: {:?}", ch);
}
