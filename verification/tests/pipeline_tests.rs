use std::io::Write;

use epub_optimizer::error::EpubError;
use epub_optimizer::metadata::MetadataAnswers;
use epub_optimizer::optimizer::ToolEvent;
use epub_optimizer::pipeline::{
    add_report, kib_of, process, Action, Event, Pipeline, Report,
};
use epub_optimizer::reader::unzip;
use epub_optimizer::writer::{gen_epub, PackPlan};

const CONTAINER: &str = r#"<?xml version="1.0"?>
<container version="1.0" xmlns="urn:oasis:names:tc:opendocument:xmlns:container">
  <rootfiles><rootfile full-path="content.opf" media-type="application/oebps-package+xml"/></rootfiles>
</container>"#;

const PACKAGE: &str = r#"<?xml version="1.0" encoding="UTF-8"?>
<package xmlns="http://www.idpf.org/2007/opf" version="2.0">
  <metadata xmlns:dc="http://purl.org/dc/elements/1.1/">
    <dc:title>Book</dc:title>
    <dc:language>en</dc:language>
    <meta name="cover" content="cover"/>
  </metadata>
  <manifest><item id="cover" href="cover.png" media-type="image/png"/></manifest>
  <spine/>
</package>"#;

fn stored_zip(entries: &[(&str, &[u8])]) -> Vec<u8> {
    let mut w = zip::ZipWriter::new(std::io::Cursor::new(Vec::new()));
    let options = zip::write::SimpleFileOptions::default()
        .compression_method(zip::CompressionMethod::Stored);
    for (name, content) in entries {
        w.start_file(*name, options).unwrap();
        w.write_all(content).unwrap();
    }
    w.finish().unwrap().into_inner()
}

fn pack(plan: &PackPlan) -> Vec<u8> {
    let members: Vec<(&str, &[u8])> =
        plan.members.iter().map(|e| (e.path.as_str(), e.content.as_slice())).collect();
    stored_zip(&members)
}

fn book() -> Vec<u8> {
    stored_zip(&[
        ("mimetype", b"application/epub+zip"),
        ("META-INF/container.xml", CONTAINER.as_bytes()),
        ("content.opf", PACKAGE.as_bytes()),
        ("ch1.html", b"<html><body>  text  </body></html>"),
        ("notes.txt", b"plain"),
    ])
}

fn no_answers() -> MetadataAnswers {
    MetadataAnswers {
        language: String::new(),
        title: String::new(),
        creator: String::new(),
        subject: String::new(),
        date: String::new(),
        description: String::new(),
    }
}

fn opened(bytes: Vec<u8>) -> Event {
    Event::Opened { path: "book.epub".to_string(), bytes }
}

#[test]
fn kib_rounds_towards_zero() {
    assert_eq!(kib_of(0), 0);
    assert_eq!(kib_of(1023), 0);
    assert_eq!(kib_of(1024), 1);
    assert_eq!(kib_of(24_000), 23);
    assert_eq!(kib_of(-1), 0);
    assert_eq!(kib_of(-1500), -1);
    assert_eq!(kib_of(-2048), -2);
    assert_eq!(kib_of(i128::MAX), i128::MAX / 1024);
    assert_eq!(kib_of(i128::MIN), i128::MIN / 1024);
}

#[test]
fn a_report_says_what_was_saved() {
    let r = Report { original_len: 100_000, final_len: 76_000, tool_savings: 24_000 };
    assert_eq!(r.bytes_saved(), 24_000);
    let grown = Report { original_len: 10, final_len: 25, tool_savings: 0 };
    assert_eq!(grown.bytes_saved(), -15);
    let extreme = Report { original_len: 0, final_len: u64::MAX, tool_savings: 0 };
    assert_eq!(extreme.bytes_saved(), -(u64::MAX as i128));
}

#[test]
fn reports_add_up() {
    let a = Report { original_len: 5000, final_len: 1000, tool_savings: 0 };
    let b = Report { original_len: 100, final_len: 300, tool_savings: 0 };
    let total = add_report(0, &a).unwrap();
    assert_eq!(total, 4000);
    let total = add_report(total, &b).unwrap();
    assert_eq!(total, 3800);
    assert_eq!(kib_of(total), 3);
    assert_eq!(add_report(i128::MAX, &a), None);
    assert_eq!(add_report(i128::MIN, &b), None);
    assert_eq!(add_report(i128::MAX, &b), Some(i128::MAX - 200));
}

#[test]
fn an_unreadable_path_is_given_up_before_any_stage() {
    let (state, action) = process(Pipeline::Fresh, Event::Unreadable);
    assert!(matches!(state, Pipeline::Finished));
    assert!(matches!(action, Action::Abort(EpubError::PathUnreadable)));
}

#[test]
fn a_corrupt_archive_is_given_up() {
    let (state, action) = process(Pipeline::Fresh, opened(b"PK garbage".to_vec()));
    assert!(matches!(state, Pipeline::Finished));
    assert!(matches!(action, Action::Abort(EpubError::CorruptArchive)));
}

#[test]
fn a_book_without_container_is_given_up() {
    let bytes = stored_zip(&[("mimetype", b"application/epub+zip")]);
    let (state, action) = process(Pipeline::Fresh, opened(bytes));
    assert!(matches!(state, Pipeline::Finished));
    assert!(matches!(action, Action::Abort(EpubError::MissingRootFile)));
}

#[test]
fn a_book_with_a_broken_package_document_is_given_up() {
    let bytes = stored_zip(&[
        ("META-INF/container.xml", CONTAINER.as_bytes()),
        ("content.opf", b"<package>"),
    ]);
    let (state, action) = process(Pipeline::Fresh, opened(bytes));
    assert!(matches!(state, Pipeline::Finished));
    assert!(matches!(action, Action::Abort(EpubError::MalformedPackageDocument)));
}

#[test]
fn events_out_of_sequence_give_the_book_up() {
    let (_, action) = process(Pipeline::Fresh, Event::Answered(no_answers()));
    assert!(matches!(action, Action::Abort(EpubError::OutOfSequence)));
    let (_, action) = process(Pipeline::Fresh, Event::Tool(ToolEvent::Failed));
    assert!(matches!(action, Action::Abort(EpubError::OutOfSequence)));
    let (_, action) = process(Pipeline::Finished, opened(book()));
    assert!(matches!(action, Action::Abort(EpubError::OutOfSequence)));
    let (state, _) = process(Pipeline::Fresh, opened(book()));
    let (state, action) = process(state, Event::Packed { length: 1 });
    assert!(matches!(state, Pipeline::Finished));
    assert!(matches!(action, Action::Abort(EpubError::OutOfSequence)));
}

#[test]
fn the_stages_follow_each_other() {
    let bytes = book();
    let original_len = bytes.len() as u64;
    let (state, action) = process(Pipeline::Fresh, opened(bytes));
    let defaults = match action {
        Action::Ask(m) => m,
        _ => panic!("the operator should be asked"),
    };
    assert_eq!(defaults.title, "Book");
    assert_eq!(defaults.cover_id, "cover");
    assert!(matches!(state, Pipeline::Rewriting { .. }));

    let mut answers = no_answers();
    answers.creator = "Somebody".to_string();
    let (state, action) = process(state, Event::Answered(answers));
    let job = match action {
        Action::Run(job) => job,
        _ => panic!("a tool should run"),
    };
    assert_eq!(job.path, "META-INF/container.xml");
    let (state, action) = process(state, Event::Tool(ToolEvent::Failed));
    let job = match action {
        Action::Run(job) => job,
        _ => panic!("a tool should run"),
    };
    assert_eq!(job.path, "content.opf");
    let (state, action) = process(state, Event::Tool(ToolEvent::Failed));
    let job = match action {
        Action::Run(job) => job,
        _ => panic!("a tool should run"),
    };
    assert_eq!(job.path, "ch1.html");
    let shorter = b"<html><body>text</body></html>".to_vec();
    let (state, action) = process(state, Event::Tool(ToolEvent::Finished(shorter.clone())));
    let plan = match action {
        Action::Pack(plan) => plan,
        _ => panic!("the book should be packed"),
    };
    assert_eq!(plan.destination, "book.epub");
    let paths: Vec<&str> = plan.members.iter().map(|e| e.path.as_str()).collect();
    assert_eq!(
        paths,
        vec!["mimetype", "META-INF/container.xml", "content.opf", "ch1.html", "notes.txt"]
    );
    assert_eq!(plan.members[3].content, shorter);
    assert_eq!(plan.members[4].content, b"plain");
    let opf = xmltree::Element::parse(plan.members[2].content.as_slice()).unwrap();
    let creator = opf.get_child("metadata").unwrap().get_child("creator").unwrap();
    assert_eq!(creator.get_text().unwrap(), "Somebody");

    let (state, action) = process(state, Event::Packed { length: original_len - 4 });
    assert!(matches!(state, Pipeline::Finished));
    match action {
        Action::Finish(report) => {
            assert_eq!(report.original_len, original_len);
            assert_eq!(report.final_len, original_len - 4);
            assert_eq!(report.tool_savings, 4);
            assert_eq!(report.bytes_saved(), 4);
        },
        _ => panic!("the book should be done"),
    }
}

#[test]
fn a_failed_packing_is_an_unreadable_path() {
    let bytes = stored_zip(&[
        ("META-INF/container.xml", CONTAINER.as_bytes()),
        ("content.opf", PACKAGE.as_bytes()),
    ]);
    let (state, _) = process(Pipeline::Fresh, opened(bytes));
    let (state, _) = process(state, Event::Answered(no_answers()));
    let (state, _) = process(state, Event::Tool(ToolEvent::Failed));
    let (state, action) = process(state, Event::Tool(ToolEvent::Failed));
    assert!(matches!(action, Action::Pack(_)));
    let (state, action) = process(state, Event::Unreadable);
    assert!(matches!(state, Pipeline::Finished));
    assert!(matches!(action, Action::Abort(EpubError::PathUnreadable)));
}

#[test]
fn reading_and_packing_again_preserves_every_file() {
    let files: Vec<(&str, &[u8])> = vec![
        ("mimetype", b"application/epub+zip"),
        ("a/b/c.bin", &[0, 1, 2, 255, 254]),
        ("empty", b""),
    ];
    let plan = gen_epub("out.epub", unzip(stored_zip(&files)).unwrap());
    let members: Vec<(&str, &[u8])> =
        plan.members.iter().map(|e| (e.path.as_str(), e.content.as_slice())).collect();
    assert_eq!(members, files);
    let again = unzip(pack(&plan)).unwrap();
    assert_eq!(again.len(), 3);
    for (i, (path, content)) in files.iter().enumerate() {
        assert_eq!(again.path_at(i).as_str(), *path);
        assert_eq!(again.content_at(i).as_slice(), *content);
    }
}

#[test]
fn a_book_with_a_large_cover_and_chapter_gets_smaller() {
    let png = vec![0x89u8; 50_000];
    let html = vec![b' '; 10_000];
    let base: Vec<(&str, &[u8])> = vec![
        ("mimetype", b"application/epub+zip"),
        ("META-INF/container.xml", CONTAINER.as_bytes()),
        ("content.opf", PACKAGE.as_bytes()),
        ("cover.png", &png),
        ("ch1.html", &html),
        ("filler.bin", b""),
    ];
    let padding = vec![0u8; 100_000 - stored_zip(&base).len()];
    let mut files = base.clone();
    files[5] = ("filler.bin", &padding);
    let bytes = stored_zip(&files);
    assert_eq!(bytes.len(), 100_000);

    let (state, _) = process(Pipeline::Fresh, opened(bytes));
    let (mut state, mut action) = process(state, Event::Answered(no_answers()));
    let plan = loop {
        let outcome = match action {
            Action::Run(ref job) if job.path == "cover.png" => {
                ToolEvent::Finished(vec![0x89u8; 30_000])
            },
            Action::Run(ref job) if job.path == "ch1.html" => {
                ToolEvent::Finished(vec![b' '; 6_000])
            },
            Action::Run(_) => ToolEvent::Failed,
            Action::Pack(plan) => break plan,
            _ => panic!("unexpected action"),
        };
        (state, action) = process(state, Event::Tool(outcome));
    };
    let packed = pack(&plan);
    let (_, action) = process(state, Event::Packed { length: packed.len() as u64 });
    let report = match action {
        Action::Finish(report) => report,
        _ => panic!("the book should be done"),
    };
    assert_eq!(report.original_len, 100_000);
    assert_eq!(report.tool_savings, 24_000);
    assert!(report.final_len < 100_000);
    assert!(report.bytes_saved() > 20_000);
    let total = add_report(0, &report).unwrap();
    assert!(kib_of(total) > 0);
}
