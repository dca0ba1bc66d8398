use epub_optimizer::archive::Archive;
use epub_optimizer::error::EpubError;
use epub_optimizer::metadata::{
    canonical_children, find_attribute, inspect_metadata, locate_package, mod_metadata,
    read_metadata, resolve, strip_bom, year, MetadataAnswers, PackageMetadata,
};
use epub_optimizer::xml::FlatElement;

const CONTAINER: &str = r#"<?xml version="1.0"?>
<container version="1.0" xmlns="urn:oasis:names:tc:opendocument:xmlns:container">
  <rootfiles>
    <rootfile full-path="OEBPS/content.opf" media-type="application/oebps-package+xml"/>
  </rootfiles>
</container>"#;

const PACKAGE: &str = r#"<?xml version="1.0" encoding="UTF-8"?>
<package xmlns="http://www.idpf.org/2007/opf" version="2.0" unique-identifier="bookid">
  <metadata xmlns:dc="http://purl.org/dc/elements/1.1/" xmlns:opf="http://www.idpf.org/2007/opf">
    <dc:title>Moby Dick</dc:title>
    <dc:language>en</dc:language>
    <dc:creator opf:role="aut">Herman Melville</dc:creator>
    <dc:subject>Whaling</dc:subject>
    <dc:subject>Sea stories</dc:subject>
    <dc:subject>Adventure</dc:subject>
    <dc:date>1851-10-18</dc:date>
    <dc:description>A whale of a tale.</dc:description>
    <dc:identifier id="bookid">urn:uuid:1234</dc:identifier>
    <meta name="cover" content="cover-image"/>
    <meta name="calibre:series" content="Classics"/>
    <meta name="calibre:series_index" content="1"/>
    <meta name="calibre:timestamp" content="2015-01-01"/>
    <meta name="generator" content="something"/>
    <meta name="custom" content="value"/>
  </metadata>
  <manifest>
    <item id="cover-image" href="cover.png" media-type="image/png"/>
    <item id="ch1" href="ch1.html" media-type="application/xhtml+xml"/>
  </manifest>
  <spine toc="ncx"><itemref idref="ch1"/></spine>
</package>"#;

fn archive_of(files: &[(&str, &[u8])]) -> Archive {
    let mut a = Archive::new();
    for (path, content) in files {
        let (next, stored) = a.put(path.to_string(), content.to_vec());
        assert!(stored);
        a = next;
    }
    a
}

fn book(package: &[u8]) -> Archive {
    archive_of(&[
        ("mimetype", b"application/epub+zip"),
        ("META-INF/container.xml", CONTAINER.as_bytes()),
        ("OEBPS/content.opf", package),
        ("OEBPS/ch1.html", b"<html/>"),
    ])
}

fn no_answers() -> MetadataAnswers {
    MetadataAnswers {
        language: String::new(),
        title: String::new(),
        creator: String::new(),
        subject: String::new(),
        date: String::new(),
        description: String::new(),
    }
}

fn element(name: &str, text: Option<&str>, attributes: &[(&str, &str)]) -> Option<FlatElement> {
    Some(FlatElement {
        prefix: None,
        name: name.to_string(),
        attributes: attributes.iter().map(|(k, v)| (k.to_string(), v.to_string())).collect(),
        text: text.map(|t| t.to_string()),
    })
}

fn metadata_block(document: &[u8]) -> xmltree::Element {
    let root = xmltree::Element::parse(document).unwrap();
    root.get_child("metadata").unwrap().clone()
}

fn child_names(block: &xmltree::Element) -> Vec<String> {
    block.children.iter().filter_map(|n| n.as_element()).map(|e| e.name.clone()).collect()
}

fn child_text(block: &xmltree::Element, name: &str) -> String {
    block.get_child(name).unwrap().get_text().map(|t| t.into_owned()).unwrap_or_default()
}

#[test]
fn year_is_the_first_four_characters() {
    assert_eq!(year("1851-10-18"), "1851");
    assert_eq!(year("2015"), "2015");
    assert_eq!(year("２０１５年"), "２０１５");
}

#[test]
fn year_of_a_short_date_is_empty() {
    assert_eq!(year("185"), "");
    assert_eq!(year(""), "");
}

#[test]
fn resolve_takes_the_answer_unless_it_is_blank() {
    assert_eq!(resolve("en", "de"), "de");
    assert_eq!(resolve("en", ""), "en");
    assert_eq!(resolve("en", "  \t\n"), "en");
    assert_eq!(resolve("en", "  fr \n"), "fr");
    assert_eq!(resolve("", ""), "");
}

#[test]
fn find_attribute_reads_by_key() {
    let attrs = vec![
        ("name".to_string(), "cover".to_string()),
        ("content".to_string(), "img1".to_string()),
    ];
    assert_eq!(find_attribute(&attrs, "content"), Some("img1".to_string()));
    assert_eq!(find_attribute(&attrs, "name"), Some("cover".to_string()));
    assert_eq!(find_attribute(&attrs, "id"), None);
    assert_eq!(find_attribute(&Vec::new(), "name"), None);
}

#[test]
fn strip_bom_drops_only_a_leading_mark() {
    assert_eq!(strip_bom(b"\xEF\xBB\xBF<a/>"), b"<a/>");
    assert_eq!(strip_bom(b"<a/>"), b"<a/>");
    assert_eq!(strip_bom(b"<a>\xEF\xBB\xBF</a>"), b"<a>\xEF\xBB\xBF</a>");
    assert_eq!(strip_bom(b"\xEF\xBB"), b"\xEF\xBB");
    assert_eq!(strip_bom(b""), b"");
}

#[test]
fn read_metadata_of_an_empty_block_is_empty() {
    let m = read_metadata(&Vec::new());
    assert_eq!(m.cover_id, "");
    assert_eq!(m.language, "");
    assert_eq!(m.title, "");
    assert_eq!(m.creator, "");
    assert!(m.subjects.is_empty());
    assert_eq!(m.date, "");
    assert_eq!(m.description, "");
}

#[test]
fn read_metadata_captures_recognized_fields() {
    let children = vec![
        element("title", Some("T1"), &[]),
        None,
        element("title", Some("T2"), &[]),
        element("language", Some("en"), &[]),
        element("creator", Some("C"), &[]),
        element("subject", Some("S1"), &[]),
        element("subject", None, &[]),
        element("subject", Some("S3"), &[]),
        element("date", Some("1999-12-31"), &[]),
        element("description", Some("D"), &[]),
        element("identifier", Some("urn:x"), &[]),
        element("meta", None, &[("name", "cover"), ("content", "img")]),
        element("meta", None, &[("name", "other"), ("content", "zzz")]),
        element("meta", None, &[("property", "dcterms:modified")]),
    ];
    let m = read_metadata(&children);
    assert_eq!(m.title, "T2");
    assert_eq!(m.language, "en");
    assert_eq!(m.creator, "C");
    assert_eq!(m.subjects, vec!["S1".to_string(), String::new(), "S3".to_string()]);
    assert_eq!(m.date, "1999");
    assert_eq!(m.description, "D");
    assert_eq!(m.cover_id, "img");
}

#[test]
fn read_metadata_takes_a_cover_without_content_as_no_cover() {
    let children = vec![
        element("meta", None, &[("name", "cover"), ("content", "img")]),
        element("meta", None, &[("name", "cover")]),
    ];
    assert_eq!(read_metadata(&children).cover_id, "");
}

#[test]
fn read_metadata_empties_a_short_date() {
    let children = vec![element("date", Some("1999"), &[]), element("date", Some("99"), &[])];
    assert_eq!(read_metadata(&children).date, "");
}

fn sample_metadata() -> PackageMetadata {
    PackageMetadata {
        cover_id: "img".to_string(),
        language: "en".to_string(),
        title: "T".to_string(),
        creator: "C".to_string(),
        subjects: vec!["S1".to_string(), "S2".to_string()],
        date: "1999".to_string(),
        description: "D".to_string(),
    }
}

#[test]
fn canonical_children_are_cover_then_fields_in_order() {
    let list = canonical_children(&sample_metadata(), &no_answers());
    let names: Vec<&str> = list.iter().map(|e| e.name.as_str()).collect();
    assert_eq!(
        names,
        vec!["meta", "language", "title", "creator", "subject", "date", "description"]
    );
    assert_eq!(list[0].prefix, None);
    assert_eq!(list[0].text, None);
    assert_eq!(
        list[0].attributes,
        vec![
            ("name".to_string(), "cover".to_string()),
            ("content".to_string(), "img".to_string())
        ]
    );
    let texts: Vec<&str> = list[1..].iter().map(|e| e.text.as_deref().unwrap()).collect();
    assert_eq!(texts, vec!["en", "T", "C", "S1", "1999", "D"]);
    for e in &list[1..] {
        assert_eq!(e.prefix.as_deref(), Some("dc"));
        assert!(e.attributes.is_empty());
    }
}

#[test]
fn canonical_children_without_cover_have_no_meta() {
    let mut m = sample_metadata();
    m.cover_id = String::new();
    m.subjects = Vec::new();
    let list = canonical_children(&m, &no_answers());
    assert_eq!(list.len(), 6);
    assert_eq!(list[0].name, "language");
    assert_eq!(list[3].name, "subject");
    assert_eq!(list[3].text.as_deref(), Some(""));
}

#[test]
fn canonical_children_prefer_the_answers() {
    let answers = MetadataAnswers {
        language: "de".to_string(),
        title: " Neu ".to_string(),
        creator: String::new(),
        subject: "Other".to_string(),
        date: "2020-01-01".to_string(),
        description: "   ".to_string(),
    };
    let list = canonical_children(&sample_metadata(), &answers);
    let texts: Vec<&str> = list[1..].iter().map(|e| e.text.as_deref().unwrap()).collect();
    assert_eq!(texts, vec!["de", "Neu", "C", "Other", "2020-01-01", "D"]);
}

#[test]
fn locate_package_follows_the_container() {
    assert_eq!(locate_package(&book(PACKAGE.as_bytes())), Ok(2));
}

#[test]
fn locate_package_fails_without_container() {
    let a = archive_of(&[("OEBPS/content.opf", PACKAGE.as_bytes())]);
    assert_eq!(locate_package(&a), Err(EpubError::MissingRootFile));
}

#[test]
fn locate_package_fails_without_pointer() {
    for container in [
        "<container/>",
        "<container><rootfiles/></container>",
        "<container><rootfiles><rootfile/></rootfiles></container>",
        "<container><rootfiles>",
        "",
    ] {
        let a = archive_of(&[
            ("META-INF/container.xml", container.as_bytes()),
            ("OEBPS/content.opf", PACKAGE.as_bytes()),
        ]);
        assert_eq!(locate_package(&a), Err(EpubError::MissingRootFile));
    }
}

#[test]
fn locate_package_fails_where_the_document_is_absent() {
    let a = archive_of(&[("META-INF/container.xml", CONTAINER.as_bytes())]);
    assert_eq!(locate_package(&a), Err(EpubError::MissingRootFile));
}

#[test]
fn inspect_metadata_reads_the_package_document() {
    let m = inspect_metadata(&book(PACKAGE.as_bytes())).unwrap();
    assert_eq!(m.title, "Moby Dick");
    assert_eq!(m.language, "en");
    assert_eq!(m.creator, "Herman Melville");
    assert_eq!(
        m.subjects,
        vec!["Whaling".to_string(), "Sea stories".to_string(), "Adventure".to_string()]
    );
    assert_eq!(m.date, "1851");
    assert_eq!(m.description, "A whale of a tale.");
    assert_eq!(m.cover_id, "cover-image");
}

#[test]
fn inspect_metadata_tolerates_a_byte_order_mark() {
    let mut bytes = b"\xEF\xBB\xBF".to_vec();
    bytes.extend_from_slice(PACKAGE.as_bytes());
    assert_eq!(inspect_metadata(&book(&bytes)).unwrap().title, "Moby Dick");
}

#[test]
fn inspect_metadata_fails_on_a_malformed_document() {
    for package in ["<package><metadata>", "<package><manifest/></package>", "", "plain text"] {
        let r = inspect_metadata(&book(package.as_bytes()));
        assert!(matches!(r, Err(EpubError::MalformedPackageDocument)));
    }
}

#[test]
fn mod_metadata_prunes_unrecognized_entries() {
    let a = mod_metadata(book(PACKAGE.as_bytes()), &no_answers()).unwrap();
    let block = metadata_block(a.content_at(2));
    assert_eq!(
        child_names(&block),
        vec!["meta", "language", "title", "creator", "subject", "date", "description"]
    );
    let cover = block.get_child("meta").unwrap();
    assert_eq!(cover.attributes.get("name").map(|s| s.as_str()), Some("cover"));
    assert_eq!(cover.attributes.get("content").map(|s| s.as_str()), Some("cover-image"));
    assert_eq!(child_text(&block, "language"), "en");
    assert_eq!(child_text(&block, "title"), "Moby Dick");
    assert_eq!(child_text(&block, "creator"), "Herman Melville");
    assert_eq!(child_text(&block, "subject"), "Whaling");
    assert_eq!(child_text(&block, "date"), "1851");
    assert_eq!(child_text(&block, "description"), "A whale of a tale.");
    for e in block.children.iter().filter_map(|n| n.as_element()).skip(1) {
        assert_eq!(e.prefix.as_deref(), Some("dc"));
        assert_eq!(e.namespace.as_deref(), Some("http://purl.org/dc/elements/1.1/"));
    }
}

#[test]
fn mod_metadata_keeps_the_rest_of_the_document_and_the_archive() {
    let a = mod_metadata(book(PACKAGE.as_bytes()), &no_answers()).unwrap();
    assert_eq!(a.len(), 4);
    assert_eq!(a.path_at(2).as_str(), "OEBPS/content.opf");
    assert_eq!(a.content_at(0).as_slice(), b"application/epub+zip");
    assert_eq!(a.content_at(1).as_slice(), CONTAINER.as_bytes());
    assert_eq!(a.content_at(3).as_slice(), b"<html/>");
    let root = xmltree::Element::parse(a.content_at(2).as_slice()).unwrap();
    let before = xmltree::Element::parse(PACKAGE.as_bytes()).unwrap();
    assert_eq!(root.name, "package");
    assert_eq!(root.attributes, before.attributes);
    assert_eq!(root.get_child("manifest"), before.get_child("manifest"));
    assert_eq!(root.get_child("spine"), before.get_child("spine"));
}

#[test]
fn mod_metadata_applies_the_answers() {
    let answers = MetadataAnswers {
        language: "de".to_string(),
        title: "Der Wal".to_string(),
        creator: String::new(),
        subject: String::new(),
        date: "1852".to_string(),
        description: "<kurz> & gut".to_string(),
    };
    let a = mod_metadata(book(PACKAGE.as_bytes()), &answers).unwrap();
    let block = metadata_block(a.content_at(2));
    assert_eq!(child_text(&block, "language"), "de");
    assert_eq!(child_text(&block, "title"), "Der Wal");
    assert_eq!(child_text(&block, "creator"), "Herman Melville");
    assert_eq!(child_text(&block, "subject"), "Whaling");
    assert_eq!(child_text(&block, "date"), "1852");
    assert_eq!(child_text(&block, "description"), "<kurz> & gut");
}

#[test]
fn mod_metadata_writes_no_cover_where_none_was_found() {
    let package = r#"<package><metadata xmlns:dc="http://purl.org/dc/elements/1.1/">
        <dc:title>T</dc:title><meta name="x" content="y"/></metadata></package>"#;
    let a = mod_metadata(book(package.as_bytes()), &no_answers()).unwrap();
    let block = metadata_block(a.content_at(2));
    assert_eq!(
        child_names(&block),
        vec!["language", "title", "creator", "subject", "date", "description"]
    );
    assert_eq!(child_text(&block, "title"), "T");
    assert_eq!(child_text(&block, "subject"), "");
}

#[test]
fn mod_metadata_is_stable_on_its_own_output() {
    let once = mod_metadata(book(PACKAGE.as_bytes()), &no_answers()).unwrap();
    let first = once.content_at(2).clone();
    let twice = mod_metadata(once, &no_answers()).unwrap();
    assert_eq!(twice.content_at(2), &first);
}

#[test]
fn mod_metadata_reports_what_is_missing() {
    let a = archive_of(&[("mimetype", b"application/epub+zip")]);
    assert!(matches!(mod_metadata(a, &no_answers()), Err(EpubError::MissingRootFile)));
    let r = mod_metadata(book(b"<package/>"), &no_answers());
    assert!(matches!(r, Err(EpubError::MalformedPackageDocument)));
    let r = mod_metadata(book(b"<<<"), &no_answers());
    assert!(matches!(r, Err(EpubError::MalformedPackageDocument)));
}
