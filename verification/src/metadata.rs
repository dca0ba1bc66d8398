//! The metadata rewriter: it finds the package document through the
//! container file, reads the recognized Dublin-Core fields and the cover
//! reference from its metadata block, and replaces the block by a canonical,
//! minimal list of elements.

use vstd::prelude::*;
use vstd::slice::slice_subrange;
use crate::archive::{has_path, index_of, well_formed, Archive, EntryView};
use crate::error::EpubError;
use crate::text::{same_text, text_view, texts_view, trim, trimmed};
use crate::xml::{
    attribute, attributes_view, child_named, children_of, elements_view, nodes_view, parse_xml,
    parsed_xml, with_children, write_xml, written_xml, xml_attribute, xml_child, xml_children,
    xml_with_children, FlatElement, FlatElementView, XmlElement,
};

verus! {

/// What is known of a book: the cover reference and the recognized fields.
/// `subjects` keeps every subject in document order; the first is the
/// primary one. `date` holds a four-character year, or nothing.
pub struct PackageMetadata {
    pub cover_id: String,
    pub language: String,
    pub title: String,
    pub creator: String,
    pub subjects: Vec<String>,
    pub date: String,
    pub description: String,
}

/// A [`PackageMetadata`] as mathematical values.
pub struct MetadataView {
    pub cover_id: Seq<char>,
    pub language: Seq<char>,
    pub title: Seq<char>,
    pub creator: Seq<char>,
    pub subjects: Seq<Seq<char>>,
    pub date: Seq<char>,
    pub description: Seq<char>,
}

impl View for PackageMetadata {
    type V = MetadataView;

    open spec fn view(&self) -> MetadataView {
        MetadataView {
            cover_id: self.cover_id@,
            language: self.language@,
            title: self.title@,
            creator: self.creator@,
            subjects: texts_view(self.subjects@),
            date: self.date@,
            description: self.description@,
        }
    }
}

impl PackageMetadata {
    /// The primary subject: the first one, or the empty text.
    pub fn primary(&self) -> (r: String)
        ensures
            r@ == primary_subject(self@),
    {
        if self.subjects.len() == 0 {
            String::new()
        } else {
            self.subjects[0].clone()
        }
    }
}

/// What the operator typed for each recognized field. An answer that is
/// empty once trimmed accepts the value that was found.
pub struct MetadataAnswers {
    pub language: String,
    pub title: String,
    pub creator: String,
    pub subject: String,
    pub date: String,
    pub description: String,
}

/// A [`MetadataAnswers`] as mathematical values.
pub struct AnswersView {
    pub language: Seq<char>,
    pub title: Seq<char>,
    pub creator: Seq<char>,
    pub subject: Seq<char>,
    pub date: Seq<char>,
    pub description: Seq<char>,
}

impl View for MetadataAnswers {
    type V = AnswersView;

    open spec fn view(&self) -> AnswersView {
        AnswersView {
            language: self.language@,
            title: self.title@,
            creator: self.creator@,
            subject: self.subject@,
            date: self.date@,
            description: self.description@,
        }
    }
}

/// The metadata of a block without children.
pub open spec fn no_metadata() -> MetadataView {
    MetadataView {
        cover_id: Seq::empty(),
        language: Seq::empty(),
        title: Seq::empty(),
        creator: Seq::empty(),
        subjects: Seq::empty(),
        date: Seq::empty(),
        description: Seq::empty(),
    }
}

/// The value of the first attribute named `key`.
pub open spec fn lookup(attrs: Seq<(Seq<char>, Seq<char>)>, key: Seq<char>) -> Option<Seq<char>>
    decreases attrs.len(),
{
    if attrs.len() == 0 {
        None
    } else if attrs[0].0 == key {
        Some(attrs[0].1)
    } else {
        lookup(attrs.drop_first(), key)
    }
}

/// A missing text counts as the empty text.
pub open spec fn or_empty(t: Option<Seq<char>>) -> Seq<char> {
    match t {
        Some(s) => s,
        None => Seq::empty(),
    }
}

/// The year token of a date: its first four characters, or nothing where
/// the date is shorter than that.
pub open spec fn year_of(date: Seq<char>) -> Seq<char> {
    if date.len() >= 4 {
        date.subrange(0, 4)
    } else {
        Seq::empty()
    }
}

/// The metadata `m` after one more child of the block was read. A `meta`
/// child named `cover` sets the cover reference; a scalar field overwrites
/// what was there; a subject is appended; anything else leaves no trace.
pub open spec fn absorb(m: MetadataView, c: FlatElementView) -> MetadataView {
    let text = or_empty(c.text);
    if c.name == "meta"@ {
        if or_empty(lookup(c.attributes, "name"@)) == "cover"@ {
            MetadataView { cover_id: or_empty(lookup(c.attributes, "content"@)), ..m }
        } else {
            m
        }
    } else if c.name == "language"@ {
        MetadataView { language: text, ..m }
    } else if c.name == "title"@ {
        MetadataView { title: text, ..m }
    } else if c.name == "creator"@ {
        MetadataView { creator: text, ..m }
    } else if c.name == "subject"@ {
        MetadataView { subjects: m.subjects.push(text), ..m }
    } else if c.name == "date"@ {
        MetadataView { date: year_of(text), ..m }
    } else if c.name == "description"@ {
        MetadataView { description: text, ..m }
    } else {
        m
    }
}

/// The metadata read from the child nodes of a metadata block, taken in
/// document order. Nodes that are no elements are passed over.
pub open spec fn scan(children: Seq<Option<FlatElementView>>) -> MetadataView
    decreases children.len(),
{
    if children.len() == 0 {
        no_metadata()
    } else {
        let m = scan(children.drop_last());
        match children.last() {
            Some(c) => absorb(m, c),
            None => m,
        }
    }
}

/// Whether a child of this name is read at all.
pub open spec fn recognized(name: Seq<char>) -> bool {
    name == "meta"@ || name == "language"@ || name == "title"@ || name == "creator"@ || name
        == "subject"@ || name == "date"@ || name == "description"@
}

/// Pruning: a child that is not recognized leaves no trace in the metadata,
/// nor does a node that is no element, wherever in the block it stands
/// last.
pub proof fn lemma_unrecognized_is_dropped(
    children: Seq<Option<FlatElementView>>,
    child: Option<FlatElementView>,
)
    requires
        child matches Some(c) ==> !recognized(c.name),
    ensures
        scan(children.push(child)) == scan(children),
{
    assert(children.push(child).drop_last() =~= children);
}

/// The final value of a field: the operator's answer, trimmed, or the
/// current value where that answer is empty.
pub open spec fn resolved(current: Seq<char>, answer: Seq<char>) -> Seq<char> {
    if trimmed(answer).len() == 0 {
        current
    } else {
        trimmed(answer)
    }
}

/// The element that points at the cover image.
pub open spec fn cover_element(id: Seq<char>) -> FlatElementView {
    FlatElementView {
        prefix: None,
        name: "meta"@,
        attributes: seq![("name"@, "cover"@), ("content"@, id)],
        text: None,
    }
}

/// A Dublin-Core element carrying one value.
pub open spec fn field_element(name: Seq<char>, value: Seq<char>) -> FlatElementView {
    FlatElementView { prefix: Some("dc"@), name, attributes: Seq::empty(), text: Some(value) }
}

/// The primary subject: the first one, or the empty text.
pub open spec fn primary_subject(m: MetadataView) -> Seq<char> {
    if m.subjects.len() == 0 {
        Seq::empty()
    } else {
        m.subjects[0]
    }
}

/// One element for each recognized field, in the canonical order.
pub open spec fn field_elements(m: MetadataView, a: AnswersView) -> Seq<FlatElementView> {
    seq![
        field_element("language"@, resolved(m.language, a.language)),
        field_element("title"@, resolved(m.title, a.title)),
        field_element("creator"@, resolved(m.creator, a.creator)),
        field_element("subject"@, resolved(primary_subject(m), a.subject)),
        field_element("date"@, resolved(m.date, a.date)),
        field_element("description"@, resolved(m.description, a.description)),
    ]
}

/// The children of the rewritten metadata block: the cover pointer where a
/// cover was found, then the recognized fields.
pub open spec fn canonical(m: MetadataView, a: AnswersView) -> Seq<FlatElementView> {
    if m.cover_id.len() == 0 {
        field_elements(m, a)
    } else {
        seq![cover_element(m.cover_id)] + field_elements(m, a)
    }
}

/// Reads one attribute from a flat element.
pub fn find_attribute(attrs: &Vec<(String, String)>, key: &str) -> (r: Option<String>)
    ensures
        text_view(r) == lookup(attributes_view(attrs@), key@),
{
    let ghost all = attributes_view(attrs@);
    assert(all.skip(0) =~= all);
    let mut i: usize = 0;
    while i < attrs.len()
        invariant
            i <= attrs.len(),
            all == attributes_view(attrs@),
            lookup(all, key@) == lookup(all.skip(i as int), key@),
        decreases attrs.len() - i,
    {
        proof {
            assert(all.skip(i as int).drop_first() =~= all.skip(i + 1));
        }
        if same_text(attrs[i].0.as_str(), key) {
            return Some(attrs[i].1.clone());
        }
        i += 1;
    }
    None
}

/// The text of an optional string, empty where there is none.
fn text_or_empty(t: &Option<String>) -> (r: String)
    ensures
        r@ == or_empty(text_view(*t)),
{
    match t {
        Some(s) => s.clone(),
        None => String::new(),
    }
}

/// The year token of a date.
pub fn year(date: &str) -> (r: String)
    ensures
        r@ == year_of(date@),
{
    if date.unicode_len() >= 4 {
        date.substring_char(0, 4).to_owned()
    } else {
        String::new()
    }
}

/// Reads the metadata from the child nodes of a metadata block.
pub fn read_metadata(children: &Vec<Option<FlatElement>>) -> (m: PackageMetadata)
    ensures
        m@ == scan(nodes_view(children@)),
{
    let mut m = PackageMetadata {
        cover_id: String::new(),
        language: String::new(),
        title: String::new(),
        creator: String::new(),
        subjects: Vec::new(),
        date: String::new(),
        description: String::new(),
    };
    let ghost all = nodes_view(children@);
    assert(m@.subjects =~= Seq::empty());
    assert(all.take(0) =~= Seq::empty());
    let mut i: usize = 0;
    while i < children.len()
        invariant
            i <= children.len(),
            all == nodes_view(children@),
            m@ == scan(all.take(i as int)),
        decreases children.len() - i,
    {
        proof {
            assert(all.take(i + 1).drop_last() =~= all.take(i as int));
        }
        let ghost before = m@;
        match &children[i] {
            None => {},
            Some(c) => {
                let name = c.name.as_str();
                let text = text_or_empty(&c.text);
                if same_text(name, "meta") {
                    let key = text_or_empty(&find_attribute(&c.attributes, "name"));
                    if same_text(key.as_str(), "cover") {
                        m.cover_id = text_or_empty(&find_attribute(&c.attributes, "content"));
                    }
                } else if same_text(name, "language") {
                    m.language = text;
                } else if same_text(name, "title") {
                    m.title = text;
                } else if same_text(name, "creator") {
                    m.creator = text;
                } else if same_text(name, "subject") {
                    m.subjects.push(text);
                    assert(m@.subjects =~= before.subjects.push(text@));
                } else if same_text(name, "date") {
                    m.date = year(text.as_str());
                } else if same_text(name, "description") {
                    m.description = text;
                }
                assert(m@.subjects =~= absorb(before, c@).subjects);
                assert(m@ == absorb(before, c@));
            },
        }
        i += 1;
    }
    proof {
        assert(all.take(i as int) =~= all);
    }
    m
}

/// The final value of one field.
pub fn resolve(current: &str, answer: &str) -> (r: String)
    ensures
        r@ == resolved(current@, answer@),
{
    let t = trim(answer);
    if t.as_str().unicode_len() == 0 {
        current.to_owned()
    } else {
        t
    }
}

/// A Dublin-Core element carrying one value.
fn make_field(name: &str, value: String) -> (e: FlatElement)
    ensures
        e@ == field_element(name@, value@),
{
    let e = FlatElement {
        prefix: Some("dc".to_owned()),
        name: name.to_owned(),
        attributes: Vec::new(),
        text: Some(value),
    };
    assert(e@.attributes =~= Seq::empty());
    e
}

/// The element that points at the cover image.
fn make_cover(id: String) -> (e: FlatElement)
    ensures
        e@ == cover_element(id@),
{
    let mut attributes: Vec<(String, String)> = Vec::new();
    attributes.push(("name".to_owned(), "cover".to_owned()));
    attributes.push(("content".to_owned(), id));
    let e = FlatElement { prefix: None, name: "meta".to_owned(), attributes, text: None };
    assert(e@.attributes =~= seq![("name"@, "cover"@), ("content"@, id@)]);
    e
}

/// Builds the children of the rewritten metadata block from what was found
/// and what the operator answered. However many subjects or unrecognized
/// children the block had, the result holds each recognized field once, and
/// nothing else but the cover pointer.
pub fn canonical_children(m: &PackageMetadata, a: &MetadataAnswers) -> (r: Vec<FlatElement>)
    ensures
        elements_view(r@) == canonical(m@, a@),
{
    let mut r: Vec<FlatElement> = Vec::new();
    if m.cover_id.as_str().unicode_len() != 0 {
        r.push(make_cover(m.cover_id.clone()));
    }
    let ghost head = elements_view(r@);
    let subject = m.primary();
    r.push(make_field("language", resolve(m.language.as_str(), a.language.as_str())));
    r.push(make_field("title", resolve(m.title.as_str(), a.title.as_str())));
    r.push(make_field("creator", resolve(m.creator.as_str(), a.creator.as_str())));
    r.push(make_field("subject", resolve(subject.as_str(), a.subject.as_str())));
    r.push(make_field("date", resolve(m.date.as_str(), a.date.as_str())));
    r.push(make_field("description", resolve(m.description.as_str(), a.description.as_str())));
    assert(elements_view(r@) =~= head + field_elements(m@, a@));
    assert(elements_view(r@) =~= canonical(m@, a@));
    r
}

/// In the rewritten block every recognized field stands exactly once, in the
/// canonical order, after at most one cover pointer; no other element is in
/// it. This holds of whatever the block held before.
pub proof fn lemma_canonical_is_minimal(m: MetadataView, a: AnswersView)
    ensures
        canonical(m, a).len() == if m.cover_id.len() == 0 { 6nat } else { 7nat },
        m.cover_id.len() != 0 ==> canonical(m, a)[0] == cover_element(m.cover_id),
        ({
            let fields = field_elements(m, a);
            &&& canonical(m, a).subrange(canonical(m, a).len() - 6, canonical(m, a).len() as int)
                == fields
            &&& fields[0].name == "language"@
            &&& fields[1].name == "title"@
            &&& fields[2].name == "creator"@
            &&& fields[3].name == "subject"@
            &&& fields[4].name == "date"@
            &&& fields[5].name == "description"@
        }),
{
    let fields = field_elements(m, a);
    assert(canonical(m, a).subrange(canonical(m, a).len() - 6, canonical(m, a).len() as int)
        =~= fields);
}

/// The path at which the container file lies.
pub open spec fn container_path() -> Seq<char> {
    "META-INF/container.xml"@
}

/// The bytes without a leading UTF-8 byte-order mark.
pub open spec fn without_bom(bytes: Seq<u8>) -> Seq<u8> {
    if bytes.len() >= 3 && bytes[0] == 0xEF && bytes[1] == 0xBB && bytes[2] == 0xBF {
        bytes.subrange(3, bytes.len() as int)
    } else {
        bytes
    }
}

/// The path of the package document that a container file declares: the
/// attribute `full-path` of the element `rootfile` inside `rootfiles`.
pub open spec fn root_file_path(container: Seq<u8>) -> Option<Seq<char>> {
    match parsed_xml(container) {
        None => None,
        Some(doc) => match xml_child(doc, "rootfiles"@) {
            None => None,
            Some(list) => match xml_child(list, "rootfile"@) {
                None => None,
                Some(pointer) => xml_attribute(pointer, "full-path"@),
            },
        },
    }
}

/// The position of the package document in an archive; `None` where the
/// container file, its pointer or the document it points to is absent.
pub open spec fn package_position(a: Seq<EntryView>) -> Option<int> {
    if !has_path(a, container_path()) {
        None
    } else {
        match root_file_path(a[index_of(a, container_path())].1) {
            None => None,
            Some(path) => if has_path(a, path) {
                Some(index_of(a, path))
            } else {
                None
            },
        }
    }
}

/// The root element of a package document; `None` where the bytes, taken
/// without a byte-order mark, do not parse or hold no metadata block.
pub open spec fn package_root(bytes: Seq<u8>) -> Option<XmlElement> {
    match parsed_xml(without_bom(bytes)) {
        None => None,
        Some(doc) => if xml_child(doc, "metadata"@) is Some {
            Some(doc)
        } else {
            None
        },
    }
}

/// The metadata that a package document holds.
pub open spec fn package_metadata(bytes: Seq<u8>) -> Option<MetadataView> {
    match package_root(bytes) {
        None => None,
        Some(doc) => Some(scan(xml_children(xml_child(doc, "metadata"@)->0))),
    }
}

/// The package document written back with a canonical metadata block.
pub open spec fn rewritten_document(bytes: Seq<u8>, a: AnswersView) -> Option<Seq<u8>> {
    match package_root(bytes) {
        None => None,
        Some(doc) => written_xml(
            xml_with_children(doc, "metadata"@, canonical(package_metadata(bytes)->0, a)),
        ),
    }
}

/// What the metadata of an archive is found to be.
pub open spec fn inspect_spec(a: Seq<EntryView>) -> Result<MetadataView, EpubError> {
    match package_position(a) {
        None => Err(EpubError::MissingRootFile),
        Some(i) => match package_metadata(a[i].1) {
            None => Err(EpubError::MalformedPackageDocument),
            Some(m) => Ok(m),
        },
    }
}

/// The archive after its metadata was rewritten: the package document has
/// new bytes, every other file and every path is as before.
pub open spec fn rewrite_spec(a: Seq<EntryView>, answers: AnswersView) -> Result<
    Seq<EntryView>,
    EpubError,
> {
    match package_position(a) {
        None => Err(EpubError::MissingRootFile),
        Some(i) => match rewritten_document(a[i].1, answers) {
            None => Err(EpubError::MalformedPackageDocument),
            Some(bytes) => Ok(a.update(i, (a[i].0, bytes))),
        },
    }
}

/// Drops a leading UTF-8 byte-order mark.
pub fn strip_bom(bytes: &[u8]) -> (r: &[u8])
    ensures
        r@ == without_bom(bytes@),
{
    if bytes.len() >= 3 && bytes[0] == 0xEF && bytes[1] == 0xBB && bytes[2] == 0xBF {
        slice_subrange(bytes, 3, bytes.len())
    } else {
        bytes
    }
}

/// Finds the package document of an archive through its container file.
pub fn locate_package(archive: &Archive) -> (r: Result<usize, EpubError>)
    ensures
        match package_position(archive@) {
            Some(i) => r matches Ok(k) && k == i && 0 <= i < archive@.len(),
            None => r matches Err(e) && e == EpubError::MissingRootFile,
        },
{
    let at = match archive.position("META-INF/container.xml") {
        Some(at) => at,
        None => {
            return Err(EpubError::MissingRootFile);
        },
    };
    let doc = match parse_xml(archive.content_at(at).as_slice()) {
        Ok(doc) => doc,
        Err(_) => {
            return Err(EpubError::MissingRootFile);
        },
    };
    let list = match child_named(&doc, "rootfiles") {
        Some(list) => list,
        None => {
            return Err(EpubError::MissingRootFile);
        },
    };
    let pointer = match child_named(&list, "rootfile") {
        Some(pointer) => pointer,
        None => {
            return Err(EpubError::MissingRootFile);
        },
    };
    let path = match attribute(&pointer, "full-path") {
        Some(path) => path,
        None => {
            return Err(EpubError::MissingRootFile);
        },
    };
    match archive.position(path.as_str()) {
        Some(i) => Ok(i),
        None => Err(EpubError::MissingRootFile),
    }
}

/// Parses a package document and reads its metadata block.
fn load_package(bytes: &[u8]) -> (r: Option<(XmlElement, PackageMetadata)>)
    ensures
        r is Some == package_root(bytes@) is Some,
        r matches Some(p) ==> Some(p.0) == package_root(bytes@) && Some(p.1@) == package_metadata(
            bytes@,
        ),
{
    let doc = match parse_xml(strip_bom(bytes)) {
        Ok(doc) => doc,
        Err(_) => {
            return None;
        },
    };
    let block = match child_named(&doc, "metadata") {
        Some(block) => block,
        None => {
            return None;
        },
    };
    let children = children_of(&block);
    let m = read_metadata(&children);
    Some((doc, m))
}

/// Reads the metadata of a book, as the operator is to see it before
/// answering.
pub fn inspect_metadata(archive: &Archive) -> (r: Result<PackageMetadata, EpubError>)
    ensures
        match inspect_spec(archive@) {
            Ok(m) => r matches Ok(found) && found@ == m,
            Err(e) => r matches Err(x) && x == e,
        },
{
    let i = match locate_package(archive) {
        Ok(i) => i,
        Err(e) => {
            return Err(e);
        },
    };
    match load_package(archive.content_at(i).as_slice()) {
        Some(p) => Ok(p.1),
        None => Err(EpubError::MalformedPackageDocument),
    }
}

/// Rewrites the metadata block of the package document: every child of the
/// block is replaced by the canonical list built from what the block held
/// and from the operator's answers, and the document is written back over
/// its old bytes. No other file changes.
pub fn mod_metadata(archive: Archive, answers: &MetadataAnswers) -> (r: Result<Archive, EpubError>)
    ensures
        match rewrite_spec(archive@, answers@) {
            Ok(a) => r matches Ok(b) && b@ == a && well_formed(b@),
            Err(e) => r matches Err(x) && x == e,
        },
{
    let i = match locate_package(&archive) {
        Ok(i) => i,
        Err(e) => {
            return Err(e);
        },
    };
    let (doc, m) = match load_package(archive.content_at(i).as_slice()) {
        Some(p) => p,
        None => {
            return Err(EpubError::MalformedPackageDocument);
        },
    };
    let doc = with_children(doc, "metadata", canonical_children(&m, answers));
    match write_xml(&doc) {
        Ok(bytes) => Ok(archive.replace_content(i, bytes)),
        Err(_) => Err(EpubError::MalformedPackageDocument),
    }
}

} // verus!
