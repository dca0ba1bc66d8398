//! A thin, specified boundary around the XML tree library. Documents stay
//! in the library's own representation; what the rules of this crate read
//! or write crosses the boundary as flat, plain values.

use vstd::prelude::*;
use crate::text::text_view;

verus! {

/// `xmltree::Element`, taken as an opaque value.
#[verifier::external_type_specification]
#[verifier::external_body]
pub struct ExElement(xmltree::Element);

/// `xmltree::ParseError`, the parser's error; only its presence is used.
#[verifier::external_type_specification]
#[verifier::external_body]
pub struct ExParseError(xmltree::ParseError);

/// `xmltree::Error`, the writer's error; only its presence is used.
#[verifier::external_type_specification]
#[verifier::external_body]
pub struct ExWriteError(xmltree::Error);

/// An XML element together with everything below it.
pub struct XmlElement {
    node: xmltree::Element,
}

/// One element without its descendants: its prefix, its local name, its
/// attributes in document order and the text directly inside it.
pub struct FlatElement {
    pub prefix: Option<String>,
    pub name: String,
    pub attributes: Vec<(String, String)>,
    pub text: Option<String>,
}

/// A [`FlatElement`] as mathematical values.
pub struct FlatElementView {
    pub prefix: Option<Seq<char>>,
    pub name: Seq<char>,
    pub attributes: Seq<(Seq<char>, Seq<char>)>,
    pub text: Option<Seq<char>>,
}

/// The characters of a list of attribute pairs.
pub open spec fn attributes_view(a: Seq<(String, String)>) -> Seq<(Seq<char>, Seq<char>)> {
    Seq::new(a.len(), |i: int| (a[i].0@, a[i].1@))
}

impl View for FlatElement {
    type V = FlatElementView;

    open spec fn view(&self) -> FlatElementView {
        FlatElementView {
            prefix: text_view(self.prefix),
            name: self.name@,
            attributes: attributes_view(self.attributes@),
            text: text_view(self.text),
        }
    }
}

/// The views of a list of elements.
pub open spec fn elements_view(s: Seq<FlatElement>) -> Seq<FlatElementView> {
    Seq::new(s.len(), |i: int| s[i]@)
}

/// The views of a list of child nodes, where `None` stands for a node that
/// is no element.
pub open spec fn nodes_view(s: Seq<Option<FlatElement>>) -> Seq<Option<FlatElementView>> {
    Seq::new(
        s.len(),
        |i: int|
            match s[i] {
                Some(e) => Some(e@),
                None => None,
            },
    )
}

/// The root element that parsing `bytes` yields; `None` where the bytes are
/// no well-formed document.
pub uninterp spec fn parsed_xml(bytes: Seq<u8>) -> Option<XmlElement>;

/// The first child element of `e` whose local name is `name`.
pub uninterp spec fn xml_child(e: XmlElement, name: Seq<char>) -> Option<XmlElement>;

/// The value of the attribute of `e` whose local name is `key`.
pub uninterp spec fn xml_attribute(e: XmlElement, key: Seq<char>) -> Option<Seq<char>>;

/// The child nodes of `e` in document order, each element flattened and each
/// other node (text, comment, processing instruction) as `None`.
pub uninterp spec fn xml_children(e: XmlElement) -> Seq<Option<FlatElementView>>;

/// `e` with the child nodes of its first child element named `child`
/// replaced by the elements `children`; `e` itself where it has no such child.
pub uninterp spec fn xml_with_children(
    e: XmlElement,
    child: Seq<char>,
    children: Seq<FlatElementView>,
) -> XmlElement;

/// The document that has `e` as its root, serialized; `None` where the
/// writer refuses it.
pub uninterp spec fn written_xml(e: XmlElement) -> Option<Seq<u8>>;

/// Parses a whole document with `xmltree::Element::parse` and hands back its
/// root element. The parser reads nothing but the bytes, so its outcome is a
/// function of them.
#[verifier::external_body]
pub(crate) fn parse_xml(bytes: &[u8]) -> (r: Result<XmlElement, xmltree::ParseError>)
    ensures
        r matches Ok(e) ==> parsed_xml(bytes@) == Some(e),
        r is Err ==> parsed_xml(bytes@) is None,
{
    xmltree::Element::parse(bytes).map(|node| XmlElement { node })
}

/// Looks up a child with `xmltree::Element::get_child`, which returns the
/// first child element with that local name, and copies it.
#[verifier::external_body]
pub(crate) fn child_named(e: &XmlElement, name: &str) -> (r: Option<XmlElement>)
    ensures
        r == xml_child(*e, name@),
{
    e.node.get_child(name).map(|c| XmlElement { node: c.clone() })
}

/// Reads one attribute from the element's attribute map, which is keyed by
/// local name.
#[verifier::external_body]
pub(crate) fn attribute(e: &XmlElement, key: &str) -> (r: Option<String>)
    ensures
        text_view(r) == xml_attribute(*e, key@),
{
    e.node.attributes.get(key).cloned()
}

/// Copies out the child nodes of `e`, one for one. An element (told apart by
/// `xmltree::XMLNode::as_element`) comes with its fields and with what
/// `xmltree::Element::get_text` returns for it: the concatenation of its text
/// and CDATA children, or nothing where it has none.
#[verifier::external_body]
pub(crate) fn children_of(e: &XmlElement) -> (r: Vec<Option<FlatElement>>)
    ensures
        nodes_view(r@) == xml_children(*e),
{
    let flat = |c: &xmltree::Element| FlatElement {
        prefix: c.prefix.clone(),
        name: c.name.clone(),
        attributes: c.attributes.iter().map(|(k, v)| (k.clone(), v.clone())).collect(),
        text: c.get_text().map(|t| t.into_owned()),
    };
    e.node.children.iter().map(|n| n.as_element().map(flat)).collect()
}

/// Replaces the child nodes of the first child element named `child` (found
/// with `xmltree::Element::get_mut_child`) by new elements, each made with
/// `xmltree::Element::new` and given its prefix, its attributes in order and
/// its text as a single text node.
#[verifier::external_body]
pub(crate) fn with_children(e: XmlElement, child: &str, children: Vec<FlatElement>) -> (r:
    XmlElement)
    ensures
        r == xml_with_children(e, child@, elements_view(children@)),
{
    let mut node = e.node;
    if let Some(m) = node.get_mut_child(child) {
        m.children = children.into_iter().map(|c| {
            let mut n = xmltree::Element::new(&c.name);
            n.prefix = c.prefix;
            n.attributes.extend(c.attributes);
            n.children.extend(c.text.map(xmltree::XMLNode::Text));
            xmltree::XMLNode::Element(n)
        }).collect();
    }
    XmlElement { node }
}

/// Serializes a document with `xmltree::Element::write` into memory.
/// Attributes are kept in insertion order, so the bytes are a function of
/// the element.
#[verifier::external_body]
pub(crate) fn write_xml(e: &XmlElement) -> (r: Result<Vec<u8>, xmltree::Error>)
    ensures
        r matches Ok(b) ==> written_xml(*e) == Some(b@),
        r is Err ==> written_xml(*e) is None,
{
    let mut out = Vec::new();
    e.node.write(&mut out).map(|_| out)
}

} // verus!
