//! ZIP archives and XML documents, read through the `zip` and `roxmltree`
//! crates into plain values.

use vstd::prelude::*;
use crate::text::opt_chars;
use std::io::Read;

verus! {

#[verifier::external_type_specification]
#[verifier::external_body]
#[verifier::reject_recursive_types(T)]
pub struct ExCursor<T>(std::io::Cursor<T>);

#[verifier::external_type_specification]
#[verifier::external_body]
#[verifier::reject_recursive_types(R)]
pub struct ExZipArchive<R>(zip::ZipArchive<R>);

/// What the library knows of one archive member: its name, its
/// uncompressed size, whether it can be opened, and its contents as text
/// (`None` when it cannot be opened, decompressed, or read as UTF-8).
pub type EntryView = (Seq<char>, u64, bool, Option<Seq<char>>);

/// What `zip::ZipArchive::new` makes of these bytes: the members, in the
/// order of the central directory, or `None` when they are not an archive.
pub uninterp spec fn zip_archive_members(bytes: Seq<u8>) -> Option<Seq<EntryView>>;

/// The bytes are read as an archive.
pub open spec fn zip_readable(bytes: Seq<u8>) -> bool {
    zip_archive_members(bytes) is Some
}

/// The members found in bytes that are read as an archive.
pub open spec fn zip_listing(bytes: Seq<u8>) -> Seq<EntryView> {
    zip_archive_members(bytes).unwrap()
}

/// The members an open archive holds.
pub uninterp spec fn zip_members(archive: zip::ZipArchive<std::io::Cursor<Vec<u8>>>) -> Seq<EntryView>;

/// The member names are distinct.
pub open spec fn names_distinct(entries: Seq<EntryView>) -> bool {
    forall|i: int, j: int| 0 <= i < j < entries.len() ==> #[trigger] entries[i].0 != #[trigger] entries[j].0
}

/// `zip::ZipArchive::new` over the bytes in memory.
///
/// Trusted: success and the members are what `zip_archive_members` names. Member names are distinct because the crate keeps
/// them as the keys of an index map.
#[verifier::external_body]
pub(crate) fn open_archive(bytes: Vec<u8>) -> (r: Result<zip::ZipArchive<std::io::Cursor<Vec<u8>>>, String>)
    ensures
        r is Ok <==> zip_archive_members(bytes@) is Some,
        r matches Ok(a) ==> Some(zip_members(a)) == zip_archive_members(bytes@),
        r matches Ok(a) ==> names_distinct(zip_members(a)),
{
    zip::ZipArchive::new(std::io::Cursor::new(bytes)).map_err(|e| e.to_string())
}

/// `ZipArchive::len`.
///
/// Trusted: the number of members.
#[verifier::external_body]
pub(crate) fn archive_len(archive: &zip::ZipArchive<std::io::Cursor<Vec<u8>>>) -> (r: usize)
    ensures
        r == zip_members(*archive).len(),
{
    archive.len()
}

/// `ZipArchive::index_for_name`.
///
/// Trusted: the index of the member with that name, `None` when there is
/// none.
#[verifier::external_body]
pub(crate) fn archive_index_for_name(archive: &zip::ZipArchive<std::io::Cursor<Vec<u8>>>, name: &str) -> (r: Option<usize>)
    ensures
        r matches Some(i) ==> i < zip_members(*archive).len() && zip_members(*archive)[i as int].0 == name@,
        r is None ==> forall|i: int| 0 <= i < zip_members(*archive).len() ==> #[trigger] zip_members(*archive)[i].0 != name@,
{
    archive.index_for_name(name)
}

/// `ZipArchive::by_index`, read through `name` and `size`.
///
/// Trusted: it succeeds when the member can be opened, and then gives the
/// member's name and uncompressed size. The members are unchanged.
#[verifier::external_body]
pub(crate) fn archive_entry(archive: &mut zip::ZipArchive<std::io::Cursor<Vec<u8>>>, index: usize) -> (r: Result<(String, u64), String>)
    requires
        index < zip_members(*old(archive)).len(),
    ensures
        zip_members(*final(archive)) == zip_members(*old(archive)),
        r is Ok <==> zip_members(*old(archive))[index as int].2,
        r matches Ok(e) ==> e.0@ == zip_members(*old(archive))[index as int].0 && e.1 == zip_members(*old(archive))[index as int].1,
{
    let entry = archive.by_index(index).map_err(|e| e.to_string())?;
    Ok((entry.name().to_string(), entry.size()))
}

/// `ZipArchive::by_index` followed by `Read::read_to_string`.
///
/// Trusted: it succeeds exactly when the member's text is known, and gives
/// that text. The members are unchanged.
#[verifier::external_body]
pub(crate) fn archive_entry_text(archive: &mut zip::ZipArchive<std::io::Cursor<Vec<u8>>>, index: usize) -> (r: Result<String, String>)
    requires
        index < zip_members(*old(archive)).len(),
    ensures
        zip_members(*final(archive)) == zip_members(*old(archive)),
        r is Ok <==> zip_members(*old(archive))[index as int].3 is Some,
        r matches Ok(t) ==> zip_members(*old(archive))[index as int].3 == Some(t@),
{
    let mut text = String::new();
    let mut entry = archive.by_index(index).map_err(|e| e.to_string())?;
    entry.read_to_string(&mut text).map_err(|e| e.to_string())?;
    Ok(text)
}

/// One attribute of an XML element.
#[derive(Debug)]
pub struct XmlAttribute {
    /// The namespace URI, when the attribute has one.
    pub namespace: Option<String>,
    /// The local name.
    pub name: String,
    pub value: String,
}

/// One node of an XML document, in document order: whether it is an
/// element, its local name (empty for other nodes), its attributes, and
/// `Node::text` (for an element, the text of its first child when that is a
/// text node).
#[derive(Debug)]
pub struct XmlNode {
    pub is_element: bool,
    pub name: String,
    pub attributes: Vec<XmlAttribute>,
    pub text: Option<String>,
}

pub type AttributeView = (Option<Seq<char>>, Seq<char>, Seq<char>);

pub type NodeView = (bool, Seq<char>, Seq<AttributeView>, Option<Seq<char>>);

impl View for XmlAttribute {
    type V = AttributeView;

    open spec fn view(&self) -> AttributeView {
        (opt_chars(self.namespace), self.name@, self.value@)
    }
}

impl View for XmlNode {
    type V = NodeView;

    open spec fn view(&self) -> NodeView {
        (self.is_element, self.name@, self.attributes@.map_values(|a: XmlAttribute| a@), opt_chars(self.text))
    }
}

/// The nodes of a document, viewed.
pub open spec fn nodes_view(nodes: Seq<XmlNode>) -> Seq<NodeView> {
    nodes.map_values(|n: XmlNode| n@)
}

/// The nodes `roxmltree::Document::parse` finds in a text, in document
/// order; `None` when the text is not a well-formed document.
pub uninterp spec fn xml_nodes(text: Seq<char>) -> Option<Seq<NodeView>>;

/// `roxmltree::Document::parse`, read through `descendants`.
///
/// Trusted: success and the nodes are what `xml_nodes` names; nothing is
/// stated of the error text.
#[verifier::external_body]
pub(crate) fn parse_xml(text: &str) -> (r: Result<Vec<XmlNode>, String>)
    ensures
        r is Ok <==> xml_nodes(text@) is Some,
        r matches Ok(v) ==> xml_nodes(text@) == Some(nodes_view(v@)),
{
    let doc = roxmltree::Document::parse(text).map_err(|e| e.to_string())?;
    Ok(doc.descendants().map(|n| XmlNode {
        is_element: n.is_element(),
        name: n.tag_name().name().to_string(),
        attributes: n.attributes().map(|a| XmlAttribute {
            namespace: a.namespace().map(|u| u.to_string()),
            name: a.name().to_string(),
            value: a.value().to_string(),
        }).collect(),
        text: n.text().map(|t| t.to_string()),
    }).collect())
}

} // verus!
