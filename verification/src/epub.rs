//! EPUB archive checks: size limits, Kobo markers and the title and author.

use vstd::prelude::*;
use crate::archive::{
    archive_entry, archive_entry_text, archive_index_for_name, archive_len, names_distinct,
    nodes_view, open_archive, parse_xml, zip_listing, zip_members, zip_readable, xml_nodes,
    EntryView, NodeView, XmlNode, AttributeView,
};
use crate::error::{AppError, AppResult, ErrorStatus};
use crate::text::{chars_of, find_from, find_seq, lemma_find_seq_some, lower_seq, seq_ends_with, string_of, trim, trim_chars};

verus! {

/// The largest markup member searched for Kobo markers: 2 MiB.
pub const MAX_MARKUP_BYTES: u64 = 2 * 1024 * 1024;

/// A member name of a markup file: ending, ignoring ASCII case, in
/// `.xhtml`, `.html` or `.htm`.
pub open spec fn is_markup_name(name: Seq<char>) -> bool {
    let l = lower_seq(name);
    seq_ends_with(l, ".xhtml"@) || seq_ends_with(l, ".html"@) || seq_ends_with(l, ".htm"@)
}

/// `id="kobo.`
pub open spec fn kobo_id_prefix() -> Seq<char> {
    seq!['i', 'd', '=', '"', 'k', 'o', 'b', 'o', '.']
}

/// Text carrying the spans kepubify adds: `koboSpan` or `id="kobo.`.
pub open spec fn has_kobo_marker(text: Seq<char>) -> bool {
    find_seq(text, "koboSpan"@) is Some || find_seq(text, kobo_id_prefix()) is Some
}

/// The marker search over the members in order: a member that cannot be
/// opened, or a small markup member that cannot be read, ends it with an
/// error (`None`); the first small markup member with a marker ends it with
/// `Some(true)`; large and non-markup members are skipped.
pub open spec fn kepub_scan(entries: Seq<EntryView>) -> Option<bool>
    decreases entries.len(),
{
    if entries.len() == 0 {
        Some(false)
    } else {
        let e = entries[0];
        if !e.2 {
            None
        } else if !is_markup_name(e.0) || e.1 > MAX_MARKUP_BYTES {
            kepub_scan(entries.drop_first())
        } else {
            match e.3 {
                None => None,
                Some(t) => if has_kobo_marker(t) {
                    Some(true)
                } else {
                    kepub_scan(entries.drop_first())
                },
            }
        }
    }
}

fn lit(s: &str) -> (r: Vec<char>)
    ensures
        r@ == s@,
{
    chars_of(s)
}

fn is_markup_name_exec(name: &str) -> (r: bool)
    ensures
        r == is_markup_name(name@),
{
    let v = chars_of(name);
    crate::books::ends_with_ignore_case(&v, &lit(".xhtml"))
        || crate::books::ends_with_ignore_case(&v, &lit(".html"))
        || crate::books::ends_with_ignore_case(&v, &lit(".htm"))
}

/// Whether an uploaded EPUB has already been converted for Kobo: some markup
/// member of at most 2 MiB carries the spans kepubify adds.
#[verifier::loop_isolation(false)]
pub fn is_kepub(bytes: Vec<u8>) -> (r: AppResult<bool>)
    ensures
        !zip_readable(bytes@) ==> (r matches Err(e) && e.status == ErrorStatus::InternalServerError),
        zip_readable(bytes@) ==> (r is Ok <==> kepub_scan(zip_listing(bytes@)) is Some),
        r matches Ok(b) ==> kepub_scan(zip_listing(bytes@)) == Some(b),
        r matches Err(e) ==> e.status == ErrorStatus::InternalServerError,
{
    let ghost input = bytes@;
    let mut archive = match open_archive(bytes) {
        Ok(a) => a,
        Err(m) => return Err(AppError::internal(m.as_str())),
    };
    let ghost entries = zip_members(archive);
    let n = archive_len(&archive);
    let mut i: usize = 0;
    assert(entries.skip(0) == entries);
    while i < n
        invariant
            n == entries.len(),
            i <= n,
            zip_members(archive) == entries,
            entries == zip_listing(input),
            kepub_scan(entries) == kepub_scan(entries.skip(i as int)),
        decreases n - i,
    {
        let ghost rest = entries.skip(i as int);
        proof {
            assert(rest[0] == entries[i as int]);
            assert(rest.drop_first() == entries.skip(i + 1));
        }
        let (name, size) = match archive_entry(&mut archive, i) {
            Ok(e) => e,
            Err(m) => {
                assert(kepub_scan(rest) is None);
                return Err(AppError::internal(m.as_str()));
            },
        };
        if is_markup_name_exec(name.as_str()) && size <= MAX_MARKUP_BYTES {
            let text = match archive_entry_text(&mut archive, i) {
                Ok(t) => t,
                Err(m) => {
                    assert(kepub_scan(rest) is None);
                    return Err(AppError::internal(m.as_str()));
                },
            };
            let tv = chars_of(text.as_str());
            let span = vec!['k', 'o', 'b', 'o', 'S', 'p', 'a', 'n'];
            let id_prefix = vec!['i', 'd', '=', '"', 'k', 'o', 'b', 'o', '.'];
            assert(span@ == "koboSpan"@) by {
                reveal_strlit("koboSpan");
            }
            assert(id_prefix@ == kobo_id_prefix());
            assert(tv@.skip(0) == tv@);
            if find_from(&tv, &span, 0).is_some() || find_from(&tv, &id_prefix, 0).is_some() {
                assert(kepub_scan(rest) == Some(true));
                return Ok(true);
            }
            assert(kepub_scan(rest) == kepub_scan(rest.drop_first()));
        } else {
            assert(kepub_scan(rest) == kepub_scan(rest.drop_first()));
        }
        i = i + 1;
    }
    Ok(false)
}

/// How the size check of an archive ends: `None` when a member cannot be
/// opened, `Some(false)` when the running total of uncompressed sizes
/// (saturating at `u64::MAX`) passes `max`, `Some(true)` otherwise.
pub open spec fn size_scan(entries: Seq<EntryView>, total: int, max: int) -> Option<bool>
    decreases entries.len(),
{
    if entries.len() == 0 {
        Some(true)
    } else if !entries[0].2 {
        None
    } else {
        let t = if total + entries[0].1 > u64::MAX { u64::MAX as int } else { total + entries[0].1 };
        if t > max {
            Some(false)
        } else {
            size_scan(entries.drop_first(), t, max)
        }
    }
}

/// The sum of the members' uncompressed sizes.
pub open spec fn total_size(entries: Seq<EntryView>) -> int
    decreases entries.len(),
{
    if entries.len() == 0 {
        0
    } else {
        entries[0].1 + total_size(entries.drop_first())
    }
}

/// Checks an uploaded archive against the limits on its member count and on
/// its total uncompressed size.
#[verifier::loop_isolation(false)]
pub fn validate_archive(bytes: Vec<u8>, max_entries: usize, max_decompressed_bytes: u64) -> (r: AppResult<()>)
    ensures
        !zip_readable(bytes@) ==> (r matches Err(e) && e.status == ErrorStatus::BadRequest
            && e.message@ == "The upload is not a valid EPUB archive."@),
        zip_readable(bytes@) && zip_listing(bytes@).len() > max_entries ==> (r matches Err(e)
            && e.status == ErrorStatus::BadRequest && e.message@ == "The EPUB contains too many files."@),
        zip_readable(bytes@) && zip_listing(bytes@).len() <= max_entries ==> match size_scan(zip_listing(bytes@), 0, max_decompressed_bytes as int) {
            None => r matches Err(e) && e.status == ErrorStatus::InternalServerError,
            Some(false) => r matches Err(e) && e.status == ErrorStatus::BadRequest
                && e.message@ == "The EPUB expands beyond the allowed size."@,
            Some(true) => r is Ok,
        },
{
    let ghost input = bytes@;
    let mut archive = match open_archive(bytes) {
        Ok(a) => a,
        Err(_) => return Err(AppError::bad_request("The upload is not a valid EPUB archive.")),
    };
    let ghost entries = zip_members(archive);
    let n = archive_len(&archive);
    if n > max_entries {
        return Err(AppError::bad_request("The EPUB contains too many files."));
    }
    let mut total: u64 = 0;
    let mut i: usize = 0;
    assert(entries.skip(0) == entries);
    while i < n
        invariant
            n == entries.len(),
            i <= n,
            zip_members(archive) == entries,
            total <= max_decompressed_bytes,
            size_scan(entries, 0, max_decompressed_bytes as int) == size_scan(entries.skip(i as int), total as int, max_decompressed_bytes as int),
        decreases n - i,
    {
        let ghost rest = entries.skip(i as int);
        proof {
            assert(rest[0] == entries[i as int]);
            assert(rest.drop_first() == entries.skip(i + 1));
        }
        let size = match archive_entry(&mut archive, i) {
            Ok(e) => e.1,
            Err(m) => return Err(AppError::internal(m.as_str())),
        };
        total = total.saturating_add(size);
        if total > max_decompressed_bytes {
            return Err(AppError::bad_request("The EPUB expands beyond the allowed size."));
        }
        i = i + 1;
    }
    assert(entries.skip(n as int).len() == 0);
    Ok(())
}

proof fn lemma_size_scan_total(entries: Seq<EntryView>, total: int, max: int)
    requires
        0 <= total <= max,
        size_scan(entries, total, max) == Some(true),
    ensures
        total + total_size(entries) <= max || total + total_size(entries) > u64::MAX,
    decreases entries.len(),
{
    if entries.len() > 0 {
        let t = if total + entries[0].1 > u64::MAX { u64::MAX as int } else { total + entries[0].1 };
        lemma_size_scan_total(entries.drop_first(), t, max);
        lemma_total_size_nonneg(entries.drop_first());
    }
}

proof fn lemma_total_size_nonneg(entries: Seq<EntryView>)
    ensures
        total_size(entries) >= 0,
    decreases entries.len(),
{
    if entries.len() > 0 {
        lemma_total_size_nonneg(entries.drop_first());
    }
}

/// An archive that passes the size check expands to no more than the limit
/// (sums past `u64::MAX` aside, which the saturating count cannot tell apart
/// from `u64::MAX` itself).
pub proof fn accepted_archive_fits_the_limit(entries: Seq<EntryView>, max: int)
    requires
        0 <= max,
        size_scan(entries, 0, max) == Some(true),
    ensures
        total_size(entries) <= max || total_size(entries) > u64::MAX,
{
    lemma_size_scan_total(entries, 0, max);
}


/// Every member can be opened, and every small markup member read as text.
pub open spec fn scannable_entry(e: EntryView) -> bool {
    e.2 && (is_markup_name(e.0) && e.1 <= MAX_MARKUP_BYTES ==> e.3 is Some)
}

/// A member counts as a converted page: a markup member of at most 2 MiB
/// whose text carries a Kobo marker.
pub open spec fn carries_kobo_marker(e: EntryView) -> bool {
    &&& is_markup_name(e.0)
    &&& e.1 <= MAX_MARKUP_BYTES
    &&& e.3 matches Some(t) && has_kobo_marker(t)
}

/// When every member can be read, the marker search answers whether some
/// markup member of at most 2 MiB carries `koboSpan` or `id="kobo.`;
/// markers in other members, or in larger markup members, do not count.
pub proof fn kepub_scan_finds_any_converted_page(entries: Seq<EntryView>)
    requires
        forall|i: int| 0 <= i < entries.len() ==> scannable_entry(#[trigger] entries[i]),
    ensures
        kepub_scan(entries) == Some(exists|i: int| 0 <= i < entries.len() && carries_kobo_marker(#[trigger] entries[i])),
    decreases entries.len(),
{
    if entries.len() > 0 {
        let rest = entries.drop_first();
        assert forall|i: int| 0 <= i < rest.len() implies scannable_entry(#[trigger] rest[i]) by {
            assert(rest[i] == entries[i + 1]);
            assert(scannable_entry(entries[i + 1]));
        }
        kepub_scan_finds_any_converted_page(rest);
        assert(scannable_entry(entries[0]));
        if carries_kobo_marker(entries[0]) {
        } else {
            if exists|i: int| 0 <= i < entries.len() && carries_kobo_marker(#[trigger] entries[i]) {
                let i = choose|i: int| 0 <= i < entries.len() && carries_kobo_marker(#[trigger] entries[i]);
                assert(rest[i - 1] == entries[i]);
            }
            if exists|j: int| 0 <= j < rest.len() && carries_kobo_marker(#[trigger] rest[j]) {
                let j = choose|j: int| 0 <= j < rest.len() && carries_kobo_marker(#[trigger] rest[j]);
                assert(entries[j + 1] == rest[j]);
            }
        }
    }
}

/// A member whose lower-cased name ends with `.xhtml`, `.html` or `.htm` is
/// a markup member.
pub proof fn markup_names_are_the_three_page_endings(name: Seq<char>)
    ensures
        seq_ends_with(lower_seq(name), ".xhtml"@) ==> is_markup_name(name),
        seq_ends_with(lower_seq(name), ".html"@) ==> is_markup_name(name),
        seq_ends_with(lower_seq(name), ".htm"@) ==> is_markup_name(name),
{
}

/// An archive whose members can all be opened and read is already a kepub
/// when one page (a member whose lower-cased name ends with `.xhtml`,
/// `.html` or `.htm`, of at most 2 MiB) holds `koboSpan` or `id="kobo.`:
/// the marker search then answers `Some(true)`, wherever that page stands.
pub proof fn a_page_with_kobo_spans_marks_a_kepub(entries: Seq<EntryView>, j: int, k: int)
    requires
        forall|i: int| 0 <= i < entries.len() ==> (#[trigger] entries[i]).2 && entries[i].3 is Some,
        0 <= j < entries.len(),
        seq_ends_with(lower_seq(entries[j].0), ".xhtml"@) || seq_ends_with(lower_seq(entries[j].0), ".html"@)
            || seq_ends_with(lower_seq(entries[j].0), ".htm"@),
        entries[j].1 <= 2 * 1024 * 1024,
        0 <= k,
        k + 8 <= entries[j].3.unwrap().len(),
        entries[j].3.unwrap().subrange(k, k + 8) == "koboSpan"@ || (k + 9 <= entries[j].3.unwrap().len()
            && entries[j].3.unwrap().subrange(k, k + 9) == "id=\"kobo."@),
    ensures
        kepub_scan(entries) == Some(true),
{
    kepub_scan_finds_any_converted_page(entries);
    let t = entries[j].3.unwrap();
    reveal_strlit("koboSpan");
    reveal_strlit("id=\"kobo.");
    assert("id=\"kobo."@ == kobo_id_prefix());
    if t.subrange(k, k + 8) == "koboSpan"@ {
        lemma_find_seq_some(t, "koboSpan"@, k);
    } else {
        lemma_find_seq_some(t, kobo_id_prefix(), k);
    }
    assert(entries[j].2 && entries[j].3 is Some);
    assert(carries_kobo_marker(entries[j]));
}

proof fn lemma_size_scan_exact(entries: Seq<EntryView>, total: int, max: int)
    requires
        0 <= total <= max < u64::MAX,
        forall|i: int| 0 <= i < entries.len() ==> #[trigger] entries[i].2,
    ensures
        size_scan(entries, total, max) == Some(total + total_size(entries) <= max),
    decreases entries.len(),
{
    if entries.len() > 0 {
        let rest = entries.drop_first();
        assert forall|i: int| 0 <= i < rest.len() implies #[trigger] rest[i].2 by {
            assert(rest[i] == entries[i + 1]);
            assert(entries[i + 1].2);
        }
        assert(entries[0].2);
        lemma_total_size_nonneg(rest);
        let t = if total + entries[0].1 > u64::MAX { u64::MAX as int } else { total + entries[0].1 };
        if t <= max {
            lemma_size_scan_exact(rest, t, max);
        }
    }
}

/// When every member can be opened and the limit is below `u64::MAX`, an
/// archive passes the size check exactly when its members' uncompressed
/// sizes add up to at most the limit.
pub proof fn archive_passes_size_check_iff_it_fits(entries: Seq<EntryView>, max: int)
    requires
        0 <= max < u64::MAX,
        forall|i: int| 0 <= i < entries.len() ==> #[trigger] entries[i].2,
    ensures
        size_scan(entries, 0, max) == Some(total_size(entries) <= max),
{
    lemma_size_scan_exact(entries, 0, max);
}

/// The title and author an EPUB's package document names.
#[derive(Debug, Clone)]
pub struct BookMetadata {
    pub title: Option<String>,
    pub author: Option<String>,
}

impl Default for BookMetadata {
    fn default() -> (r: BookMetadata)
        ensures
            r.title is None && r.author is None,
    {
        BookMetadata { title: None, author: None }
    }
}

/// Why the metadata of an archive cannot be read.
pub enum MetadataFailure {
    /// A member is missing or unreadable, or a document is not well formed.
    Internal,
    /// `META-INF/container.xml` is larger than 1 MiB.
    ContainerTooLarge,
    /// The container names no package document.
    MissingPackagePath,
    /// The package document is larger than 2 MiB.
    PackageTooLarge,
}

/// The largest container document read: 1 MiB.
pub const MAX_CONTAINER_BYTES: u64 = 1024 * 1024;

/// The largest package document read: 2 MiB.
pub const MAX_PACKAGE_BYTES: u64 = 2 * 1024 * 1024;

/// The index of the member with this name.
pub open spec fn member_index(entries: Seq<EntryView>, name: Seq<char>) -> Option<int> {
    if exists|i: int| 0 <= i < entries.len() && #[trigger] entries[i].0 == name {
        Some(choose|i: int| 0 <= i < entries.len() && #[trigger] entries[i].0 == name)
    } else {
        None
    }
}

/// Reading a member as text: `Err(true)` when it is larger than `limit`,
/// `Err(false)` when it is missing, cannot be opened, or cannot be read.
pub open spec fn read_member(entries: Seq<EntryView>, name: Seq<char>, limit: int) -> Result<Seq<char>, bool> {
    match member_index(entries, name) {
        None => Err(false),
        Some(i) => if !entries[i].2 {
            Err(false)
        } else if entries[i].1 > limit {
            Err(true)
        } else {
            match entries[i].3 {
                Some(t) => Ok(t),
                None => Err(false),
            }
        },
    }
}

/// The index of the first element with this local name.
pub open spec fn find_element(nodes: Seq<NodeView>, tag: Seq<char>) -> Option<int>
    decreases nodes.len(),
{
    if nodes.len() == 0 {
        None
    } else if nodes[0].0 && nodes[0].1 == tag {
        Some(0)
    } else {
        match find_element(nodes.drop_first(), tag) {
            Some(i) => Some(i + 1),
            None => None,
        }
    }
}

/// The value of the first attribute without a namespace and with this name.
pub open spec fn attribute_value(attrs: Seq<AttributeView>, name: Seq<char>) -> Option<Seq<char>>
    decreases attrs.len(),
{
    if attrs.len() == 0 {
        None
    } else if attrs[0].0 is None && attrs[0].1 == name {
        Some(attrs[0].2)
    } else {
        attribute_value(attrs.drop_first(), name)
    }
}

/// The package path: the `full-path` attribute of the first `rootfile`
/// element.
pub open spec fn rootfile_path(nodes: Seq<NodeView>) -> Option<Seq<char>> {
    match find_element(nodes, "rootfile"@) {
        Some(i) => attribute_value(nodes[i].2, "full-path"@),
        None => None,
    }
}

/// The trimmed text of the first element with this local name, when there
/// is some.
pub open spec fn tag_text(nodes: Seq<NodeView>, tag: Seq<char>) -> Option<Seq<char>> {
    match find_element(nodes, tag) {
        Some(i) => match nodes[i].3 {
            Some(t) => if trim(t).len() > 0 { Some(trim(t)) } else { None },
            None => None,
        },
        None => None,
    }
}

/// The metadata of an archive with these members: the container document
/// names the package document, whose first `title` and `creator` elements
/// give the title and author.
pub open spec fn spec_metadata(entries: Seq<EntryView>) -> Result<(Option<Seq<char>>, Option<Seq<char>>), MetadataFailure> {
    match read_member(entries, "META-INF/container.xml"@, MAX_CONTAINER_BYTES as int) {
        Err(true) => Err(MetadataFailure::ContainerTooLarge),
        Err(false) => Err(MetadataFailure::Internal),
        Ok(container) => match xml_nodes(container) {
            None => Err(MetadataFailure::Internal),
            Some(cnodes) => match rootfile_path(cnodes) {
                None => Err(MetadataFailure::MissingPackagePath),
                Some(path) => match read_member(entries, path, MAX_PACKAGE_BYTES as int) {
                    Err(true) => Err(MetadataFailure::PackageTooLarge),
                    Err(false) => Err(MetadataFailure::Internal),
                    Ok(package) => match xml_nodes(package) {
                        None => Err(MetadataFailure::Internal),
                        Some(pnodes) => Ok((tag_text(pnodes, "title"@), tag_text(pnodes, "creator"@))),
                    },
                },
            },
        },
    }
}

proof fn lemma_member_index(entries: Seq<EntryView>, name: Seq<char>, i: int)
    requires
        names_distinct(entries),
        0 <= i < entries.len(),
        entries[i].0 == name,
    ensures
        member_index(entries, name) == Some(i),
{
    let j = choose|j: int| 0 <= j < entries.len() && #[trigger] entries[j].0 == name;
    if j != i {
        if j < i {
            assert(entries[j].0 != entries[i].0);
        } else {
            assert(entries[i].0 != entries[j].0);
        }
    }
}

/// Reads a member as text within a size limit.
fn read_member_exec(archive: &mut zip::ZipArchive<std::io::Cursor<Vec<u8>>>, name: &str, limit: u64) -> (r: Result<String, (bool, String)>)
    requires
        names_distinct(zip_members(*old(archive))),
    ensures
        zip_members(*final(archive)) == zip_members(*old(archive)),
        match read_member(zip_members(*old(archive)), name@, limit as int) {
            Ok(t) => r matches Ok(s) && s@ == t,
            Err(big) => r matches Err(e) && e.0 == big,
        },
{
    let i = match archive_index_for_name(archive, name) {
        Some(i) => i,
        None => return Err((false, String::from_str("specified file not found in archive"))),
    };
    proof {
        lemma_member_index(zip_members(*archive), name@, i as int);
    }
    let size = match archive_entry(archive, i) {
        Ok(e) => e.1,
        Err(m) => return Err((false, m)),
    };
    if size > limit {
        return Err((true, String::new()));
    }
    match archive_entry_text(archive, i) {
        Ok(t) => Ok(t),
        Err(m) => Err((false, m)),
    }
}

/// The index of the first element with this local name.
pub fn first_element(nodes: &Vec<XmlNode>, tag: &str) -> (r: Option<usize>)
    ensures
        r matches Some(i) ==> i < nodes@.len() && find_element(nodes_view(nodes@), tag@) == Some(i as int),
        r is None ==> find_element(nodes_view(nodes@), tag@) is None,
{
    let t = String::from_str(tag);
    let ghost nv = nodes_view(nodes@);
    let mut i: usize = 0;
    assert(nv.skip(0) == nv);
    while i < nodes.len()
        invariant
            i <= nodes@.len(),
            nv == nodes_view(nodes@),
            nv.len() == nodes@.len(),
            t@ == tag@,
            forall|k: int| 0 <= k < i ==> !(nv[k].0 && nv[k].1 == tag@),
        decreases nodes.len() - i,
    {
        if nodes[i].is_element && nodes[i].name == t {
            proof {
                lemma_find_element_first(nv, tag@, i as int);
            }
            return Some(i);
        }
        i = i + 1;
    }
    proof {
        lemma_find_element_none(nv, tag@);
    }
    None
}

proof fn lemma_find_element_first(nodes: Seq<NodeView>, tag: Seq<char>, i: int)
    requires
        0 <= i < nodes.len(),
        nodes[i].0 && nodes[i].1 == tag,
        forall|k: int| 0 <= k < i ==> !(nodes[k].0 && nodes[k].1 == tag),
    ensures
        find_element(nodes, tag) == Some(i),
    decreases i,
{
    if i > 0 {
        let t = nodes.drop_first();
        assert forall|k: int| 0 <= k < i - 1 implies !(t[k].0 && t[k].1 == tag) by {
            assert(t[k] == nodes[k + 1]);
        }
        lemma_find_element_first(t, tag, i - 1);
        assert(!(nodes[0].0 && nodes[0].1 == tag));
    }
}

proof fn lemma_find_element_none(nodes: Seq<NodeView>, tag: Seq<char>)
    requires
        forall|k: int| 0 <= k < nodes.len() ==> !(nodes[k].0 && nodes[k].1 == tag),
    ensures
        find_element(nodes, tag) is None,
    decreases nodes.len(),
{
    if nodes.len() > 0 {
        let t = nodes.drop_first();
        assert forall|k: int| 0 <= k < t.len() implies !(t[k].0 && t[k].1 == tag) by {
            assert(t[k] == nodes[k + 1]);
        }
        lemma_find_element_none(t, tag);
        assert(!(nodes[0].0 && nodes[0].1 == tag));
    }
}

/// The value of the first attribute without a namespace and with this name.
pub fn attribute_named(attrs: &Vec<crate::archive::XmlAttribute>, name: &str) -> (r: Option<String>)
    ensures
        crate::text::opt_chars(r) == attribute_value(attrs@.map_values(|a: crate::archive::XmlAttribute| a@), name@),
{
    let ghost av = attrs@.map_values(|a: crate::archive::XmlAttribute| a@);
    let n = String::from_str(name);
    let mut i: usize = 0;
    assert(av.skip(0) == av);
    while i < attrs.len()
        invariant
            i <= attrs@.len(),
            av == attrs@.map_values(|a: crate::archive::XmlAttribute| a@),
            n@ == name@,
            attribute_value(av, name@) == attribute_value(av.skip(i as int), name@),
        decreases attrs.len() - i,
    {
        proof {
            assert(av.skip(i as int)[0] == attrs@[i as int]@);
            assert(av.skip(i as int).drop_first() == av.skip(i + 1));
        }
        if attrs[i].namespace.is_none() && attrs[i].name == n {
            return Some(attrs[i].value.clone());
        }
        i = i + 1;
    }
    None
}

/// The trimmed text of the first element with this local name.
pub fn element_text(nodes: &Vec<XmlNode>, tag: &str) -> (r: Option<String>)
    ensures
        crate::text::opt_chars(r) == tag_text(nodes_view(nodes@), tag@),
{
    match first_element(nodes, tag) {
        Some(i) => {
            assert(nodes_view(nodes@)[i as int] == nodes@[i as int]@);
            match &nodes[i].text {
                Some(t) => {
                    let v = chars_of(t.as_str());
                    let trimmed = trim_chars(&v);
                    if trimmed.len() > 0 {
                        Some(string_of(&trimmed))
                    } else {
                        None
                    }
                },
                None => None,
            }
        },
        None => None,
    }
}

/// The package document's path: the `full-path` attribute of the first
/// `rootfile` element of a container document.
pub fn package_path(nodes: &Vec<XmlNode>) -> (r: Option<String>)
    ensures
        crate::text::opt_chars(r) == rootfile_path(nodes_view(nodes@)),
{
    match first_element(nodes, "rootfile") {
        Some(i) => {
            assert(nodes_view(nodes@)[i as int] == nodes@[i as int]@);
            attribute_named(&nodes[i].attributes, "full-path")
        },
        None => None,
    }
}

fn failure_error(big: bool, container: bool, details: String) -> (r: AppError)
    ensures
        !big ==> r.status == ErrorStatus::InternalServerError,
        big && container ==> r.status == ErrorStatus::BadRequest && r.message@ == "EPUB container metadata is too large."@,
        big && !container ==> r.status == ErrorStatus::BadRequest && r.message@ == "EPUB package metadata is too large."@,
{
    if !big {
        AppError::internal(details.as_str())
    } else if container {
        AppError::bad_request("EPUB container metadata is too large.")
    } else {
        AppError::bad_request("EPUB package metadata is too large.")
    }
}

/// The title and author of an uploaded EPUB, read from the package document
/// that `META-INF/container.xml` points to.
pub fn extract_metadata(bytes: Vec<u8>) -> (r: AppResult<BookMetadata>)
    ensures
        !zip_readable(bytes@) ==> (r matches Err(e) && e.status == ErrorStatus::InternalServerError),
        zip_readable(bytes@) ==> match spec_metadata(zip_listing(bytes@)) {
            Ok(m) => r matches Ok(b) && crate::text::opt_chars(b.title) == m.0 && crate::text::opt_chars(b.author) == m.1,
            Err(MetadataFailure::Internal) => r matches Err(e) && e.status == ErrorStatus::InternalServerError,
            Err(MetadataFailure::ContainerTooLarge) => r matches Err(e) && e.status == ErrorStatus::BadRequest
                && e.message@ == "EPUB container metadata is too large."@,
            Err(MetadataFailure::MissingPackagePath) => r matches Err(e) && e.status == ErrorStatus::BadRequest
                && e.message@ == "EPUB is missing OPF metadata path."@,
            Err(MetadataFailure::PackageTooLarge) => r matches Err(e) && e.status == ErrorStatus::BadRequest
                && e.message@ == "EPUB package metadata is too large."@,
        },
{
    let mut archive = match open_archive(bytes) {
        Ok(a) => a,
        Err(m) => return Err(AppError::internal(m.as_str())),
    };
    let container = match read_member_exec(&mut archive, "META-INF/container.xml", MAX_CONTAINER_BYTES) {
        Ok(t) => t,
        Err((big, m)) => return Err(failure_error(big, true, m)),
    };
    let cnodes = match parse_xml(container.as_str()) {
        Ok(n) => n,
        Err(m) => return Err(AppError::internal(m.as_str())),
    };
    let path = match package_path(&cnodes) {
        Some(p) => p,
        None => return Err(AppError::bad_request("EPUB is missing OPF metadata path.")),
    };
    let package = match read_member_exec(&mut archive, path.as_str(), MAX_PACKAGE_BYTES) {
        Ok(t) => t,
        Err((big, m)) => return Err(failure_error(big, false, m)),
    };
    let pnodes = match parse_xml(package.as_str()) {
        Ok(n) => n,
        Err(m) => return Err(AppError::internal(m.as_str())),
    };
    Ok(BookMetadata { title: element_text(&pnodes, "title"), author: element_text(&pnodes, "creator") })
}

} // verus!
