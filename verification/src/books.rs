//! Book records and the filename rules for Kobo downloads.

use vstd::prelude::*;
use crate::text::{chars_of, extend_chars, extend_str, lower_char, lower_seq, push_char, seq_ends_with, string_of, to_lower};

verus! {

/// A book stored on a shelf.
///
/// `status` is one of `pending`, `ready` or `deleting`; `uploaded_at` is the
/// upload time in microseconds since the Unix epoch.
#[derive(Debug, Clone)]
pub struct Book {
    pub id: String,
    pub shelf_id: String,
    pub status: String,
    pub title: String,
    pub author: Option<String>,
    pub filename: String,
    pub original_name: String,
    pub stored_filename: String,
    pub size: i64,
    pub uploaded_at: i64,
}

/// What a shelf's book listing shows of a book.
#[derive(Debug, Clone)]
pub struct PublicBook {
    pub id: String,
    pub title: String,
    pub author: Option<String>,
    pub download_url: String,
}

/// `/books/`
pub open spec fn books_prefix() -> Seq<char> {
    seq!['/', 'b', 'o', 'o', 'k', 's', '/']
}

/// `/download`
pub open spec fn download_suffix() -> Seq<char> {
    seq!['/', 'd', 'o', 'w', 'n', 'l', 'o', 'a', 'd']
}

/// `.kepub.epub`
pub open spec fn kepub_suffix() -> Seq<char> {
    seq!['.', 'k', 'e', 'p', 'u', 'b', '.', 'e', 'p', 'u', 'b']
}

/// `.epub`
pub open spec fn epub_suffix() -> Seq<char> {
    seq!['.', 'e', 'p', 'u', 'b']
}

/// `book.epub`, the name used when nothing of the uploaded name survives.
pub open spec fn fallback_name() -> Seq<char> {
    seq!['b', 'o', 'o', 'k', '.', 'e', 'p', 'u', 'b']
}

pub fn kepub_suffix_chars() -> (r: Vec<char>)
    ensures
        r@ == kepub_suffix(),
{
    let r = vec!['.', 'k', 'e', 'p', 'u', 'b', '.', 'e', 'p', 'u', 'b'];
    assert(r@ == kepub_suffix());
    r
}

pub fn epub_suffix_chars() -> (r: Vec<char>)
    ensures
        r@ == epub_suffix(),
{
    let r = vec!['.', 'e', 'p', 'u', 'b'];
    assert(r@ == epub_suffix());
    r
}

impl PublicBook {
    /// The listing entry of a book: its id, title and author, and the
    /// shelf-relative download URL `/books/{id}/download`.
    pub fn from_book(book: &Book) -> (r: PublicBook)
        ensures
            r.id@ == book.id@,
            r.title@ == book.title@,
            r.author == book.author,
            r.download_url@ == books_prefix() + book.id@ + download_suffix(),
    {
        let mut url: Vec<char> = vec!['/', 'b', 'o', 'o', 'k', 's', '/'];
        assert(url@ == books_prefix());
        extend_str(&mut url, book.id.as_str());
        let tail: Vec<char> = vec!['/', 'd', 'o', 'w', 'n', 'l', 'o', 'a', 'd'];
        assert(tail@ == download_suffix());
        extend_chars(&mut url, &tail);
        PublicBook {
            id: book.id.clone(),
            title: book.title.clone(),
            author: book.author.clone(),
            download_url: string_of(&url),
        }
    }
}

/// True for the characters that cannot stand inside a quoted header value.
pub open spec fn is_header_unsafe(c: char) -> bool {
    c == '"' || c == '\\' || c == '\r' || c == '\n'
}

/// The header-safe form of a filename: each unsafe character becomes `_`.
pub open spec fn spec_header_safe(s: Seq<char>) -> Seq<char> {
    s.map_values(|c: char| if is_header_unsafe(c) { '_' } else { c })
}

/// Replaces `"`, `\`, carriage return and line feed by `_`.
pub fn header_safe_filename(filename: &str) -> (r: String)
    ensures
        r@ == spec_header_safe(filename@),
{
    let mut r = String::new();
    for c in it: filename.chars()
        invariant
            r@ == spec_header_safe(it.seq().take(it.index())),
    {
        let d = if c == '"' || c == '\\' || c == '\r' || c == '\n' {
            '_'
        } else {
            c
        };
        push_char(&mut r, d);
        proof {
            assert(it.seq().take(it.index() + 1) == it.seq().take(it.index()).push(c));
        }
    }
    r
}

/// The characters a stored filename may keep: ASCII letters and digits,
/// `.`, `-`, `_`, space and round brackets.
pub open spec fn is_filename_char(c: char) -> bool {
    ||| ('a' <= c && c <= 'z')
    ||| ('A' <= c && c <= 'Z')
    ||| ('0' <= c && c <= '9')
    ||| c == '.' || c == '-' || c == '_' || c == ' ' || c == '(' || c == ')'
}

/// Each character that may not be kept becomes `_`.
pub open spec fn replace_disallowed(s: Seq<char>) -> Seq<char> {
    s.map_values(|c: char| if is_filename_char(c) { c } else { '_' })
}

/// Space handling of the sanitiser: spaces vanish at the start and the end,
/// and a run of spaces between two other characters becomes one space.
pub open spec fn collapse_spaces(s: Seq<char>) -> Seq<char>
    decreases s.len(),
{
    if s.len() == 0 {
        s
    } else {
        let prev = collapse_spaces(s.drop_last());
        let c = s.last();
        if c == ' ' {
            prev
        } else if s.len() >= 2 && s[s.len() - 2] == ' ' && prev.len() > 0 {
            prev.push(' ').push(c)
        } else {
            prev.push(c)
        }
    }
}

/// The sanitised form of an uploaded filename.
pub open spec fn spec_sanitize(s: Seq<char>) -> Seq<char> {
    collapse_spaces(replace_disallowed(s))
}

/// The name a book is stored and downloaded under.
pub open spec fn spec_kobo_filename(s: Seq<char>) -> Seq<char> {
    let cleaned = spec_sanitize(s);
    let base = if cleaned.len() == 0 { fallback_name() } else { cleaned };
    if seq_ends_with(lower_seq(base), kepub_suffix()) {
        base
    } else if seq_ends_with(lower_seq(base), epub_suffix()) {
        base.take(base.len() - 5) + kepub_suffix()
    } else {
        base + kepub_suffix()
    }
}

/// The title shown for a book without metadata: its filename without the
/// `.kepub.epub` ending.
pub open spec fn spec_title_from_filename(s: Seq<char>) -> Seq<char> {
    if seq_ends_with(s, kepub_suffix()) {
        s.take(s.len() - 11)
    } else {
        s
    }
}

fn is_filename_char_exec(c: char) -> (r: bool)
    ensures
        r == is_filename_char(c),
{
    ('a' <= c && c <= 'z') || ('A' <= c && c <= 'Z') || ('0' <= c && c <= '9') || c == '.'
        || c == '-' || c == '_' || c == ' ' || c == '(' || c == ')'
}

/// Keeps letters, digits and `.-_ ()`, turns every other character into `_`,
/// and then drops leading and trailing spaces and collapses runs of spaces.
fn sanitize_filename(filename: &str) -> (r: Vec<char>)
    ensures
        r@ == spec_sanitize(filename@),
{
    let mut out: Vec<char> = Vec::new();
    let mut pending_space = false;
    let ghost mapped = replace_disallowed(filename@);
    for c in it: filename.chars()
        invariant
            mapped == replace_disallowed(it.seq()),
            out@ == collapse_spaces(mapped.take(it.index())),
            pending_space == (it.index() > 0 && mapped[it.index() - 1] == ' '),
    {
        let ghost i = it.index();
        let m = if is_filename_char_exec(c) {
            c
        } else {
            '_'
        };
        proof {
            let t = mapped.take(i + 1);
            assert(t.drop_last() == mapped.take(i));
            assert(t.last() == m);
            if i >= 1 {
                assert(t[t.len() - 2] == mapped[i - 1]);
            }
        }
        if m == ' ' {
            pending_space = true;
        } else {
            if pending_space && out.len() > 0 {
                out.push(' ');
            }
            out.push(m);
            pending_space = false;
        }
    }
    proof {
        assert(mapped.take(mapped.len() as int) == mapped);
    }
    out
}

/// Lower-cased `s` ends with `suffix`.
pub fn ends_with_ignore_case(s: &Vec<char>, suffix: &Vec<char>) -> (r: bool)
    ensures
        r == seq_ends_with(lower_seq(s@), suffix@),
{
    if suffix.len() > s.len() {
        return false;
    }
    let start = s.len() - suffix.len();
    let mut i: usize = 0;
    while i < suffix.len()
        invariant
            start + suffix.len() == s.len(),
            i <= suffix.len(),
            forall|j: int| 0 <= j < i ==> lower_char(s@[start + j]) == suffix@[j],
        decreases suffix.len() - i,
    {
        if to_lower(s[start + i]) != suffix[i] {
            proof {
                assert(lower_seq(s@).subrange(start as int, s.len() as int)[i as int]
                    != suffix@[i as int]);
            }
            return false;
        }
        i = i + 1;
    }
    proof {
        assert(lower_seq(s@).subrange(start as int, s.len() as int) =~= suffix@);
    }
    true
}

/// `s` ends with `suffix`, comparing characters exactly.
fn ends_with_exact(s: &Vec<char>, suffix: &Vec<char>) -> (r: bool)
    ensures
        r == seq_ends_with(s@, suffix@),
{
    if suffix.len() > s.len() {
        return false;
    }
    let start = s.len() - suffix.len();
    let mut i: usize = 0;
    while i < suffix.len()
        invariant
            start + suffix.len() == s.len(),
            i <= suffix.len(),
            forall|j: int| 0 <= j < i ==> s@[start + j] == suffix@[j],
        decreases suffix.len() - i,
    {
        if s[start + i] != suffix[i] {
            proof {
                assert(s@.subrange(start as int, s.len() as int)[i as int] != suffix@[i as int]);
            }
            return false;
        }
        i = i + 1;
    }
    proof {
        assert(s@.subrange(start as int, s.len() as int) =~= suffix@);
    }
    true
}

/// The name a converted book is stored and downloaded under: the sanitised
/// upload name (or `book.epub` when nothing of it survives), ending in
/// `.kepub.epub`.
pub fn kobo_filename(filename: &str) -> (r: String)
    ensures
        r@ == spec_kobo_filename(filename@),
{
    let cleaned = sanitize_filename(filename);
    let base: Vec<char> = if cleaned.len() == 0 {
        let f = vec!['b', 'o', 'o', 'k', '.', 'e', 'p', 'u', 'b'];
        assert(f@ == fallback_name());
        f
    } else {
        cleaned
    };
    let kepub = kepub_suffix_chars();
    let epub = epub_suffix_chars();
    if ends_with_ignore_case(&base, &kepub) {
        string_of(&base)
    } else if ends_with_ignore_case(&base, &epub) {
        let mut out: Vec<char> = Vec::new();
        let keep = base.len() - 5;
        let mut i: usize = 0;
        while i < keep
            invariant
                keep <= base.len(),
                i <= keep,
                out@ == base@.take(i as int),
            decreases keep - i,
        {
            out.push(base[i]);
            i = i + 1;
            proof {
                assert(base@.take(i as int) == base@.take(i - 1).push(base@[i - 1]));
            }
        }
        extend_chars(&mut out, &kepub);
        string_of(&out)
    } else {
        let mut out = base;
        extend_chars(&mut out, &kepub);
        string_of(&out)
    }
}

/// The filename without a trailing `.kepub.epub`.
pub fn title_from_filename(filename: &str) -> (r: String)
    ensures
        r@ == spec_title_from_filename(filename@),
{
    let s = chars_of(filename);
    let kepub = kepub_suffix_chars();
    if ends_with_exact(&s, &kepub) {
        let keep = s.len() - 11;
        let mut out: Vec<char> = Vec::new();
        let mut i: usize = 0;
        while i < keep
            invariant
                keep <= s.len(),
                i <= keep,
                out@ == s@.take(i as int),
            decreases keep - i,
        {
            out.push(s[i]);
            i = i + 1;
            proof {
                assert(s@.take(i as int) == s@.take(i - 1).push(s@[i - 1]));
            }
        }
        string_of(&out)
    } else {
        string_of(&s)
    }
}

/// Every character is one a stored filename may keep, the name neither
/// starts nor ends with a space, and no two spaces are adjacent.
pub open spec fn is_clean_name(t: Seq<char>) -> bool {
    &&& forall|i: int| 0 <= i < t.len() ==> is_filename_char(#[trigger] t[i])
    &&& t.len() > 0 ==> t[0] != ' ' && t.last() != ' '
    &&& forall|i: int| 0 <= i < t.len() - 1 ==> !(#[trigger] t[i] == ' ' && t[i + 1] == ' ')
}

/// Like `is_clean_name`, but a single trailing space is allowed.
pub open spec fn is_clean_prefix(t: Seq<char>) -> bool {
    &&& forall|i: int| 0 <= i < t.len() ==> is_filename_char(#[trigger] t[i])
    &&& t.len() > 0 ==> t[0] != ' '
    &&& forall|i: int| 0 <= i < t.len() - 1 ==> !(#[trigger] t[i] == ' ' && t[i + 1] == ' ')
}

proof fn lemma_replace_disallowed_allowed(s: Seq<char>)
    ensures
        forall|i: int|
            0 <= i < s.len() ==> is_filename_char(#[trigger] replace_disallowed(s)[i]),
{
}

proof fn lemma_replace_disallowed_keeps_allowed(t: Seq<char>)
    requires
        forall|i: int| 0 <= i < t.len() ==> is_filename_char(#[trigger] t[i]),
    ensures
        replace_disallowed(t) == t,
{
    assert(replace_disallowed(t) =~= t);
}

/// The output of `collapse_spaces` is clean whenever its input holds only
/// allowed characters.
proof fn lemma_collapse_is_clean(s: Seq<char>)
    requires
        forall|i: int| 0 <= i < s.len() ==> is_filename_char(#[trigger] s[i]),
    ensures
        is_clean_name(collapse_spaces(s)),
    decreases s.len(),
{
    if s.len() > 0 {
        let p = s.drop_last();
        assert forall|i: int| 0 <= i < p.len() implies is_filename_char(#[trigger] p[i]) by {
            assert(p[i] == s[i]);
        }
        lemma_collapse_is_clean(p);
        let prev = collapse_spaces(p);
        let c = s.last();
        assert(is_filename_char(s[s.len() - 1]));
        if c == ' ' {
        } else if s.len() >= 2 && s[s.len() - 2] == ' ' && prev.len() > 0 {
            let r = prev.push(' ').push(c);
            assert forall|i: int| 0 <= i < r.len() implies is_filename_char(#[trigger] r[i]) by {
                if i < prev.len() {
                    assert(r[i] == prev[i]);
                }
            }
            assert forall|i: int| 0 <= i < r.len() - 1 implies !(#[trigger] r[i] == ' ' && r[i
                + 1] == ' ') by {
                if i < prev.len() - 1 {
                    assert(r[i] == prev[i] && r[i + 1] == prev[i + 1]);
                } else if i == prev.len() - 1 {
                    assert(r[i] == prev.last());
                }
            }
        } else {
            let r = prev.push(c);
            assert forall|i: int| 0 <= i < r.len() implies is_filename_char(#[trigger] r[i]) by {
                if i < prev.len() {
                    assert(r[i] == prev[i]);
                }
            }
            assert forall|i: int| 0 <= i < r.len() - 1 implies !(#[trigger] r[i] == ' ' && r[i
                + 1] == ' ') by {
                if i < prev.len() - 1 {
                    assert(r[i] == prev[i] && r[i + 1] == prev[i + 1]);
                } else if i == prev.len() - 1 {
                    assert(r[i] == prev.last());
                }
            }
        }
    }
}

/// On an input that is clean except for at most one trailing space,
/// `collapse_spaces` only drops that space.
proof fn lemma_collapse_of_clean_prefix(t: Seq<char>)
    requires
        is_clean_prefix(t),
    ensures
        collapse_spaces(t) == (if t.len() > 0 && t.last() == ' ' {
            t.drop_last()
        } else {
            t
        }),
    decreases t.len(),
{
    if t.len() > 0 {
        let p = t.drop_last();
        assert forall|i: int| 0 <= i < p.len() implies is_filename_char(#[trigger] p[i]) by {
            assert(p[i] == t[i]);
        }
        assert forall|i: int| 0 <= i < p.len() - 1 implies !(#[trigger] p[i] == ' ' && p[i + 1]
            == ' ') by {
            assert(p[i] == t[i] && p[i + 1] == t[i + 1]);
        }
        if p.len() > 0 {
            assert(p[0] == t[0]);
        }
        lemma_collapse_of_clean_prefix(p);
        let c = t.last();
        if c == ' ' {
            if p.len() > 0 {
                assert(p.last() == t[t.len() - 2]);
                assert(!(t[t.len() - 2] == ' ' && t[t.len() - 1] == ' '));
            }
        } else if t.len() >= 2 && t[t.len() - 2] == ' ' {
            assert(p.last() == ' ');
            assert(t.len() - 2 >= 1);
            assert(collapse_spaces(p) == p.drop_last());
            assert(p.drop_last().push(' ').push(c) =~= t);
        } else {
            if p.len() > 0 {
                assert(p.last() == t[t.len() - 2]);
            }
            assert(p.push(c) =~= t);
        }
    }
}

proof fn lemma_sanitize_of_clean(t: Seq<char>)
    requires
        is_clean_name(t),
    ensures
        spec_sanitize(t) == t,
{
    lemma_replace_disallowed_keeps_allowed(t);
    lemma_collapse_of_clean_prefix(t);
}

proof fn lemma_lower_of_kepub_suffix()
    ensures
        lower_seq(kepub_suffix()) == kepub_suffix(),
{
    assert(lower_seq(kepub_suffix()) =~= kepub_suffix());
}

proof fn lemma_ends_with_kepub_lower(r: Seq<char>)
    requires
        seq_ends_with(r, kepub_suffix()),
    ensures
        seq_ends_with(lower_seq(r), kepub_suffix()),
{
    lemma_lower_of_kepub_suffix();
    let n = r.len();
    assert(lower_seq(r).subrange(n - 11, n as int) =~= lower_seq(r.subrange(n - 11, n as int)));
}

/// The stored name is clean and ends, ignoring ASCII case, with `.kepub.epub`.
proof fn lemma_kobo_filename_shape(s: Seq<char>)
    ensures
        is_clean_name(spec_kobo_filename(s)),
        spec_kobo_filename(s).len() > 0,
        seq_ends_with(lower_seq(spec_kobo_filename(s)), kepub_suffix()),
{
    let cleaned = spec_sanitize(s);
    lemma_replace_disallowed_allowed(s);
    lemma_collapse_is_clean(replace_disallowed(s));
    let fb = fallback_name();
    assert(is_clean_name(fb)) by {
        assert forall|i: int| 0 <= i < fb.len() implies is_filename_char(#[trigger] fb[i]) by {
            assert(0 <= i < 9);
        }
    }
    let base = if cleaned.len() == 0 { fb } else { cleaned };
    let k = kepub_suffix();
    assert(is_clean_name(k)) by {
        assert forall|i: int| 0 <= i < k.len() implies is_filename_char(#[trigger] k[i]) by {
            assert(0 <= i < 11);
        }
    }
    if seq_ends_with(lower_seq(base), k) {
    } else if seq_ends_with(lower_seq(base), epub_suffix()) {
        let pre = base.take(base.len() - 5);
        let r = pre + k;
        assert(r.subrange(r.len() - 11, r.len() as int) =~= k);
        lemma_ends_with_kepub_lower(r);
        assert forall|i: int| 0 <= i < r.len() implies is_filename_char(#[trigger] r[i]) by {
            if i < pre.len() {
                assert(r[i] == base[i]);
            } else {
                assert(r[i] == k[i - pre.len()]);
            }
        }
        assert forall|i: int| 0 <= i < r.len() - 1 implies !(#[trigger] r[i] == ' ' && r[i + 1]
            == ' ') by {
            if i < pre.len() - 1 {
                assert(r[i] == base[i] && r[i + 1] == base[i + 1]);
            } else {
                assert(r[i + 1] == k[i + 1 - pre.len()]);
            }
        }
        if pre.len() > 0 {
            assert(r[0] == base[0]);
        } else {
            assert(r[0] == k[0]);
        }
        assert(r.last() == k.last());
    } else {
        let r = base + k;
        assert(r.subrange(r.len() - 11, r.len() as int) =~= k);
        lemma_ends_with_kepub_lower(r);
        assert forall|i: int| 0 <= i < r.len() implies is_filename_char(#[trigger] r[i]) by {
            if i < base.len() {
                assert(r[i] == base[i]);
            } else {
                assert(r[i] == k[i - base.len()]);
            }
        }
        assert forall|i: int| 0 <= i < r.len() - 1 implies !(#[trigger] r[i] == ' ' && r[i + 1]
            == ' ') by {
            if i < base.len() - 1 {
                assert(r[i] == base[i] && r[i + 1] == base[i + 1]);
            } else if i == base.len() - 1 {
                assert(r[i] == base.last());
            } else {
                assert(r[i] == k[i - base.len()] && r[i + 1] == k[i + 1 - base.len()]);
            }
        }
        assert(r[0] == base[0]);
        assert(r.last() == k.last());
    }
}

proof fn lemma_collapse_of_spaces(s: Seq<char>)
    requires
        forall|i: int| 0 <= i < s.len() ==> s[i] == ' ',
    ensures
        collapse_spaces(s).len() == 0,
    decreases s.len(),
{
    if s.len() > 0 {
        lemma_collapse_of_spaces(s.drop_last());
    }
}

/// A stored name neither starts nor ends with a space and never holds two
/// spaces in a row; a name made only of spaces (or an empty one) is stored
/// as `book.kepub.epub`.
pub proof fn kobo_filename_has_clean_spacing(s: Seq<char>)
    ensures
        spec_kobo_filename(s)[0] != ' ',
        spec_kobo_filename(s).last() != ' ',
        forall|i: int|
            0 <= i < spec_kobo_filename(s).len() - 1 ==> !(#[trigger] spec_kobo_filename(s)[i] == ' '
                && spec_kobo_filename(s)[i + 1] == ' '),
        (forall|i: int| 0 <= i < s.len() ==> s[i] == ' ') ==> spec_kobo_filename(s)
            == seq!['b', 'o', 'o', 'k'] + kepub_suffix(),
{
    lemma_kobo_filename_shape(s);
    if forall|i: int| 0 <= i < s.len() ==> s[i] == ' ' {
        let t = replace_disallowed(s);
        assert forall|i: int| 0 <= i < t.len() implies t[i] == ' ' by {
            assert(is_filename_char(s[i]));
        }
        lemma_collapse_of_spaces(t);
        let fb = fallback_name();
        assert(!seq_ends_with(lower_seq(fb), kepub_suffix()));
        assert(lower_seq(fb) =~= fb);
        assert(fb.subrange(4, 9) =~= epub_suffix());
        assert(seq_ends_with(lower_seq(fb), epub_suffix()));
        assert(fb.take(4) + kepub_suffix() =~= seq!['b', 'o', 'o', 'k'] + kepub_suffix());
    }
}

/// Converting a stored name again changes nothing: every stored name is
/// already in the form `kobo_filename` produces.
pub proof fn kobo_filename_is_idempotent(s: Seq<char>)
    ensures
        spec_kobo_filename(spec_kobo_filename(s)) == spec_kobo_filename(s),
{
    let r = spec_kobo_filename(s);
    lemma_kobo_filename_shape(s);
    lemma_sanitize_of_clean(r);
}

/// A stored name is never empty, ends (ignoring ASCII case) with
/// `.kepub.epub`, holds only letters, digits and `.-_ ()`, and is therefore
/// left unchanged by `header_safe_filename`.
pub proof fn kobo_filename_is_safe_kepub_name(s: Seq<char>)
    ensures
        spec_kobo_filename(s).len() > 0,
        seq_ends_with(lower_seq(spec_kobo_filename(s)), kepub_suffix()),
        forall|i: int|
            0 <= i < spec_kobo_filename(s).len() ==> is_filename_char(
                #[trigger] spec_kobo_filename(s)[i],
            ),
        spec_header_safe(spec_kobo_filename(s)) == spec_kobo_filename(s),
{
    let r = spec_kobo_filename(s);
    lemma_kobo_filename_shape(s);
    assert(spec_header_safe(r) =~= r) by {
        assert forall|i: int| 0 <= i < r.len() implies spec_header_safe(r)[i] == r[i] by {
            assert(is_filename_char(r[i]));
        }
    }
}


/// Sanitising keeps ASCII letters, digits, `.`, `-`, `_`, space and round
/// brackets, and replaces every other character with `_`.
pub proof fn sanitising_keeps_plain_characters(c: char)
    ensures
        ('a' <= c && c <= 'z') || ('A' <= c && c <= 'Z') || ('0' <= c && c <= '9') || c == '.' || c == '-'
            || c == '_' || c == ' ' || c == '(' || c == ')' <==> is_filename_char(c),
        replace_disallowed(seq![c]) == seq![if is_filename_char(c) { c } else { '_' }],
{
    assert(replace_disallowed(seq![c]) =~= seq![if is_filename_char(c) { c } else { '_' }]);
}

/// A name made only of ASCII letters, digits, `.`, `-`, `_`, spaces and
/// round brackets, with no space at either end and no two spaces in a row,
/// comes out of the sanitiser unchanged; if it also ends (ignoring ASCII
/// case) with `.epub` but not `.kepub.epub`, its stored name is the name
/// with `.epub` replaced by `.kepub.epub`. So `Dune 2.epub` is stored as
/// `Dune 2.kepub.epub`.
pub proof fn plain_names_keep_their_characters(s: Seq<char>)
    requires
        forall|i: int| 0 <= i < s.len() ==> {
            let c = #[trigger] s[i];
            ('a' <= c && c <= 'z') || ('A' <= c && c <= 'Z') || ('0' <= c && c <= '9') || c == '.' || c == '-'
                || c == '_' || c == ' ' || c == '(' || c == ')'
        },
        s.len() > 0 ==> s[0] != ' ' && s[s.len() - 1] != ' ',
        forall|i: int| 0 <= i < s.len() - 1 ==> !(#[trigger] s[i] == ' ' && s[i + 1] == ' '),
    ensures
        spec_sanitize(s) == s,
        seq_ends_with(lower_seq(s), ".epub"@) && !seq_ends_with(lower_seq(s), ".kepub.epub"@) ==> spec_kobo_filename(s)
            == s.take(s.len() - 5) + ".kepub.epub"@,
{
    assert forall|i: int| 0 <= i < s.len() implies is_filename_char(#[trigger] s[i]) by {
        let c = s[i];
        assert(('a' <= c && c <= 'z') || ('A' <= c && c <= 'Z') || ('0' <= c && c <= '9') || c == '.' || c == '-'
            || c == '_' || c == ' ' || c == '(' || c == ')');
    }
    assert(is_clean_name(s));
    lemma_sanitize_of_clean(s);
    reveal_strlit(".epub");
    reveal_strlit(".kepub.epub");
    assert(".epub"@ =~= epub_suffix());
    assert(".kepub.epub"@ =~= kepub_suffix());
}

} // verus!
