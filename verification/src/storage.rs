//! Shelf-scoped filesystem paths.

use vstd::prelude::*;
use crate::config::{join_path, path_join};
use crate::error::{AppError, AppResult, ErrorStatus};
use crate::text::{chars_of, extend_str, lower_char, lower_seq, string_of};

verus! {

/// A hexadecimal digit, in either case.
pub open spec fn is_hex_char(c: char) -> bool {
    ||| ('0' <= c && c <= '9')
    ||| ('a' <= c && c <= 'f')
    ||| ('A' <= c && c <= 'F')
}

/// The simple form: 32 hexadecimal digits.
pub open spec fn is_simple_uuid(s: Seq<char>) -> bool {
    s.len() == 32 && forall|i: int| 0 <= i < 32 ==> is_hex_char(#[trigger] s[i])
}

/// The hyphenated form: 36 characters, hyphens at 8, 13, 18 and 23 and
/// hexadecimal digits everywhere else.
pub open spec fn is_hyphenated_uuid(s: Seq<char>) -> bool {
    &&& s.len() == 36
    &&& forall|i: int| 0 <= i < 36 ==> if i == 8 || i == 13 || i == 18 || i == 23 {
        #[trigger] s[i] == '-'
    } else {
        is_hex_char(s[i])
    }
}

/// `urn:uuid:`
pub open spec fn urn_prefix() -> Seq<char> {
    seq!['u', 'r', 'n', ':', 'u', 'u', 'i', 'd', ':']
}

/// Whether `uuid::Uuid::parse_str` accepts a text: the simple or the
/// hyphenated form, the hyphenated form in braces, or the hyphenated form
/// after `urn:uuid:` in any ASCII case.
pub open spec fn uuid_valid(s: Seq<char>) -> bool {
    ||| is_simple_uuid(s)
    ||| is_hyphenated_uuid(s)
    ||| (s.len() == 38 && s[0] == '{' && s[37] == '}' && is_hyphenated_uuid(s.subrange(1, 37)))
    ||| (s.len() == 45 && lower_seq(s.take(9)) == urn_prefix() && is_hyphenated_uuid(s.skip(9)))
}

/// A character that can occur in any accepted UUID form (simple,
/// hyphenated, braced, `urn:uuid:`).
pub open spec fn is_uuid_char(c: char) -> bool {
    ||| ('0' <= c && c <= '9')
    ||| ('a' <= c && c <= 'z')
    ||| ('A' <= c && c <= 'Z')
    ||| c == '-' || c == '{' || c == '}' || c == ':'
}

/// Every accepted text is non-empty and made only of UUID characters.
pub proof fn uuid_texts_use_uuid_characters(s: Seq<char>)
    requires
        uuid_valid(s),
    ensures
        s.len() > 0,
        forall|i: int| 0 <= i < s.len() ==> is_uuid_char(#[trigger] s[i]),
{
    assert forall|i: int| 0 <= i < s.len() implies is_uuid_char(#[trigger] s[i]) by {
        if is_simple_uuid(s) {
            assert(is_hex_char(s[i]));
        } else if is_hyphenated_uuid(s) {
            assert(s[i] == '-' || is_hex_char(s[i]));
        } else if s.len() == 38 && s[0] == '{' && s[37] == '}' && is_hyphenated_uuid(s.subrange(1, 37)) {
            if 0 < i < 37 {
                let t = s.subrange(1, 37);
                assert(t[i - 1] == s[i]);
                assert(t[i - 1] == '-' || is_hex_char(t[i - 1]));
            }
        } else {
            if i < 9 {
                let p = s.take(9);
                assert(lower_seq(p)[i] == urn_prefix()[i]);
                assert(lower_char(p[i]) == urn_prefix()[i]);
                assert(p[i] == s[i]);
            } else {
                let t = s.skip(9);
                assert(t[i - 9] == s[i]);
                assert(t[i - 9] == '-' || is_hex_char(t[i - 9]));
            }
        }
    }
}

/// `uuid::Uuid::parse_str` succeeds.
///
/// Trusted: the result is `uuid_valid`, the four forms the parser's source
/// accepts.
#[verifier::external_body]
pub(crate) fn uuid_parses(text: &str) -> (r: bool)
    ensures
        r == uuid_valid(text@),
{
    uuid::Uuid::parse_str(text).is_ok()
}

/// `uuid::Uuid::new_v4().to_string()`.
///
/// Trusted only for this: the text is a hyphenated UUID, which the parser
/// accepts. Its value is random.
#[verifier::external_body]
pub(crate) fn new_uuid() -> (r: String)
    ensures
        uuid_valid(r@),
{
    uuid::Uuid::new_v4().to_string()
}

/// The error for an id that is not a UUID.
pub open spec fn invalid_id_message() -> Seq<char> {
    "invalid internal storage id"@
}

/// Only UUIDs are used as directory and file names.
pub fn validate_id(id: &str) -> (r: AppResult<()>)
    ensures
        r is Ok <==> uuid_valid(id@),
        r is Ok ==> id@.len() > 0 && forall|i: int| 0 <= i < id@.len() ==> is_uuid_char(#[trigger] id@[i]),
        r matches Err(e) ==> e.status == ErrorStatus::InternalServerError && e.details@ == invalid_id_message(),
{
    if uuid_parses(id) {
        proof {
            uuid_texts_use_uuid_characters(id@);
        }
        Ok(())
    } else {
        Err(AppError::internal("invalid internal storage id"))
    }
}

/// Where shelf files live: `SHELVES/<shelf-id>/books/<book-id>.kepub.epub`
/// and `SHELVES/<shelf-id>/uploads/<upload-id>.epub`.
#[derive(Debug, Clone)]
pub struct Storage {
    shelves_dir: String,
}

pub open spec fn spec_shelf_dir(shelves: Seq<char>, shelf_id: Seq<char>) -> Seq<char> {
    path_join(shelves, shelf_id)
}

pub open spec fn spec_books_dir(shelves: Seq<char>, shelf_id: Seq<char>) -> Seq<char> {
    path_join(spec_shelf_dir(shelves, shelf_id), "books"@)
}

pub open spec fn spec_uploads_dir(shelves: Seq<char>, shelf_id: Seq<char>) -> Seq<char> {
    path_join(spec_shelf_dir(shelves, shelf_id), "uploads"@)
}

pub open spec fn spec_book_path(shelves: Seq<char>, shelf_id: Seq<char>, book_id: Seq<char>) -> Seq<char> {
    path_join(spec_books_dir(shelves, shelf_id), book_id + ".kepub.epub"@)
}

pub open spec fn spec_upload_path(shelves: Seq<char>, shelf_id: Seq<char>, upload_id: Seq<char>) -> Seq<char> {
    path_join(spec_uploads_dir(shelves, shelf_id), upload_id + ".epub"@)
}

impl Storage {
    /// Storage below `shelves_dir`.
    pub fn new(shelves_dir: String) -> (r: Storage)
        ensures
            r.dir() == shelves_dir@,
    {
        Storage { shelves_dir }
    }

    /// The directory holding every shelf.
    pub closed spec fn dir(self) -> Seq<char> {
        self.shelves_dir@
    }

    /// The directory holding every shelf.
    pub fn shelves_dir(&self) -> (r: &String)
        ensures
            r@ == self.dir(),
    {
        &self.shelves_dir
    }

    fn shelf_dir(&self, shelf_id: &str) -> (r: AppResult<String>)
        ensures
            r is Ok <==> uuid_valid(shelf_id@),
            r is Ok ==> shelf_id@.len() > 0 && forall|i: int| 0 <= i < shelf_id@.len() ==> is_uuid_char(#[trigger] shelf_id@[i]),
            r matches Ok(p) ==> p@ == spec_shelf_dir(self.dir(), shelf_id@),
            r matches Err(e) ==> e.status == ErrorStatus::InternalServerError && e.details@ == invalid_id_message(),
    {
        validate_id(shelf_id)?;
        Ok(join_path(self.shelves_dir.as_str(), shelf_id))
    }

    /// The directory of a shelf's converted books.
    pub fn books_dir(&self, shelf_id: &str) -> (r: AppResult<String>)
        ensures
            r is Ok <==> uuid_valid(shelf_id@),
            r is Ok ==> shelf_id@.len() > 0 && forall|i: int| 0 <= i < shelf_id@.len() ==> is_uuid_char(#[trigger] shelf_id@[i]),
            r matches Ok(p) ==> p@ == spec_books_dir(self.dir(), shelf_id@),
            r matches Err(e) ==> e.status == ErrorStatus::InternalServerError && e.details@ == invalid_id_message(),
    {
        let d = self.shelf_dir(shelf_id)?;
        Ok(join_path(d.as_str(), "books"))
    }

    /// The directory of a shelf's uploads in progress.
    pub fn uploads_dir(&self, shelf_id: &str) -> (r: AppResult<String>)
        ensures
            r is Ok <==> uuid_valid(shelf_id@),
            r matches Ok(p) ==> p@ == spec_uploads_dir(self.dir(), shelf_id@),
            r matches Err(e) ==> e.status == ErrorStatus::InternalServerError && e.details@ == invalid_id_message(),
    {
        let d = self.shelf_dir(shelf_id)?;
        Ok(join_path(d.as_str(), "uploads"))
    }

    /// Where the upload with id `upload_id` is written.
    pub fn upload_path(&self, shelf_id: &str, upload_id: &str) -> (r: AppResult<String>)
        ensures
            r is Ok <==> uuid_valid(shelf_id@),
            r matches Ok(p) ==> p@ == spec_upload_path(self.dir(), shelf_id@, upload_id@),
            r matches Err(e) ==> e.status == ErrorStatus::InternalServerError && e.details@ == invalid_id_message(),
    {
        let d = self.uploads_dir(shelf_id)?;
        let mut name = chars_of(upload_id);
        extend_str(&mut name, ".epub");
        let n = string_of(&name);
        Ok(join_path(d.as_str(), n.as_str()))
    }

    /// A fresh path for an upload: a random UUID file name in the shelf's
    /// upload directory.
    pub fn new_upload_path(&self, shelf_id: &str) -> (r: AppResult<String>)
        ensures
            r is Ok <==> uuid_valid(shelf_id@),
            r matches Ok(p) ==> exists|id: Seq<char>| uuid_valid(id) && p@ == spec_upload_path(self.dir(), shelf_id@, id),
            r matches Err(e) ==> e.status == ErrorStatus::InternalServerError && e.details@ == invalid_id_message(),
    {
        let id = new_uuid();
        self.upload_path(shelf_id, id.as_str())
    }

    /// A fresh book id (a random UUID) and the path its converted file is
    /// stored at in the shelf.
    pub fn new_book_path(&self, shelf_id: &str) -> (r: AppResult<(String, String)>)
        ensures
            r is Ok <==> uuid_valid(shelf_id@),
            r matches Ok(v) ==> uuid_valid(v.0@) && v.1@ == spec_book_path(self.dir(), shelf_id@, v.0@),
            r matches Err(e) ==> e.status == ErrorStatus::InternalServerError && e.details@ == invalid_id_message(),
    {
        let id = new_uuid();
        let path = self.book_path(shelf_id, id.as_str())?;
        Ok((id, path))
    }

    /// Where a converted book is stored. Both ids must be UUIDs, so no
    /// untrusted text ever becomes part of a path.
    pub fn book_path(&self, shelf_id: &str, book_id: &str) -> (r: AppResult<String>)
        ensures
            r is Ok <==> uuid_valid(shelf_id@) && uuid_valid(book_id@),
            r is Ok ==> shelf_id@.len() > 0 && forall|i: int| 0 <= i < shelf_id@.len() ==> is_uuid_char(#[trigger] shelf_id@[i]),
            r is Ok ==> book_id@.len() > 0 && forall|i: int| 0 <= i < book_id@.len() ==> is_uuid_char(#[trigger] book_id@[i]),
            r matches Ok(p) ==> p@ == spec_book_path(self.dir(), shelf_id@, book_id@),
            r matches Err(e) ==> e.status == ErrorStatus::InternalServerError && e.details@ == invalid_id_message(),
    {
        validate_id(book_id)?;
        let d = self.books_dir(shelf_id)?;
        let mut name = chars_of(book_id);
        extend_str(&mut name, ".kepub.epub");
        let n = string_of(&name);
        Ok(join_path(d.as_str(), n.as_str()))
    }
}

/// The directory text a relative path is appended to: the directory with a
/// `/` after it, unless it is empty or already ends with one.
pub open spec fn dir_prefix(dir: Seq<char>) -> Seq<char> {
    if dir.len() > 0 && dir.last() != '/' { dir + seq!['/'] } else { dir }
}

/// A book's path is the shelves directory, the shelf id, `books`, and the
/// book id with `.kepub.epub`, and for ids made of UUID characters neither
/// id can hold a `/` or a `.`: no path leaves its shelf's directory.
pub proof fn book_paths_stay_in_their_shelf(dir: Seq<char>, shelf_id: Seq<char>, book_id: Seq<char>)
    requires
        shelf_id.len() > 0,
        book_id.len() > 0,
        forall|i: int| 0 <= i < shelf_id.len() ==> is_uuid_char(#[trigger] shelf_id[i]),
        forall|i: int| 0 <= i < book_id.len() ==> is_uuid_char(#[trigger] book_id[i]),
    ensures
        spec_book_path(dir, shelf_id, book_id) == dir_prefix(dir) + shelf_id + "/books/"@ + book_id + ".kepub.epub"@,
        !shelf_id.contains('/') && !shelf_id.contains('.'),
        !book_id.contains('/') && !book_id.contains('.'),
{
    assert(shelf_id[0] != '/');
    assert(book_id[0] != '/');
    let sd = path_join(dir, shelf_id);
    assert(sd == dir_prefix(dir) + shelf_id);
    assert(sd.len() > 0 && sd.last() == shelf_id.last());
    assert(shelf_id.last() != '/') by {
        assert(is_uuid_char(shelf_id[shelf_id.len() - 1]));
    }
    reveal_strlit("books");
    reveal_strlit("/books/");
    reveal_strlit(".kepub.epub");
    let bd = path_join(sd, "books"@);
    assert(bd == sd + seq!['/'] + "books"@);
    let name = book_id + ".kepub.epub"@;
    assert(name[0] == book_id[0]);
    assert(bd.last() == 's');
    assert(path_join(bd, name) == bd + seq!['/'] + name);
    assert(path_join(bd, name) =~= dir_prefix(dir) + shelf_id + "/books/"@ + book_id + ".kepub.epub"@);
    if shelf_id.contains('/') {
        let k = choose|k: int| 0 <= k < shelf_id.len() && shelf_id[k] == '/';
        assert(is_uuid_char(shelf_id[k]));
    }
    if shelf_id.contains('.') {
        let k = choose|k: int| 0 <= k < shelf_id.len() && shelf_id[k] == '.';
        assert(is_uuid_char(shelf_id[k]));
    }
    if book_id.contains('/') {
        let k = choose|k: int| 0 <= k < book_id.len() && book_id[k] == '/';
        assert(is_uuid_char(book_id[k]));
    }
    if book_id.contains('.') {
        let k = choose|k: int| 0 <= k < book_id.len() && book_id[k] == '.';
        assert(is_uuid_char(book_id[k]));
    }
}

} // verus!
