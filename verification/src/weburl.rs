//! What the library reads of URLs, through the `url` crate.

use vstd::prelude::*;

verus! {

/// What `url::Url::parse` makes of a text, read through `scheme` (lower
/// case, as the crate normalises it), `host_str` and `cannot_be_a_base`;
/// `None` when the text does not parse.
pub uninterp spec fn url_parts(text: Seq<char>) -> Option<(Seq<char>, Option<Seq<char>>, bool)>;

/// The text parses as a URL.
pub open spec fn url_parses(text: Seq<char>) -> bool {
    url_parts(text) is Some
}

/// The scheme of a URL that parses.
pub open spec fn url_scheme(text: Seq<char>) -> Seq<char> {
    url_parts(text).unwrap().0
}

/// The host of a URL that parses.
pub open spec fn url_host(text: Seq<char>) -> Option<Seq<char>> {
    url_parts(text).unwrap().1
}

/// Whether a URL that parses cannot be a base.
pub open spec fn url_cannot_be_a_base(text: Seq<char>) -> bool {
    url_parts(text).unwrap().2
}

/// The serialisation of the parsed text after `set_path(path)`.
pub uninterp spec fn url_with_path(text: Seq<char>, path: Seq<char>) -> Seq<char>;

/// The serialisation of the parsed text after `set_query(None)`.
pub uninterp spec fn url_without_query(text: Seq<char>) -> Seq<char>;

/// The serialisation of the parsed text after `set_fragment(None)`.
pub uninterp spec fn url_without_fragment(text: Seq<char>) -> Seq<char>;

/// The parts of a parsed URL that the library looks at.
#[derive(Debug)]
pub struct ParsedUrl {
    pub scheme: String,
    pub host: Option<String>,
    pub cannot_be_a_base: bool,
}

/// `url::Url::parse`, read through `scheme`, `host_str` and
/// `cannot_be_a_base`; a refusal is returned as the error's text.
///
/// Trusted: success and the parts are what `url_parts` names; nothing is
/// stated of the error text.
#[verifier::external_body]
pub(crate) fn parse_url(text: &str) -> (r: Result<ParsedUrl, String>)
    ensures
        r is Ok <==> url_parts(text@) is Some,
        r matches Ok(p) ==> url_parts(text@) == Some((p.scheme@, crate::text::opt_chars(p.host), p.cannot_be_a_base)),
{
    match url::Url::parse(text) {
        Ok(u) => Ok(ParsedUrl {
            scheme: u.scheme().to_string(),
            host: u.host_str().map(|h| h.to_string()),
            cannot_be_a_base: u.cannot_be_a_base(),
        }),
        Err(e) => Err(e.to_string()),
    }
}

/// `url::Url::set_path` on the parsed text, serialised again.
///
/// Trusted: the call succeeds exactly when the text parses, and the result
/// is the text named by `url_with_path`. The serialisation of a `Url` parses
/// again: the crate holds every `Url` to that (`check_invariants` asserts
/// it). Nothing is stated of the error text.
#[verifier::external_body]
pub(crate) fn set_url_path(text: &str, path: &str) -> (r: Result<String, String>)
    ensures
        r is Ok <==> url_parses(text@),
        r matches Ok(u) ==> u@ == url_with_path(text@, path@),
        r matches Ok(u) ==> url_parses(u@),
{
    let mut u = url::Url::parse(text).map_err(|e| e.to_string())?;
    u.set_path(path);
    Ok(u.to_string())
}

/// `url::Url::set_query(None)` on the parsed text, serialised again.
///
/// Trusted: the call succeeds exactly when the text parses, and the result
/// is the text named by `url_without_query`, which parses again, as every
/// serialised `Url` does. Nothing is stated of the error text.
#[verifier::external_body]
pub(crate) fn clear_url_query(text: &str) -> (r: Result<String, String>)
    ensures
        r is Ok <==> url_parses(text@),
        r matches Ok(u) ==> u@ == url_without_query(text@),
        r matches Ok(u) ==> url_parses(u@),
{
    let mut u = url::Url::parse(text).map_err(|e| e.to_string())?;
    u.set_query(None);
    Ok(u.to_string())
}

/// `url::Url::set_fragment(None)` on the parsed text, serialised again.
///
/// Trusted: the call succeeds exactly when the text parses, and the result
/// is the text named by `url_without_fragment`, which parses again, as every
/// serialised `Url` does. Nothing is stated of the error text.
#[verifier::external_body]
pub(crate) fn clear_url_fragment(text: &str) -> (r: Result<String, String>)
    ensures
        r is Ok <==> url_parses(text@),
        r matches Ok(u) ==> u@ == url_without_fragment(text@),
        r matches Ok(u) ==> url_parses(u@),
{
    let mut u = url::Url::parse(text).map_err(|e| e.to_string())?;
    u.set_fragment(None);
    Ok(u.to_string())
}

} // verus!
