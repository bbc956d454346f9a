//! What the HTTP handlers decide: shelf URLs, hosts, ETags, headers,
//! upload accounting, access codes and rate-limit answers.

use vstd::prelude::*;
use crate::books::{epub_suffix, epub_suffix_chars, fallback_name, header_safe_filename, spec_header_safe};
use crate::config::Config;
use crate::crypto::{constant_time_eq, sha256_of_text, sha256_text};
use crate::error::{AppError, AppResult, ErrorStatus};
use crate::observability::{allow_decision, limiter_key, Metrics, RateLimiter, windows_after};
use crate::text::{find_from, find_seq, lower_seq, seq_ends_with};
use crate::weburl::{
    clear_url_fragment, clear_url_query, parse_url, set_url_path, url_cannot_be_a_base, url_parses, url_scheme,
    url_with_path, url_without_fragment, url_without_query,
};
use crate::text::{
    chars_of, extend_chars, extend_str, int_decimal, nat_decimal, parse_bounded, parse_unsigned,
    push_i64_decimal, push_u64_decimal, slice_chars, string_of, trim, trim_chars,
};

verus! {

/// The index of the last `c` in `s`.
pub open spec fn rfind_char(s: Seq<char>, c: char) -> Option<int>
    decreases s.len(),
{
    if s.len() == 0 {
        None
    } else if s.last() == c {
        Some(s.len() - 1)
    } else {
        rfind_char(s.drop_last(), c)
    }
}

/// The index of the last `]:` in `s`.
pub open spec fn rfind_bracket_colon(s: Seq<char>) -> Option<int>
    decreases s.len(),
{
    if s.len() < 2 {
        None
    } else if s[s.len() - 2] == ']' && s.last() == ':' {
        Some(s.len() - 2)
    } else {
        rfind_bracket_colon(s.drop_last())
    }
}

/// A host names a port: `[address]:port` for a bracketed address, otherwise
/// `name:port` with no other `:`; the port must be a valid `u16`.
pub open spec fn spec_host_has_port(h: Seq<char>) -> bool {
    if h.len() > 0 && h[0] == '[' {
        match rfind_bracket_colon(h) {
            Some(i) => parse_unsigned(h.skip(i + 2), 65535) is Some,
            None => false,
        }
    } else {
        match rfind_char(h, ':') {
            Some(i) => !h.take(i).contains(':') && parse_unsigned(h.skip(i + 1), 65535) is Some,
            None => false,
        }
    }
}

/// The host to put in a shelf URL: the trimmed request host with the
/// configured port added when it names none; `raspi.local` when it is empty.
pub open spec fn spec_host_with_port(host: Seq<char>, port: u16) -> Seq<char> {
    let h = trim(host);
    if h.len() == 0 {
        "raspi.local:"@ + nat_decimal(port as nat)
    } else if spec_host_has_port(h) {
        h
    } else {
        h + seq![':'] + nat_decimal(port as nat)
    }
}

fn rfind_char_exec(v: &Vec<char>, c: char) -> (r: Option<usize>)
    ensures
        r matches Some(i) ==> rfind_char(v@, c) == Some(i as int),
        r is None ==> rfind_char(v@, c) is None,
{
    let mut n = v.len();
    assert(v@.take(n as int) == v@);
    while n > 0
        invariant
            n <= v@.len(),
            rfind_char(v@, c) == rfind_char(v@.take(n as int), c),
        decreases n,
    {
        proof {
            assert(v@.take(n as int).last() == v@[n - 1]);
            assert(v@.take(n as int).drop_last() == v@.take(n - 1));
        }
        if v[n - 1] == c {
            return Some(n - 1);
        }
        n = n - 1;
    }
    None
}

fn rfind_bracket_colon_exec(v: &Vec<char>) -> (r: Option<usize>)
    ensures
        r matches Some(i) ==> rfind_bracket_colon(v@) == Some(i as int) && i + 2 <= v@.len(),
        r is None ==> rfind_bracket_colon(v@) is None,
{
    let mut n = v.len();
    assert(v@.take(n as int) == v@);
    while n >= 2
        invariant
            n <= v@.len(),
            rfind_bracket_colon(v@) == rfind_bracket_colon(v@.take(n as int)),
        decreases n,
    {
        proof {
            let t = v@.take(n as int);
            assert(t.last() == v@[n - 1]);
            assert(t[t.len() - 2] == v@[n - 2]);
            assert(t.drop_last() == v@.take(n - 1));
        }
        if v[n - 2] == ']' && v[n - 1] == ':' {
            return Some(n - 2);
        }
        n = n - 1;
    }
    None
}

fn contains_char(v: &Vec<char>, end: usize, c: char) -> (r: bool)
    requires
        end <= v@.len(),
    ensures
        r == v@.take(end as int).contains(c),
{
    let mut i: usize = 0;
    while i < end
        invariant
            i <= end <= v@.len(),
            forall|k: int| 0 <= k < i ==> v@[k] != c,
        decreases end - i,
    {
        if v[i] == c {
            assert(v@.take(end as int)[i as int] == c);
            return true;
        }
        i = i + 1;
    }
    proof {
        if v@.take(end as int).contains(c) {
            let k = choose|k: int| 0 <= k < end && v@.take(end as int)[k] == c;
            assert(v@[k] == c);
        }
    }
    false
}

fn port_parses(v: &Vec<char>, start: usize) -> (r: bool)
    requires
        start <= v@.len(),
    ensures
        r == (parse_unsigned(v@.skip(start as int), 65535) is Some),
{
    let tail = slice_chars(v, start, v.len());
    assert(tail@ == v@.skip(start as int));
    let text = string_of(&tail);
    parse_bounded(text.as_str(), 65535).is_some()
}

fn chars_have_port(host: &Vec<char>) -> (r: bool)
    ensures
        r == spec_host_has_port(host@),
{
    if host.len() > 0 && host[0] == '[' {
        match rfind_bracket_colon_exec(host) {
            Some(i) => port_parses(host, i + 2),
            None => false,
        }
    } else {
        match rfind_char_exec(host, ':') {
            Some(i) => {
                proof {
                    assert(rfind_char(host@, ':') == Some(i as int));
                    lemma_rfind_char_in_range(host@, ':');
                }
                !contains_char(host, i, ':') && port_parses(host, i + 1)
            },
            None => false,
        }
    }
}

/// Whether a host names its port.
pub fn host_has_port(host: &str) -> (r: bool)
    ensures
        r == spec_host_has_port(host@),
{
    let h = chars_of(host);
    chars_have_port(&h)
}

proof fn lemma_rfind_char_in_range(s: Seq<char>, c: char)
    ensures
        rfind_char(s, c) matches Some(i) ==> 0 <= i < s.len() && s[i] == c,
    decreases s.len(),
{
    if s.len() > 0 && s.last() != c {
        lemma_rfind_char_in_range(s.drop_last(), c);
    }
}

/// The request host with the configured port added when it names none.
pub fn host_with_port(host: &str, port: u16) -> (r: String)
    ensures
        r@ == spec_host_with_port(host@, port),
{
    let raw = chars_of(host);
    let h = trim_chars(&raw);
    if h.len() == 0 {
        let mut out: Vec<char> = Vec::new();
        extend_str(&mut out, "raspi.local:");
        push_u64_decimal(&mut out, port as u64);
        return string_of(&out);
    }
    if chars_have_port(&h) {
        string_of(&h)
    } else {
        let mut out = h;
        out.push(':');
        push_u64_decimal(&mut out, port as u64);
        string_of(&out)
    }
}

/// The XML escape of one character.
pub open spec fn escape_xml_char(c: char) -> Seq<char> {
    if c == '&' {
        "&amp;"@
    } else if c == '<' {
        "&lt;"@
    } else if c == '>' {
        "&gt;"@
    } else if c == '"' {
        "&quot;"@
    } else if c == '\'' {
        "&apos;"@
    } else {
        seq![c]
    }
}

/// The text with `&`, `<`, `>`, `"` and `'` replaced by their entities.
pub open spec fn spec_escape_xml(s: Seq<char>) -> Seq<char>
    decreases s.len(),
{
    if s.len() == 0 {
        s
    } else {
        spec_escape_xml(s.drop_last()) + escape_xml_char(s.last())
    }
}

/// Escapes text for use inside XML.
pub fn escape_xml(value: &str) -> (r: String)
    ensures
        r@ == spec_escape_xml(value@),
{
    let v = chars_of(value);
    let mut out: Vec<char> = Vec::new();
    let mut i: usize = 0;
    while i < v.len()
        invariant
            i <= v@.len(),
            out@ == spec_escape_xml(v@.take(i as int)),
        decreases v.len() - i,
    {
        let c = v[i];
        let ghost t = v@.take(i + 1);
        proof {
            assert(t.drop_last() == v@.take(i as int));
            assert(t.last() == c);
        }
        let ghost before = out@;
        if c == '&' {
            extend_str(&mut out, "&amp;");
        } else if c == '<' {
            extend_str(&mut out, "&lt;");
        } else if c == '>' {
            extend_str(&mut out, "&gt;");
        } else if c == '"' {
            extend_str(&mut out, "&quot;");
        } else if c == '\'' {
            extend_str(&mut out, "&apos;");
        } else {
            out.push(c);
        }
        assert(out@ == before + escape_xml_char(c));
        i = i + 1;
    }
    assert(v@.take(v@.len() as int) == v@);
    string_of(&out)
}

/// `<svg`
pub open spec fn svg_open() -> Seq<char> {
    seq!['<', 's', 'v', 'g']
}

/// The image with a `<desc>` holding the escaped URL placed right after the
/// opening `<svg ...>` tag; unchanged when there is no such tag.
pub open spec fn spec_with_svg_description(image: Seq<char>, url: Seq<char>) -> Seq<char> {
    match find_seq(image, svg_open()) {
        Some(start) => match find_seq(image.skip(start), seq!['>']) {
            Some(offset) => {
                let index = start + offset + 1;
                image.take(index) + "<desc>"@ + spec_escape_xml(url) + "</desc>"@ + image.skip(index)
            },
            None => image,
        },
        None => image,
    }
}


/// Adds a `<desc>` naming the URL to a rendered QR-code image, right after the
/// opening `<svg ...>` tag.
pub fn with_svg_description(image: String, url: &str) -> (r: String)
    ensures
        r@ == spec_with_svg_description(image@, url@),
{
    let v = chars_of(image.as_str());
    let open = vec!['<', 's', 'v', 'g'];
    assert(open@ == svg_open());
    let start = match find_from(&v, &open, 0) {
        Some(s) => s,
        None => {
            assert(v@.skip(0) == v@);
            return image;
        },
    };
    assert(v@.skip(0) == v@);
    let close = vec!['>'];
    assert(close@ == seq!['>']);
    let index = match find_from(&v, &close, start) {
        Some(e) => e + 1,
        None => return image,
    };
    let mut out = slice_chars(&v, 0, index);
    extend_str(&mut out, "<desc>");
    let escaped = escape_xml(url);
    extend_str(&mut out, escaped.as_str());
    extend_str(&mut out, "</desc>");
    let rest = slice_chars(&v, index, v.len());
    extend_chars(&mut out, &rest);
    proof {
        assert(v@.subrange(0, index as int) == v@.take(index as int));
        assert(v@.subrange(index as int, v@.len() as int) == v@.skip(index as int));
    }
    string_of(&out)
}

/// `attachment; filename="NAME"` with the header-safe form of the name.
pub fn content_disposition(filename: &str) -> (r: String)
    ensures
        r@ == "attachment; filename=\""@ + spec_header_safe(filename@) + "\""@,
{
    let mut out: Vec<char> = Vec::new();
    extend_str(&mut out, "attachment; filename=\"");
    let safe = header_safe_filename(filename);
    extend_str(&mut out, safe.as_str());
    extend_str(&mut out, "\"");
    string_of(&out)
}

/// Whole seconds of a time in microseconds, rounded down, as
/// `DateTime::timestamp` gives them.
pub open spec fn micros_to_secs(micros: int) -> int {
    micros / 1_000_000
}

pub fn timestamp_secs(micros: i64) -> (r: i64)
    ensures
        r == micros_to_secs(micros as int),
{
    if micros >= 0 {
        micros / 1_000_000
    } else {
        let m: i64 = -(micros + 1);
        let q: i64 = m / 1_000_000;
        proof {
            assert(-q - 1 == (micros as int) / 1_000_000) by (nonlinear_arith)
                requires m == -(micros + 1), q == m / 1_000_000, micros < 0, m >= 0;
        }
        -q - 1
    }
}

/// The entity tag of a shelf listing: `"REVISION-EXPIRY"` with the expiry in
/// whole seconds.
pub open spec fn spec_shelf_etag(revision: i64, expires_at: i64) -> Seq<char> {
    seq!['"'] + int_decimal(revision as int) + seq!['-'] + int_decimal(micros_to_secs(expires_at as int))
        + seq!['"']
}

/// The entity tag of a shelf listing; it changes whenever the revision or the
/// expiry second does.
pub fn shelf_etag(revision: i64, expires_at: i64) -> (r: String)
    ensures
        r@ == spec_shelf_etag(revision, expires_at),
{
    let mut out: Vec<char> = vec!['"'];
    push_i64_decimal(&mut out, revision);
    out.push('-');
    push_i64_decimal(&mut out, timestamp_secs(expires_at));
    out.push('"');
    proof {
        assert(out@ =~= spec_shelf_etag(revision, expires_at));
    }
    string_of(&out)
}

/// A poll is answered `304 Not Modified` when its `If-None-Match` header is
/// exactly the current entity tag.
pub fn is_not_modified(if_none_match: Option<&str>, etag: &str) -> (r: bool)
    ensures
        r == (if_none_match matches Some(t) && t@ == etag@),
{
    match if_none_match {
        Some(t) => {
            let a = String::from_str(t);
            let b = String::from_str(etag);
            a == b
        },
        None => false,
    }
}

/// Whether two secrets are the same, compared by their SHA-256 digests in
/// constant time.
pub fn secret_matches(expected: &str, supplied: &str) -> (r: bool)
    ensures
        r == (sha256_of_text(expected@) == sha256_of_text(supplied@)),
{
    let e = sha256_text(expected);
    let s = sha256_text(supplied);
    constant_time_eq(e.as_slice(), s.as_slice())
}

/// The access-code gate of shelf creation: refused as not found when no code
/// is configured or the supplied one differs.
pub fn check_access_code(expected: Option<&str>, supplied: &str) -> (r: AppResult<()>)
    ensures
        expected is None ==> (r matches Err(e) && e.status == ErrorStatus::NotFound && e.message@ == "Not found."@),
        expected matches Some(x) ==> (r is Ok <==> sha256_of_text(x@) == sha256_of_text(supplied@)),
        expected matches Some(x) ==> (r matches Err(e) ==> e.status == ErrorStatus::NotFound
            && e.message@ == "Invalid access code."@),
{
    match expected {
        None => Err(AppError::not_found("Not found.")),
        Some(x) => if secret_matches(x, supplied) {
            Ok(())
        } else {
            Err(AppError::not_found("Invalid access code."))
        },
    }
}

/// `/s/TOKEN/`
pub open spec fn shelf_path(token: Seq<char>) -> Seq<char> {
    "/s/"@ + token + seq!['/']
}

/// The configured base URL with its path replaced by the shelf path, then
/// its query and then its fragment removed.
pub open spec fn based_shelf_url(b: Seq<char>, token: Seq<char>) -> Seq<char> {
    url_without_fragment(url_without_query(url_with_path(b, shelf_path(token))))
}

/// The URL a QR code sends a device to: the configured public base URL with
/// its path replaced by the shelf path and no query or fragment, or, without
/// one, `http://` and the request host (with the configured port added when
/// it names none).
pub open spec fn spec_public_shelf_url(base: Option<Seq<char>>, host: Option<Seq<char>>, port: u16, token: Seq<char>) -> Seq<char> {
    match base {
        Some(b) => based_shelf_url(b, token),
        None => {
            let h = match host { Some(h) => h, None => "raspi.local:3001"@ };
            "http://"@ + spec_host_with_port(h, port) + shelf_path(token)
        },
    }
}

/// The base URL is usable: it parses as an `http` or `https` URL that can
/// be a base.
pub open spec fn usable_base_url(b: Seq<char>) -> bool {
    url_parses(b) && (url_scheme(b) == "http"@ || url_scheme(b) == "https"@) && !url_cannot_be_a_base(b)
}

fn shelf_path_exec(token: &str) -> (r: String)
    ensures
        r@ == shelf_path(token@),
{
    let mut v: Vec<char> = Vec::new();
    extend_str(&mut v, "/s/");
    extend_str(&mut v, token);
    v.push('/');
    string_of(&v)
}

/// The URL that joins a device to the shelf of `token`. The configured
/// public base URL, when there is one, decides the origin; the request's
/// `Host` is used only without it.
pub fn public_shelf_url(config: &Config, host: Option<&str>, token: &str) -> (r: AppResult<String>)
    ensures
        config.public_base_url matches Some(b) ==> (r is Ok <==> usable_base_url(b@)),
        config.public_base_url matches Some(b) ==> (r matches Err(e) ==> e.status == ErrorStatus::InternalServerError),
        config.public_base_url matches Some(b) ==> (r matches Ok(u) ==> u@ == spec_public_shelf_url(Some(b@), None, config.port, token@)),
        config.public_base_url is None ==> (r matches Ok(u) && u@ == spec_public_shelf_url(None, match host { Some(h) => Some(h@), None => None }, config.port, token@)),
{
    let path = shelf_path_exec(token);
    if let Some(base) = &config.public_base_url {
        let parsed = match parse_url(base.as_str()) {
            Ok(p) => p,
            Err(message) => return Err(AppError::internal(message.as_str())),
        };
        let http = String::from_str("http");
        let https = String::from_str("https");
        if !(parsed.scheme == http || parsed.scheme == https) || parsed.cannot_be_a_base {
            return Err(AppError::internal("PUBLIC_BASE_URL must be an HTTP(S) base URL"));
        }
        let with_path = match set_url_path(base.as_str(), path.as_str()) {
            Ok(u) => u,
            Err(message) => return Err(AppError::internal(message.as_str())),
        };
        let without_query = match clear_url_query(with_path.as_str()) {
            Ok(u) => u,
            Err(message) => return Err(AppError::internal(message.as_str())),
        };
        return match clear_url_fragment(without_query.as_str()) {
            Ok(u) => Ok(u),
            Err(message) => Err(AppError::internal(message.as_str())),
        };
    }
    let h: &str = match host {
        Some(h) => h,
        None => "raspi.local:3001",
    };
    let mut v: Vec<char> = Vec::new();
    extend_str(&mut v, "http://");
    let hp = host_with_port(h, config.port);
    extend_str(&mut v, hp.as_str());
    extend_str(&mut v, path.as_str());
    Ok(string_of(&v))
}

/// The SVG image `qrcode` renders for a text, at least `size` by `size`
/// pixels, dark modules in colour `dark` on colour `light`; `None` when the
/// text cannot be encoded.
pub uninterp spec fn qr_svg_image(text: Seq<char>, size: u32, dark: Seq<char>, light: Seq<char>) -> Option<Seq<char>>;

/// `qrcode::QrCode::new` on the text's bytes, rendered as SVG with
/// `min_dimensions(size, size)`, `dark_color(dark)` and `light_color(light)`.
///
/// Trusted: success and the image are what `qr_svg_image` names; nothing is
/// stated of the error text.
#[verifier::external_body]
fn render_qr_svg(text: &str, size: u32, dark: &str, light: &str) -> (r: Result<String, String>)
    ensures
        r is Ok <==> qr_svg_image(text@, size, dark@, light@) is Some,
        r matches Ok(s) ==> qr_svg_image(text@, size, dark@, light@) == Some(s@),
{
    let code = qrcode::QrCode::new(text.as_bytes()).map_err(|e| e.to_string())?;
    Ok(code
        .render::<qrcode::render::svg::Color>()
        .min_dimensions(size, size)
        .dark_color(qrcode::render::svg::Color(dark))
        .light_color(qrcode::render::svg::Color(light))
        .build())
}

/// The smallest width and height of a shelf's QR image, in pixels.
pub const QR_MIN_SIZE: u32 = 220;

/// The colour of a QR code's dark modules.
pub open spec fn qr_dark_color() -> Seq<char> {
    "#111111"@
}

/// The colour of a QR code's light modules.
pub open spec fn qr_light_color() -> Seq<char> {
    "#ffffff"@
}

/// The QR image of a shelf URL: at least 220 by 220 pixels, `#111111` on
/// `#ffffff`.
pub open spec fn shelf_qr_image(url: Seq<char>) -> Option<Seq<char>> {
    qr_svg_image(url, QR_MIN_SIZE, qr_dark_color(), qr_light_color())
}

/// The QR code of a shelf URL as an SVG image, at least 220 by 220 pixels
/// with `#111111` modules on `#ffffff`, that also names the URL in a
/// `<desc>` element.
pub fn qr_code_image(url: &str) -> (r: AppResult<String>)
    ensures
        r is Ok <==> shelf_qr_image(url@) is Some,
        r matches Ok(s) ==> s@ == spec_with_svg_description(shelf_qr_image(url@).unwrap(), url@),
        r matches Err(e) ==> e.status == ErrorStatus::InternalServerError,
{
    match render_qr_svg(url, QR_MIN_SIZE, "#111111", "#ffffff") {
        Ok(image) => Ok(with_svg_description(image, url)),
        Err(message) => Err(AppError::internal(message.as_str())),
    }
}

/// Only `page.svg` is a QR target.
pub fn check_qr_target(target: &str) -> (r: AppResult<()>)
    ensures
        r is Ok <==> target@ == "page.svg"@,
        r matches Err(e) ==> e.status == ErrorStatus::NotFound && e.message@ == "QR target not found"@,
{
    let t = String::from_str(target);
    let page = String::from_str("page.svg");
    if t == page {
        Ok(())
    } else {
        Err(AppError::not_found("QR target not found"))
    }
}

/// The configured public base URL, viewed.
pub open spec fn configured_base(config: Config) -> Option<Seq<char>> {
    match config.public_base_url {
        Some(b) => Some(b@),
        None => None,
    }
}

/// The request's `Host` header, viewed.
pub open spec fn host_view(host: Option<&str>) -> Option<Seq<char>> {
    match host {
        Some(h) => Some(h@),
        None => None,
    }
}

/// The QR image answered for `target` on the shelf of `token`: only
/// `page.svg` exists (anything else is 404 `QR target not found`); its image
/// encodes the shelf's public URL and names it in a `<desc>` element. A
/// configured base URL that cannot be used is an internal error.
pub fn shelf_qr_code(config: &Config, host: Option<&str>, token: &str, target: &str) -> (r: AppResult<String>)
    ensures
        target@ != "page.svg"@ ==> (r matches Err(e) && e.status == ErrorStatus::NotFound
            && e.message@ == "QR target not found"@),
        target@ == "page.svg"@ && (configured_base(*config) matches Some(b) && !usable_base_url(b)) ==> (r matches Err(e)
            && e.status == ErrorStatus::InternalServerError),
        target@ == "page.svg"@ && !(configured_base(*config) matches Some(b) && !usable_base_url(b)) ==> {
            let url = spec_public_shelf_url(configured_base(*config), host_view(host), config.port, token@);
            &&& (r is Ok <==> shelf_qr_image(url) is Some)
            &&& (r matches Ok(s) ==> s@ == spec_with_svg_description(shelf_qr_image(url).unwrap(), url))
            &&& (r matches Err(e) ==> e.status == ErrorStatus::InternalServerError)
        },
{
    check_qr_target(target)?;
    let url = public_shelf_url(config, host, token)?;
    qr_code_image(url.as_str())
}

/// Counts a request against its rate limit. A refused request is counted in
/// `requests_rejected` and answered `429 Too Many Requests`; an allowed one
/// leaves the counters alone.
pub fn enforce_rate(
    limiter: &mut RateLimiter,
    metrics: &mut Metrics,
    category: &str,
    secret: &str,
    limit: u32,
    seconds: u64,
    now: u64,
) -> (r: AppResult<()>)
    requires
        seconds <= 18_000_000_000,
    ensures
        r is Ok == allow_decision(old(limiter).windows_view(), limiter_key(category@, secret@), limit as int, seconds * 1_000_000_000, now as int),
        final(limiter).windows_view() == windows_after(old(limiter).windows_view(), limiter_key(category@, secret@), limit as int, seconds * 1_000_000_000, now as int),
        r is Ok ==> *final(metrics) == *old(metrics),
        r matches Err(e) ==> e.status == ErrorStatus::TooManyRequests && e.message@ == "Too many requests. Try again later."@
            && final(metrics).requests_rejected == (old(metrics).requests_rejected + 1) % 0x1_0000_0000_0000_0000
            && final(metrics).uploads_completed == old(metrics).uploads_completed
            && final(metrics).uploads_failed == old(metrics).uploads_failed
            && final(metrics).downloads_started == old(metrics).downloads_started
            && final(metrics).cleanup_failures == old(metrics).cleanup_failures
            && final(metrics).shelves_cleaned == old(metrics).shelves_cleaned
            && final(metrics).conversion_millis == old(metrics).conversion_millis,
{
    if limiter.allow(category, secret, limit, seconds * 1_000_000_000, now) {
        return Ok(());
    }
    Metrics::increment(&mut metrics.requests_rejected);
    Err(AppError::too_many_requests("Too many requests. Try again later."))
}

/// The headers every response carries.
pub open spec fn security_header_list() -> Seq<(Seq<char>, Seq<char>)> {
    seq![
        ("content-security-policy"@, "default-src 'self'; script-src 'self'; style-src 'self'; img-src 'self'; object-src 'none'; base-uri 'none'; frame-ancestors 'none'; form-action 'self'"@),
        ("x-content-type-options"@, "nosniff"@),
        ("x-frame-options"@, "DENY"@),
        ("x-robots-tag"@, "noindex, nofollow, noarchive"@),
        ("permissions-policy"@, "camera=(), microphone=(), geolocation=()"@),
    ]
}

/// The headers of responses that must not be cached or leak a referrer.
pub open spec fn private_header_list() -> Seq<(Seq<char>, Seq<char>)> {
    seq![("cache-control"@, "no-store"@), ("referrer-policy"@, "no-referrer"@)]
}

/// The names and values of a header list.
pub open spec fn header_view(v: Seq<(String, String)>) -> Seq<(Seq<char>, Seq<char>)> {
    v.map_values(|h: (String, String)| (h.0@, h.1@))
}

fn header(name: &str, value: &str) -> (r: (String, String))
    ensures
        r.0@ == name@ && r.1@ == value@,
{
    (String::from_str(name), String::from_str(value))
}

/// The security headers added to every response: a restrictive content
/// security policy, no MIME sniffing, no framing, no indexing, and no
/// camera, microphone or location access.
pub fn security_headers() -> (r: Vec<(String, String)>)
    ensures
        header_view(r@) == security_header_list(),
{
    let mut r: Vec<(String, String)> = Vec::new();
    r.push(header("content-security-policy", "default-src 'self'; script-src 'self'; style-src 'self'; img-src 'self'; object-src 'none'; base-uri 'none'; frame-ancestors 'none'; form-action 'self'"));
    r.push(header("x-content-type-options", "nosniff"));
    r.push(header("x-frame-options", "DENY"));
    r.push(header("x-robots-tag", "noindex, nofollow, noarchive"));
    r.push(header("permissions-policy", "camera=(), microphone=(), geolocation=()"));
    assert(header_view(r@) =~= security_header_list());
    r
}

/// The headers that keep shelf responses out of caches and referrers.
pub fn private_headers() -> (r: Vec<(String, String)>)
    ensures
        header_view(r@) == private_header_list(),
{
    let mut r: Vec<(String, String)> = Vec::new();
    r.push(header("cache-control", "no-store"));
    r.push(header("referrer-policy", "no-referrer"));
    assert(header_view(r@) =~= private_header_list());
    r
}

/// Only the multipart field named `file` carries the upload.
pub fn is_upload_field(name: Option<&str>) -> (r: bool)
    ensures
        r == (name matches Some(n) && n@ == "file"@),
{
    match name {
        Some(n) => {
            let a = String::from_str(n);
            let b = String::from_str("file");
            a == b
        },
        None => false,
    }
}

/// The name an upload is accepted under: its file name, `book.epub` when it
/// has none. Names not ending in `.epub` (ignoring ASCII case) are refused.
pub fn upload_file_name(file_name: Option<&str>) -> (r: AppResult<String>)
    ensures
        ({
            let name = match file_name { Some(n) => n@, None => fallback_name() };
            &&& r is Ok <==> seq_ends_with(lower_seq(name), epub_suffix())
            &&& r matches Ok(s) ==> s@ == name
            &&& r matches Err(e) ==> e.status == ErrorStatus::BadRequest && e.message@ == "Only EPUB files are supported."@
        }),
{
    let name: String = match file_name {
        Some(n) => String::from_str(n),
        None => {
            let f = vec!['b', 'o', 'o', 'k', '.', 'e', 'p', 'u', 'b'];
            assert(f@ == fallback_name());
            string_of(&f)
        },
    };
    let v = chars_of(name.as_str());
    let suffix = epub_suffix_chars();
    if crate::books::ends_with_ignore_case(&v, &suffix) {
        Ok(name)
    } else {
        Err(AppError::bad_request("Only EPUB files are supported."))
    }
}

/// The answer to a request that carried no upload.
pub fn missing_upload() -> (r: AppError)
    ensures
        r.status == ErrorStatus::BadRequest,
        r.message@ == "Choose an EPUB file first."@,
{
    AppError::bad_request("Choose an EPUB file first.")
}

/// The byte count of an upload in progress; it never exceeds the limit.
#[derive(Debug)]
pub struct UploadReceiver {
    received: u64,
    limit: u64,
}

impl UploadReceiver {
    #[verifier::type_invariant]
    spec fn inv(self) -> bool {
        self.received <= self.limit
    }

    pub closed spec fn spec_received(self) -> u64 {
        self.received
    }

    pub closed spec fn spec_limit(self) -> u64 {
        self.limit
    }

    /// Nothing received yet; at most `limit` bytes will be accepted.
    pub fn new(limit: usize) -> (r: UploadReceiver)
        ensures
            r.spec_received() == 0,
            r.spec_limit() == limit,
    {
        UploadReceiver { received: 0, limit: limit as u64 }
    }

    /// The bytes accepted so far.
    pub fn received(&self) -> (r: u64)
        ensures
            r == self.spec_received(),
            r <= self.spec_limit(),
    {
        proof {
            use_type_invariant(self);
        }
        self.received
    }

    /// Takes a chunk of `len` bytes; refused as too large when it would take
    /// the upload past the limit.
    pub fn accept_chunk(&mut self, len: usize) -> (r: AppResult<()>)
        ensures
            final(self).spec_limit() == old(self).spec_limit(),
            r is Ok <==> old(self).spec_received() + len <= old(self).spec_limit(),
            r is Ok ==> final(self).spec_received() == old(self).spec_received() + len,
            r is Err ==> final(self).spec_received() == old(self).spec_received(),
            r matches Err(e) ==> e.status == ErrorStatus::PayloadTooLarge
                && e.message@ == "The EPUB exceeds the upload size limit."@,
    {
        proof {
            use_type_invariant(&*self);
        }
        let room = self.limit - self.received;
        if (len as u64) > room {
            return Err(AppError::payload_too_large("The EPUB exceeds the upload size limit."));
        }
        self.received = self.received + len as u64;
        Ok(())
    }

    /// The size of a finished upload; an empty one is refused.
    pub fn finish(&self) -> (r: AppResult<u64>)
        ensures
            r is Ok <==> self.spec_received() > 0,
            r matches Ok(n) ==> n == self.spec_received(),
            r matches Err(e) ==> e.status == ErrorStatus::BadRequest
                && e.message@ == "Invalid file submitted: the EPUB is empty."@,
    {
        if self.received == 0 {
            Err(AppError::bad_request("Invalid file submitted: the EPUB is empty."))
        } else {
            Ok(self.received)
        }
    }
}

/// The answer to a finished upload: `Ready for Kobo: NAME`.
pub fn ready_message(filename: &str) -> (r: String)
    ensures
        r@ == "Ready for Kobo: "@ + filename@,
{
    let mut v: Vec<char> = Vec::new();
    extend_str(&mut v, "Ready for Kobo: ");
    extend_str(&mut v, filename);
    string_of(&v)
}

/// With a public base URL configured, the shelf URL does not depend on the
/// request's `Host` header.
pub proof fn public_base_url_overrides_host(base: Seq<char>, first: Option<Seq<char>>, second: Option<Seq<char>>, port: u16, token: Seq<char>)
    ensures
        spec_public_shelf_url(Some(base), first, port, token) == spec_public_shelf_url(Some(base), second, port, token),
{
}

/// Escaped text holds no `<`, `>`, `"` or `'`, so it cannot open or close a
/// tag or leave an attribute value.
pub proof fn escaped_xml_has_no_markup(s: Seq<char>)
    ensures
        forall|i: int| 0 <= i < spec_escape_xml(s).len() ==> {
            let c = #[trigger] spec_escape_xml(s)[i];
            c != '<' && c != '>' && c != '"' && c != '\''
        },
    decreases s.len(),
{
    if s.len() > 0 {
        escaped_xml_has_no_markup(s.drop_last());
        let p = spec_escape_xml(s.drop_last());
        let e = escape_xml_char(s.last());
        reveal_strlit("&amp;");
        reveal_strlit("&lt;");
        reveal_strlit("&gt;");
        reveal_strlit("&quot;");
        reveal_strlit("&apos;");
        assert forall|i: int| 0 <= i < e.len() implies {
            let c = #[trigger] e[i];
            c != '<' && c != '>' && c != '"' && c != '\''
        } by {}
        assert forall|i: int| 0 <= i < spec_escape_xml(s).len() implies {
            let c = #[trigger] spec_escape_xml(s)[i];
            c != '<' && c != '>' && c != '"' && c != '\''
        } by {
            if i < p.len() {
                assert(spec_escape_xml(s)[i] == p[i]);
            } else {
                assert(spec_escape_xml(s)[i] == e[i - p.len()]);
            }
        }
    }
}

proof fn lemma_nat_decimal_digits(n: nat)
    ensures
        nat_decimal(n).len() > 0,
        forall|i: int| 0 <= i < nat_decimal(n).len() ==> '0' <= #[trigger] nat_decimal(n)[i] && nat_decimal(n)[i] <= '9',
    decreases n,
{
    if n >= 10 {
        lemma_nat_decimal_digits(n / 10);
        let p = nat_decimal(n / 10);
        assert forall|i: int| 0 <= i < nat_decimal(n).len() implies '0' <= #[trigger] nat_decimal(n)[i] && nat_decimal(n)[i] <= '9' by {
            if i < p.len() {
                assert(nat_decimal(n)[i] == p[i]);
            }
        }
    }
}

proof fn lemma_digit_char_injective(x: int, y: int)
    requires
        0 <= x < 10,
        0 <= y < 10,
        crate::text::digit_char(x) == crate::text::digit_char(y),
    ensures
        x == y,
{
    assert(crate::text::digit_char(x) as int == 48 + x);
    assert(crate::text::digit_char(y) as int == 48 + y);
}

proof fn lemma_nat_decimal_injective(n: nat, m: nat)
    requires
        nat_decimal(n) == nat_decimal(m),
    ensures
        n == m,
    decreases n,
{
    lemma_nat_decimal_digits(n);
    lemma_nat_decimal_digits(m);
    if n < 10 && m < 10 {
        assert(nat_decimal(n) == seq![crate::text::digit_char(n as int)]);
        assert(nat_decimal(m) == seq![crate::text::digit_char(m as int)]);
        let dn = crate::text::digit_char(n as int);
        let dm = crate::text::digit_char(m as int);
        assert(seq![dn][0] == dn);
        assert(seq![dm][0] == dm);
        assert(dn == dm);
        lemma_digit_char_injective(n as int, m as int);
    } else if n < 10 {
        lemma_nat_decimal_digits(m / 10);
        assert(nat_decimal(m).len() >= 2);
    } else if m < 10 {
        lemma_nat_decimal_digits(n / 10);
        assert(nat_decimal(n).len() >= 2);
    } else {
        let a = nat_decimal(n);
        assert(a.drop_last() == nat_decimal(n / 10));
        assert(nat_decimal(m).drop_last() == nat_decimal(m / 10));
        lemma_nat_decimal_injective(n / 10, m / 10);
        assert(a.last() == crate::text::digit_char((n % 10) as int));
        assert(nat_decimal(m).last() == crate::text::digit_char((m % 10) as int));
        lemma_digit_char_injective((n % 10) as int, (m % 10) as int);
    }
}

proof fn lemma_int_decimal_shape(n: int)
    ensures
        int_decimal(n).len() > 0,
        n < 0 <==> int_decimal(n)[0] == '-',
        forall|i: int| 1 <= i < int_decimal(n).len() ==> #[trigger] int_decimal(n)[i] != '-',
        int_decimal(n)[0] != '"',
        forall|i: int| 0 <= i < int_decimal(n).len() ==> #[trigger] int_decimal(n)[i] != '"',
{
    if n < 0 {
        lemma_nat_decimal_digits((-n) as nat);
        let d = nat_decimal((-n) as nat);
        assert forall|i: int| 1 <= i < int_decimal(n).len() implies #[trigger] int_decimal(n)[i] != '-' by {
            assert(int_decimal(n)[i] == d[i - 1]);
        }
        assert forall|i: int| 0 <= i < int_decimal(n).len() implies #[trigger] int_decimal(n)[i] != '"' by {
            if i > 0 {
                assert(int_decimal(n)[i] == d[i - 1]);
            }
        }
    } else {
        lemma_nat_decimal_digits(n as nat);
    }
}

proof fn lemma_int_decimal_injective(n: int, m: int)
    requires
        int_decimal(n) == int_decimal(m),
    ensures
        n == m,
{
    lemma_int_decimal_shape(n);
    lemma_int_decimal_shape(m);
    if n < 0 {
        assert(m < 0);
        assert(nat_decimal((-n) as nat) == int_decimal(n).drop_first());
        assert(nat_decimal((-m) as nat) == int_decimal(m).drop_first());
        lemma_nat_decimal_injective((-n) as nat, (-m) as nat);
    } else {
        assert(m >= 0);
        lemma_nat_decimal_injective(n as nat, m as nat);
    }
}

proof fn lemma_etag_split(a: Seq<char>, b: Seq<char>, c: Seq<char>, d: Seq<char>)
    requires
        a.len() > 0, c.len() > 0,
        forall|i: int| 1 <= i < a.len() ==> #[trigger] a[i] != '-',
        forall|i: int| 1 <= i < c.len() ==> #[trigger] c[i] != '-',
        a + seq!['-'] + b == c + seq!['-'] + d,
    ensures
        a == c && b == d,
{
    let t = a + seq!['-'] + b;
    if a.len() < c.len() {
        assert(t[a.len() as int] == '-');
        assert(t[a.len() as int] == c[a.len() as int]);
    } else if c.len() < a.len() {
        assert(t[c.len() as int] == '-');
        assert(t[c.len() as int] == a[c.len() as int]);
    }
    assert(a =~= t.take(a.len() as int));
    assert(c =~= t.take(c.len() as int));
    assert(b =~= t.skip(a.len() as int + 1));
    assert(d =~= t.skip(c.len() as int + 1));
}

/// Different revisions, or expiries in different seconds, give different
/// entity tags: a poll answered `304 Not Modified` has seen the current
/// revision and expiry.
pub proof fn etag_identifies_revision_and_expiry(r1: i64, e1: i64, r2: i64, e2: i64)
    requires
        spec_shelf_etag(r1, e1) == spec_shelf_etag(r2, e2),
    ensures
        r1 == r2,
        micros_to_secs(e1 as int) == micros_to_secs(e2 as int),
{
    let a = int_decimal(r1 as int);
    let b = int_decimal(micros_to_secs(e1 as int));
    let c = int_decimal(r2 as int);
    let d = int_decimal(micros_to_secs(e2 as int));
    lemma_int_decimal_shape(r1 as int);
    lemma_int_decimal_shape(r2 as int);
    let t1 = spec_shelf_etag(r1, e1);
    let inner1 = a + seq!['-'] + b;
    let inner2 = c + seq!['-'] + d;
    assert(t1 =~= seq!['"'] + inner1 + seq!['"']);
    assert(spec_shelf_etag(r2, e2) =~= seq!['"'] + inner2 + seq!['"']);
    assert(inner1 =~= t1.subrange(1, t1.len() - 1));
    assert(inner2 =~= t1.subrange(1, t1.len() - 1));
    lemma_etag_split(a, b, c, d);
    lemma_int_decimal_injective(r1 as int, r2 as int);
    lemma_int_decimal_injective(micros_to_secs(e1 as int), micros_to_secs(e2 as int));
}

} // verus!
