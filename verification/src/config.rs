//! Service configuration from the process environment.

use vstd::prelude::*;
use crate::text::{chars_of, opt_chars, parse_bounded, parse_unsigned, string_of};
use crate::weburl::{parse_url, url_host, url_parses, url_scheme};

verus! {

/// What the service reads from its environment. Each variable is `None`
/// when unset or not valid Unicode.
#[derive(Debug, Clone)]
pub struct EnvVars {
    /// The working directory.
    pub cwd: String,
    pub port: Option<String>,
    pub data_dir: Option<String>,
    pub max_upload_mb: Option<String>,
    pub conversion_concurrency: Option<String>,
    pub kepubify_bin: Option<String>,
    /// Whether `cwd/bin/kepubify` exists.
    pub local_kepubify_exists: bool,
    pub public_base_url: Option<String>,
    pub shelf_access_code: Option<String>,
}

/// The service configuration. Paths are strings; durations are whole
/// seconds; the `*_slots` fields are the sizes of the concurrency limits.
#[derive(Debug, Clone)]
pub struct Config {
    pub port: u16,
    pub data_dir: String,
    pub database_path: String,
    pub shelves_dir: String,
    pub kepubify_bin: String,
    pub max_upload_bytes: usize,
    pub max_books_per_shelf: i64,
    pub max_shelf_bytes: i64,
    pub max_service_bytes: i64,
    pub max_archive_entries: usize,
    pub max_decompressed_bytes: u64,
    pub conversion_timeout_secs: u64,
    pub conversion_slots: usize,
    pub upload_slots: usize,
    pub download_slots: usize,
    pub public_base_url: Option<String>,
    pub shelf_access_code: Option<String>,
}

/// Why a configuration cannot run as a hosted service.
#[derive(Debug, Clone)]
pub enum ConfigError {
    /// `PUBLIC_BASE_URL` does not parse; the parser's explanation.
    InvalidUrl(String),
    /// `PUBLIC_BASE_URL` is not an absolute HTTPS URL.
    NotHttps,
    /// `PUBLIC_BASE_URL` is set but `SHELF_ACCESS_CODE` is not.
    MissingAccessCode,
}

impl ConfigError {
    /// The text the error is reported with.
    pub fn message(&self) -> (r: String)
        ensures
            self is NotHttps ==> r@ == "PUBLIC_BASE_URL must be an absolute HTTPS URL"@,
            self is MissingAccessCode ==> r@
                == "SHELF_ACCESS_CODE is required when PUBLIC_BASE_URL is configured"@,
            self matches ConfigError::InvalidUrl(m) ==> r@ == m@,
    {
        match self {
            ConfigError::InvalidUrl(m) => m.clone(),
            ConfigError::NotHttps => String::from_str("PUBLIC_BASE_URL must be an absolute HTTPS URL"),
            ConfigError::MissingAccessCode => String::from_str(
                "SHELF_ACCESS_CODE is required when PUBLIC_BASE_URL is configured",
            ),
        }
    }
}

/// `base.join(path)` for Unix paths: an absolute `path` replaces the base;
/// otherwise it is appended after a `/` unless the base is empty or already
/// ends with one.
pub open spec fn path_join(base: Seq<char>, path: Seq<char>) -> Seq<char> {
    if path.len() > 0 && path[0] == '/' {
        path
    } else if base.len() > 0 && base.last() != '/' {
        base + seq!['/'] + path
    } else {
        base + path
    }
}

/// `path` made absolute against `cwd`.
pub open spec fn spec_absolute_path(cwd: Seq<char>, path: Seq<char>) -> Seq<char> {
    if path.len() > 0 && path[0] == '/' {
        path
    } else {
        path_join(cwd, path)
    }
}

/// The text without its trailing `/` characters.
pub open spec fn trim_trailing_slashes(s: Seq<char>) -> Seq<char>
    decreases s.len(),
{
    if s.len() > 0 && s.last() == '/' {
        trim_trailing_slashes(s.drop_last())
    } else {
        s
    }
}

/// A value when the variable is set to a number `str::parse` accepts for a
/// type whose largest value is `max`, otherwise `default`.
pub open spec fn number_or(var: Option<String>, max: int, default: int) -> int {
    match var {
        Some(v) => match parse_unsigned(v@, max) {
            Some(n) => n,
            None => default,
        },
        None => default,
    }
}

/// The converter count: a positive number from the variable, otherwise 2.
pub open spec fn concurrency_from(var: Option<String>) -> int {
    match var {
        Some(v) => match parse_unsigned(v@, usize::MAX as int) {
            Some(n) => if n > 0 { n } else { 2 },
            None => 2,
        },
        None => 2,
    }
}

pub open spec fn spec_data_dir(vars: EnvVars) -> Seq<char> {
    match vars.data_dir {
        Some(d) => d@,
        None => "data"@,
    }
}

pub open spec fn spec_kepubify_bin(vars: EnvVars) -> Seq<char> {
    match vars.kepubify_bin {
        Some(b) => spec_absolute_path(vars.cwd@, b@),
        None => if vars.local_kepubify_exists {
            path_join(path_join(vars.cwd@, "bin"@), "kepubify"@)
        } else {
            "kepubify"@
        },
    }
}

pub open spec fn spec_public_base_url(vars: EnvVars) -> Option<Seq<char>> {
    match vars.public_base_url {
        Some(u) => if trim_trailing_slashes(u@).len() > 0 {
            Some(trim_trailing_slashes(u@))
        } else {
            None
        },
        None => None,
    }
}

pub open spec fn spec_access_code(vars: EnvVars) -> Option<Seq<char>> {
    match vars.shelf_access_code {
        Some(c) => if c@.len() > 0 { Some(c@) } else { None },
        None => None,
    }
}

/// One mebibyte.
pub const MEBIBYTE: usize = 1_048_576;

/// Appends `path` to `base` as `Path::join` does on Unix.
pub fn join_path(base: &str, path: &str) -> (r: String)
    ensures
        r@ == path_join(base@, path@),
{
    let b = chars_of(base);
    let p = chars_of(path);
    if p.len() > 0 && p[0] == '/' {
        return string_of(&p);
    }
    let mut out = b;
    if out.len() > 0 && out[out.len() - 1] != '/' {
        out.push('/');
    }
    crate::text::extend_chars(&mut out, &p);
    string_of(&out)
}

/// `path` itself when absolute, otherwise `path` under `cwd`.
pub fn absolute_path(cwd: &str, path: &str) -> (r: String)
    ensures
        r@ == spec_absolute_path(cwd@, path@),
{
    let p = chars_of(path);
    if p.len() > 0 && p[0] == '/' {
        string_of(&p)
    } else {
        join_path(cwd, path)
    }
}

/// Where a converter shipped with the service is looked for: `cwd/bin/kepubify`.
pub fn local_kepubify_path(cwd: &str) -> (r: String)
    ensures
        r@ == path_join(path_join(cwd@, "bin"@), "kepubify"@),
{
    let bin = join_path(cwd, "bin");
    join_path(bin.as_str(), "kepubify")
}

fn trim_slashes(s: &str) -> (r: String)
    ensures
        r@ == trim_trailing_slashes(s@),
{
    let v = chars_of(s);
    let mut n = v.len();
    assert(v@.take(n as int) == v@);
    while n > 0 && v[n - 1] == '/'
        invariant
            n <= v@.len(),
            trim_trailing_slashes(v@) == trim_trailing_slashes(v@.take(n as int)),
        decreases n,
    {
        proof {
            assert(v@.take(n as int).drop_last() == v@.take(n - 1));
        }
        n = n - 1;
    }
    let mut out: Vec<char> = Vec::new();
    let mut i: usize = 0;
    while i < n
        invariant
            n <= v@.len(),
            i <= n,
            out@ == v@.take(i as int),
        decreases n - i,
    {
        out.push(v[i]);
        i = i + 1;
        proof {
            assert(v@.take(i as int) == v@.take(i - 1).push(v@[i - 1]));
        }
    }
    proof {
        let t = v@.take(n as int);
        if t.len() > 0 {
            assert(t.last() == v@[n - 1]);
        }
        assert(v@.take(v@.len() as int) == v@);
    }
    string_of(&out)
}

fn number_or_default(var: &Option<String>, max: u64, default: u64) -> (r: u64)
    requires
        default <= max,
    ensures
        r == number_or(*var, max as int, default as int),
{
    match var {
        Some(v) => match parse_bounded(v.as_str(), max) {
            Some(n) => n,
            None => default,
        },
        None => default,
    }
}

impl Config {
    /// The configuration the environment describes, with the defaults for
    /// what it leaves out: port 3001, data under `data`, 100 MiB uploads, two
    /// converters, `kepubify` from `cwd/bin` when present or else from `PATH`.
    pub fn from_env(vars: &EnvVars) -> (r: Config)
        requires
            number_or(vars.max_upload_mb, usize::MAX as int, 100) * MEBIBYTE <= usize::MAX,
        ensures
            r.port == number_or(vars.port, 65535, 3001),
            r.data_dir@ == spec_data_dir(*vars),
            r.database_path@ == path_join(spec_data_dir(*vars), "library.sqlite3"@),
            r.shelves_dir@ == path_join(spec_data_dir(*vars), "shelves"@),
            r.kepubify_bin@ == spec_kepubify_bin(*vars),
            r.max_upload_bytes == number_or(vars.max_upload_mb, usize::MAX as int, 100) * MEBIBYTE,
            r.max_books_per_shelf == 20,
            r.max_shelf_bytes == 500 * MEBIBYTE,
            r.max_service_bytes == 10 * 1024 * MEBIBYTE,
            r.max_archive_entries == 10_000,
            r.max_decompressed_bytes == 500 * MEBIBYTE,
            r.conversion_timeout_secs == 300,
            r.conversion_slots == concurrency_from(vars.conversion_concurrency),
            r.upload_slots == 8,
            r.download_slots == 32,
            opt_chars(r.public_base_url) == spec_public_base_url(*vars),
            opt_chars(r.shelf_access_code) == spec_access_code(*vars),
    {
        let port = number_or_default(&vars.port, 65535, 3001) as u16;
        let data_dir = match &vars.data_dir {
            Some(d) => d.clone(),
            None => String::from_str("data"),
        };
        let max_upload_mb = number_or_default(&vars.max_upload_mb, usize::MAX as u64, 100) as usize;
        let conversion_slots: usize = match &vars.conversion_concurrency {
            Some(v) => match parse_bounded(v.as_str(), usize::MAX as u64) {
                Some(n) => if n > 0 { n as usize } else { 2 },
                None => 2,
            },
            None => 2,
        };
        let kepubify_bin = match &vars.kepubify_bin {
            Some(b) => absolute_path(vars.cwd.as_str(), b.as_str()),
            None => if vars.local_kepubify_exists {
                local_kepubify_path(vars.cwd.as_str())
            } else {
                String::from_str("kepubify")
            },
        };
        let public_base_url = match &vars.public_base_url {
            Some(u) => {
                let t = trim_slashes(u.as_str());
                if t.as_str().is_empty() { None } else { Some(t) }
            },
            None => None,
        };
        let shelf_access_code = match &vars.shelf_access_code {
            Some(c) => if c.as_str().is_empty() { None } else { Some(c.clone()) },
            None => None,
        };
        let database_path = join_path(data_dir.as_str(), "library.sqlite3");
        let shelves_dir = join_path(data_dir.as_str(), "shelves");
        Config {
            port,
            data_dir,
            database_path,
            shelves_dir,
            kepubify_bin,
            max_upload_bytes: max_upload_mb * MEBIBYTE,
            max_books_per_shelf: 20,
            max_shelf_bytes: 500 * 1024 * 1024,
            max_service_bytes: 10 * 1024 * 1024 * 1024,
            max_archive_entries: 10_000,
            max_decompressed_bytes: 500 * 1024 * 1024,
            conversion_timeout_secs: 300,
            conversion_slots,
            upload_slots: 8,
            download_slots: 32,
            public_base_url,
            shelf_access_code,
        }
    }

    /// A configuration with the defaults, data under `data_dir`, and the
    /// given public URL and access code.
    pub fn for_test(data_dir: &str, public_base_url: Option<&str>, shelf_access_code: Option<&str>) -> (r: Config)
        ensures
            r.data_dir@ == data_dir@,
            r.port == 3001,
            r.max_upload_bytes == 100 * MEBIBYTE,
            r.public_base_url is Some <==> public_base_url is Some,
            r.public_base_url matches Some(u) ==> public_base_url matches Some(p) && u@ == p@,
            r.shelf_access_code is Some <==> shelf_access_code is Some,
            r.shelf_access_code matches Some(c) ==> shelf_access_code matches Some(p) && c@ == p@,
    {
        Config {
            port: 3001,
            data_dir: String::from_str(data_dir),
            database_path: join_path(data_dir, "library.sqlite3"),
            shelves_dir: join_path(data_dir, "shelves"),
            kepubify_bin: String::from_str("kepubify"),
            max_upload_bytes: 100 * MEBIBYTE,
            max_books_per_shelf: 20,
            max_shelf_bytes: 500 * 1024 * 1024,
            max_service_bytes: 10 * 1024 * 1024 * 1024,
            max_archive_entries: 10_000,
            max_decompressed_bytes: 500 * 1024 * 1024,
            conversion_timeout_secs: 300,
            conversion_slots: 2,
            upload_slots: 8,
            download_slots: 32,
            public_base_url: match public_base_url {
                Some(u) => Some(String::from_str(u)),
                None => None,
            },
            shelf_access_code: match shelf_access_code {
                Some(c) => Some(String::from_str(c)),
                None => None,
            },
        }
    }

    /// A hosted configuration is sound: with a public base URL set, it must
    /// parse as an absolute HTTPS URL with a host, and an access code must be
    /// set too. Without a public base URL any configuration is accepted.
    pub fn validate(&self) -> (r: Result<(), ConfigError>)
        ensures
            self.public_base_url is None ==> r is Ok,
            self.public_base_url matches Some(base) ==> {
                &&& (r matches Err(ConfigError::InvalidUrl(_))) <==> !url_parses(base@)
                &&& (r matches Err(ConfigError::NotHttps)) <==> (url_parses(base@) && !(url_scheme(base@)
                    == "https"@ && url_host(base@) is Some))
                &&& (r matches Err(ConfigError::MissingAccessCode)) <==> (url_parses(base@) && url_scheme(base@)
                    == "https"@ && url_host(base@) is Some && self.shelf_access_code is None)
                &&& r is Ok <==> (url_parses(base@) && url_scheme(base@) == "https"@ && url_host(base@) is Some
                    && self.shelf_access_code is Some)
            },
    {
        let base = match &self.public_base_url {
            Some(b) => b,
            None => return Ok(()),
        };
        let parsed = match parse_url(base.as_str()) {
            Ok(p) => p,
            Err(message) => return Err(ConfigError::InvalidUrl(message)),
        };
        let https = String::from_str("https");
        if !(parsed.scheme == https && parsed.host.is_some()) {
            return Err(ConfigError::NotHttps);
        }
        if self.shelf_access_code.is_none() {
            return Err(ConfigError::MissingAccessCode);
        }
        Ok(())
    }
}

} // verus!
