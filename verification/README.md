# kobo_library

A service for temporary, QR-shareable book shelves for Kobo e-readers. Each
shelf is reached through an unguessable capability URL; uploaded EPUBs are
converted to `.kepub.epub` and offered for download until the shelf expires.

## Layout

- `src/` is the library, written in Verus. Its functions carry contracts that
  Verus proves, except the small trusted wrappers around outside crates
  (below), whose contracts Verus takes on trust:
  - `text.rs`: character-sequence helpers (decimal rendering, trimming,
    searching, parsing) shared by the other modules.
  - `books.rs`: book records and the filename rules (`.kepub.epub` names,
    header-safe names, titles from filenames).
  - `config.rs`: configuration from environment values and its validation.
  - `shelves.rs`: capability generation and hashing, the inactivity and hard
    lifetime deadlines, the access decision for a shelf, the download grace
    period and the cleanup decisions.
  - `observability.rs`: service counters, their text rendering, and the
    per-key fixed-window rate limiter.
  - `routes.rs`: the decisions behind the HTTP handlers (host and port
    handling, public shelf URLs, ETags, QR images, headers, upload limits).
  - `archive.rs`, `epub.rs`: ZIP and XML access, archive limits, kepub
    detection and title/author extraction.
  - `storage.rs`: shelf-scoped file paths and identifier validation.
  - `library.rs`: the decisions of storing an upload (the order of its
    steps, the per-file, per-shelf and service quotas, the book records) and
    of recovering unfinished books.
  - `conversion.rs`: the converter's arguments, limits and outcome.
  - `weburl.rs`, `crypto.rs`, `error.rs`, `repository.rs`: URL handling,
    hashing and encoding, error values, and stored shelf records.
- Calls into outside crates (`url`, `sha2`, `subtle`, `base64`, `rand`,
  `uuid`, `zip`, `roxmltree`, `qrcode`, `chrono`) go through small trusted
  wrappers whose contracts are documented beside them.
- `app/` is the unverified service around the library: environment reading,
  SQLite access, the file system, the converter process and the Axum routes.
- `tests/` exercises the library on concrete values.
