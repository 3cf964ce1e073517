# instapi360_cloud

A client core for the Insta360 cloud — import a session token, list cloud
media, resolve and download the original camera files — whose logic is
specified and proved with Verus, plus the `instapi360` command line around it.

## Layout

- `src/` — the verified library.
  - `config.rs` — regions, API hosts, platform identity, the desktop skeleton
    configuration.
  - `session.rs` — the session (bearer token, expiry, renewal) and the
    persistence trait the caller implements.
  - `signing.rs` — the HMAC-SHA256 request signature and nonces.
  - `client.rs` — identity/auth headers, trace ids, endpoint URLs and queries,
    and the reading of HTTP statuses and response envelopes.
  - `json.rs`, `payload.rs` — a JSON model and the lenient decoding of
    profiles, media items, listing pages, file parts and JWT claims.
  - `download.rs` — ranges, statuses and progress of resumable downloads.
  - `cli.rs` — the decisions of the command line: configuration, equipment
    code choice and detection, local file names, resume offsets, JWT
    candidates in text.
  - `text.rs` — character-level helpers (decimal/hex rendering, parsing,
    searching).
  - `laws.rs` — properties that span several functions.
- `tests/` — tests of the library on concrete values.
- `app/` — the `instapi360` binary: argument parsing, files, the HTTP
  transport, JSON text decoding and progress bars.

Verus checks every function in `src/` against its `requires`/`ensures`;
calls into `hmac`, `sha2`, `hex`, `base64`, `reqwest` and a few `std`
string functions go through small trusted wrappers whose contracts are
stated next to them.

There is no interactive (browser) login: a session starts from an imported
token and is renewed through the API.
