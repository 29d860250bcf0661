# adguardian

Terminal monitoring for an AdGuard Home instance. The decisions and text it
produces are a library verified with Verus; the program around it does the I/O.

- `src/` — the verified library:
  - `text.rs`: decimal formatting and parsing (as `str::parse` for unsigned
    integers), `str::trim`, prefix and substring tests;
  - `fetch.rs`: the API's data types, request addresses, the basic-auth header
    (base64 from the `base64` crate), the reply-status check;
  - `version.rs`: the supported-version check and the update check (parsing and
    ordering from the `semver` crate);
  - `retry.rs`: the retry decisions and their bounds;
  - `setup.rs`: command-line flags, prompts and answers, masked input;
  - `runtime.rs`: settings, the connection check's outcome, the update loop's decisions.
- `app/` — the program: HTTP (reqwest), JSON decoding (serde), terminal I/O
  (crossterm, colored), the async runtime (tokio).
- `tests/` — tests of the library.
