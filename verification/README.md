# gmpass

A terminal password manager: an AES-256-GCM vault file keyed with Argon2id,
password and note entries in folders, search, a password generator, TOTP
codes, auto-lock and clipboard clearing.

## Layout

- `src/` — the library, verified with Verus.
  - `vault.rs`: entries, the vault file format (`salt || nonce || ciphertext`),
    password strength, search matching, paths.
  - `crypto.rs`: the trusted wrappers around Argon2, AES-GCM, HMAC-SHA1,
    the OS random source and zeroize.
  - `totp.rs`: Base32 decoding and RFC 6238 codes.
  - `config.rs`, `theme.rs`: settings and their cycles, colour themes.
  - `app.rs`, `listing.rs`, `editing.rs`, `stats.rs`, `generator.rs`: the
    interface state and what its operations do to it.
  - `handler.rs`: what each key press does; outside work comes back as an
    `Effect` for the caller to perform, with `finish_*` functions for the outcome.
  - `view.rs`: the lines of the entry view and the entry list, as text pieces
    with tones (a hidden password shows only as a mask).
  - `display.rs`, `prompt.rs`: the other text the screens and start-up prompts show.
  - `text.rs`, `order.rs`: string and ordering helpers.
- `app/` — the program around it: command line, password prompts, files and
  JSON/TOML, the clipboard and the terminal drawing.
- `tests/` — tests of the library.
