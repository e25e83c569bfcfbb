# bewegungskrieg

Verified decision logic of the Bewegungskrieg desktop shell and of its computer opponent,
written in Verus, with a thin Tauri program around it.

## Layout

- `src/` — the library, every function verified.
  - `text.rs`, `diagnostics.rs` — trimming, bounded log text, log file naming in the
    platform's path style, timestamps.
  - `url_model.rs` — the parts of a parsed URL that the navigation policy reads.
  - `shell.rs` — release profiles, navigation policy, developer server URLs, log redaction,
    startup failures, platform policy.
  - `runtime_script.rs` — the script injected into every page.
  - `navigation.rs` — the load-timeout monitor.
  - `fullscreen.rs` — the exclusive-fullscreen session (its steps, rollback and restore
    messages, and the laws on the player's request) and window geometry.
  - `cursor_capture.rs` — the native cursor capture's counters, reason and error.
  - `ai/` — the opponent: entity kinds and target choice, profile policies, production,
    budgets, home defence, expansion and its escort party, frontal waves, raids, harassment,
    the economy, and the memory kept between thinks.
- `tests/` — tests of the library.
- `app/` — the desktop program: Tauri setup and commands, the log file, and the macOS
  native cursor bridge.

## Trusted boundary

Three functions of `src/` call outside crates and are taken on their contracts:
`url_parse_parts` (`url::Url::parse` and its accessors), `form_encode_pairs`
(`url::form_urlencoded::Serializer`) and `json_text_of` (`serde_json::to_string`). What
`url::Url::parse` makes of its input is named by the uninterpreted function `url_parse`,
with the stability of a serialization stated beside it; the other two are stated exactly,
by `form_encoded` (form encoding of UTF-8 bytes) and `json_text` (serde_json's string
escaping).
