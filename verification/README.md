# ndnd

A terminal client that keeps an AniList watch list in step with episodes
fetched from nyaa. The library under `src/` holds the logic, verified with
Verus; `app/` is the program around it (terminal, HTTP, files, registry).

- `src/text.rs` — splitting on a pattern, decimal rendering.
- `src/json.rs` — a JSON document as plain values and its lookups.
- `src/anilist.rs` — request bodies and reading the replies (token, viewer, watch list).
- `src/nyaa.rs` — the search for the next episode and the chosen torrent.
- `src/utils.rs` — inputs, the choice list, the prompt, centring, scrolling, file names.
- `src/pages/menu.rs` — what each input does on the watch list screen.
- `src/uri.rs` — the `ndnd://` scheme: registered command and the code in the redirect.
