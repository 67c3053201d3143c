# rust_epub_reader

The decision logic of the RustEpubReader desktop application, written in
Verus and proved against its contracts.

`src/` is the verified library:

| module | what it decides |
|--------|-----------------|
| `text` | character-level helpers: trimming, ASCII case, decimal numbers, splitting, searching |
| `selection` | ordering a dragged text selection |
| `boss_key` | parsing, normalizing and (re)binding the boss-key hotkey |
| `review` | review cards and their timestamps (civil calendar dates) |
| `review_panel` | the review panel: the block group of a linked anchor, opening and closing |
| `tts` | read-aloud navigation: readable blocks, pages, advancing |
| `files` | font file names, EPUB link targets |
| `settings` | defaults, the debug flag, pairing PINs |
| `digest` | SHA-256 digests as hexadecimal text |
| `update` | self-update: asset choice, hot fixes, download checks, replacement script |
| `csc` | when to ask for corrections, which blocks to correct, training samples, JSON lines |
| `contribute` | submitting samples to GitHub (a state machine) |
| `oauth` | GitHub device-flow login |
| `reading` | chapter and page navigation, reading statistics, feedback log and report |
| `cover` | rounded corners of cover thumbnails |
| `fonts` | the font catalog |
| `highlights` | grouping highlights for painting |
| `lookup` | dictionary and translation links for selected text |

Calls into outside crates (`sha2`, `hex`, `rand`, `serde_json`, `base64`,
`urlencoding`) sit
behind small trusted wrappers whose contracts are documented where they are
declared.

`app/` is the program around the library: network requests, files, processes
and the floating-point layout helpers. `tests/` exercises the library on
concrete values.
