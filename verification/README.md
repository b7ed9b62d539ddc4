# orbtiama_core

A library for SiMai (maimai) charts: it reads the metadata file of a chart, reads the notes
of a chart from its token tree into compact structures, and lays out and packs what a
player draws. The logic is written in Verus and proved against its contracts.

## Layout

- `src/` — the verified library.
  - `deserialize/file` — the metadata format (`&key=value` entries) and `SiMaiFile`.
  - `deserialize/chart` — the token tree of a chart, the arithmetic of the button ring,
    and the layout of slide paths.
  - `deserialize/element` — locations, decorations and notes.
  - `deserialize/parser` — reading notes from tokens, checking that a token tree can be
    read, and the rules that mark notes played together (`each`), split fan slides and
    spread breaks over the parts of a slide.
  - `render` — the byte layout of the records handed to a renderer, and display settings.
  - `statistics` — counting notes by kind.
- `tests/` — tests of the library on concrete values.
- `app/` — the floating-point side: slide geometry (with `lyon_path`), timing, the
  per-frame state of notes and the drawing of that state into records.

Each module states its properties as contracts and as public `law_*` proof functions.
