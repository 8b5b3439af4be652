# subrass

An ASS/SSA subtitle library whose core is proved with Verus: the
functions in `src/` carry `requires`/`ensures` contracts over
mathematical models (sequences, integers, views of each type), and Verus
checks the code against them, including the absence of overflow and
panics. The few calls into outside code stand behind trusted items whose
contracts are believed, each documented where it stands; the built-in
fallback font's bytes have no contract at all.

## Layout

- `src/parser/` — the document parser: section headers, `[Script Info]`,
  `[V4+ Styles]`/`[V4 Styles]`, `[Events]`, `[Fonts]`/`[Graphics]`
  attachments (with the SSA uuencode variant), per-document caps, and the
  text and byte entry points. `src/parser.rs` holds `AssDocument` and its
  queries (active events, dialogue/comment filters, stable sorts).
- `src/types/` — colours, timestamps, styles, events, script info,
  attachments.
- `src/charset.rs` — legacy code pages of the ASS `Encoding` field.
- `src/renderer/` — the integer core of the renderer: the RGBA buffer and
  its blending, box blur, clips, fades, opaque boxes, glyph fills, line
  break classes, cluster-aware font fallback, event-text charsets, the
  sfnt metadata reader and the font matcher; karaoke (`\k`-family tag
  timing, and the run plan: pieces, run breaks, each run's window,
  sweep or pop, and the run of every glyph and drawing); the resolution
  of event-layout tags (first-wins `\pos`/`\move`, `\org`, `\an`,
  `\fad`/`\fade`, vector clips; last-wins rect clips); the integer
  style state that tags change (font, encoding, weight, flags, colours
  and alphas, `\r`); event text without its override blocks; the
  renderer's state (`SubtitleRenderer`: the document, the fallback and
  embedded faces with a warning for each that fails, the frame buffer at
  the play resolution); and the
  words of event text for line wrapping (with their override blocks,
  explicit-break runs and CJK break opportunities).
- `src/text.rs` — character, line and number helpers the parsers share.
- `tests/` — tests of the compiled library.
- `app/` — the WebAssembly bindings (`wasm-bindgen`, `serde`), with
  serialisable copies of the document types and displayable errors.

Outside crates are reached through a few trusted items, each documented
where it stands: `encoding_rs` for code pages, `ab_glyph` to parse faces,
`dejavu` for the built-in fallback font, and std's lowercase mapping,
UTF-8 decoding and `Debug` quoting.

## What is not here

Most of the floating-point rendering pipeline is in neither the library
nor `app/`: frame rendering (`render_frame`, the canvas and glyph cache),
the document diagnostics that need the full override-tag model, the
compositor and its
style resolution over `f64` fields (sizes, scales, angles, borders,
shadows, blur) as one pass over override tags, karaoke sweep painting,
line boxes, `\t` transforms, and the glyph cache and rasterisation. All
of it works on `f64` geometry and on a full override-tag
model (`OverrideTag`, `TextSegment`) that this crate does not define.

Their integer decisions stand in `src/`: paint stages, clips, fades,
the karaoke plan, layout-tag slots, the integer style state, clean text
and the wrap words. `app/` holds the floating-point stages that build on
them: the vector drawing parser, effects and geometry helpers, karaoke
sweep spans and the `\frz` mirror (`app/karaoke.rs`), measuring and
placing wrap words on lines (`app/wrapping.rs`), face metrics for
sizing and decoration bars (`app/font_metrics.rs`), the floating-point
style fields and their tags (`app/float_style.rs`), and the rotation and
perspective projection of coverage bitmaps (`app/geometry.rs`).
