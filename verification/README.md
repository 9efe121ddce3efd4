# masonry text layout

The state behind laying out text in widgets, with machine-checked proofs of
its contracts.

- `src/layout.rs`: `TextLayout`, the text and its style attributes, the
  two-stage rebuild protocol of the underlying layout (build, then break into
  lines) and the laws that tie the setters to it.
- `src/access.rs`: accessibility ids of the runs of a layout, kept stable by
  (line, run) position across passes, and the inline text box nodes.
- `src/runs.rs`: character lengths and word lengths of a run, from its grapheme
  clusters.
- `src/style.rs`: style attributes as plain values; floats are held as their
  bit patterns and compared as floats compare.
- `src/brush.rs`: `Hinting` and `TextBrush`.
- `src/text_view.rs`: the decisions behind showing strings and integers as
  document text nodes.
- `app/`: the parley layout, vello geometry, accesskit nodes and DOM nodes
  around the library.
