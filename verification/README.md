# glass-easel-analyzer

A language server for glass-easel and mini-program code: WXML templates and WXSS style
sheets. The editor features are a library written in Verus, with contracts on their results and
proofs of them; a thin server around it talks LSP. The tokenizer is `cssparser`'s, reached
through a few trusted wrappers whose contracts say what the library relies on.

## Layout

- `src/` — the verified library.
  - `position`, `encoding`, `file_content`, `text`, `paths`, `name_set`: positions and
    ranges, UTF-8/UTF-16 arithmetic, the line table of a file and the conversion between byte
    offsets and (line, UTF-16 column), string helpers, project-relative paths, lists of distinct
    names.
  - `wxss/`: the style-sheet model (token trees, rules, selectors, media queries) and its
    parser on top of `cssparser`'s tokens.
  - `wxss_utils`, `semantic`, `folding`, `symbol`, `hover`, `completion`: the WXSS token at a
    position, declarations and selector search, semantic tokens, folding ranges, outline,
    hover and completion.
  - `wxml`: the template model; `wxml_utils` (token at a position, scopes, declarations, local
    references), `wxml_semantic`, `wxml_outline`, `wxml_completion`, `wxml_match` (element
    walks, static IDs and classes, searches by tag name, ID, class, slot value or template use).
  - `backend_config`: the configuration of elements, components, attributes, events and style
    vocabulary, its lookups, and its TypeScript declarations.
  - `logger`: the level filter of the client logger; `client`: the capabilities the server
    asks of the client; `import_walk`: the depth-first walk over the style sheets or templates
    that a file imports, each entered once, imports finished before their importers;
    `wxml_parse`: the template compiler's parser and the conversion of its tree.
- `app/` — the server: the LSP connection, files on disk, the project around a file (imports,
  JSON configuration, the other templates and style sheets), and the conversions to LSP
  types.
- `tests/` — tests of the library on concrete values.
