# hl_parser

The front end of the compiler for hl-lang, a small declarative language for
homelab services: it parses a lexed `.hll` file into a syntax tree and
resolves `template`/`with` composition into fully merged services.

The library under `src/` is written in Verus. Every function states what it
returns over mathematical views of its data, and Verus proves it.

- `source`: places, files, tokens.
- `ast`: the syntax tree and its views.
- `schema`, `matchers`: the tables of built-in types and rule matchers.
- `grammar`: what a token sequence reads as; `parser` and `match_expr`: the
  parser that is proved to read it so; `grammar_laws`, `place_laws` and
  `move_laws`: what holds of every program that is read.
- `interp`: `{{binding}}` interpolation.
- `compose`: composition. `resolver`, `access`, `qualify`, `substitute`,
  `interpolate`, `slots` and `merge` are its passes, `engine` runs them, and
  `laws`, `merge_laws`, `order_laws` and `import_laws` state what holds of the
  result.
- `error`, `compose_error`, `warning`: diagnostics and their texts.

`app/` puts the lexer in front of the library and makes its errors
printable. `tests/` runs the library.
