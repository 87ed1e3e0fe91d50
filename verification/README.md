# psy

Psy is a small pseudocode language (`START ... END`, `IF ... THEN ... ENDIF`,
`FOR`, `WHILE`, `FUNCTION`, `DECLARE`, `CONST`, `PUB`, `IMPORT`) with a
command-line runner, a formatter, a syntax checker and a language server.

This crate is the language's front end and its text-level libraries, written
in Verus: every function in `src/` carries a contract that Verus proves.

## Layout

- `src/` — the verified library
  - `lexer`, `token`: source text to positioned tokens, with one trailing `EOF`
  - `grammar`, `parser`, `ast`: tokens to statements; `grammar` states the
    grammar as spec functions and `parser` is proved to follow it
  - `checker`, `rules`: diagnostics with suggested fixes
  - `formatter`, `number`: the canonical layout of a program
  - `symbols`, `editor`, `definitions`, `hover`: what the language server
    shows — symbols, hover texts, completion lists, unused imports
  - `exports`: `PUB` declarations shared by sibling files
  - `native`: the registry of the built-in modules and their functions
  - `json`: JSON documents as `serde_json` reads and writes them (numbers
    kept as text) and the `_JSON` module's functions
  - `json_text`, `fields`, `url`, `integers`, `crypto`, `task`, `server`: the
    text, integer and bookkeeping work behind the built-in functions
  - `text`, `unicode`: string helpers and Unicode character classes
- `app/` — the `psy` program: file I/O, the tree-walking interpreter over
  floating-point values, the native functions that do I/O, and the language
  server loop
- `tests/` — tests of the library

Run `psy file.psy` to run a program, `psy file.psy --fmt` to format it in
place, `psy file.psy --debug` to see tokens and syntax, and `psy --lsp` to
serve the language server protocol on standard input and output.
