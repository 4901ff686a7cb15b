# code_search

A code-search server for large source checkouts, built around a verified
library. Source files are parsed into symbols (tree-sitter grammars for Java,
Kotlin, C/C++, Go, Ruby and JSON; line patterns for Groovy, Gradle, XML,
YAML, AIDL and Makefiles), stored with their lines in SQLite, and served as
MCP tools: symbol search, text and regex search, go-to-definition and
find-references (refined through language servers when they answer), AST
queries, file listing and index status.

## Layout

- `src/` — the library, verified with Verus. Every public function states
  what it returns in its contract.
  - `indexer/` — languages, the extractors (`treesitter.rs` holds the
    grammar visitors; one file per language), and `pipeline.rs`, the
    decisions of an indexing run (which files, content hashes, what is
    written for a file).
  - `syntax/` — tree-sitter trees read as plain node lists, the tree walk,
    byte offsets and node text, and tree-sitter queries.
  - `tools/` — the tools' planning and result building (limits, FTS5
    phrases, regex literals, context windows, merged definitions,
    AST query results, index status).
  - `lsp/` — server keys and launch commands, JSON-RPC framing, response
    classification, and the locations in an answer.
  - `db.rs`, `cli.rs`, `paths.rs`, `text.rs`, `pattern.rs`, `symbol.rs` —
    search-table rebuild decisions, startup options, path pieces, text
    specifications, regular expressions, symbols.
- `app/` — the program: command line, SQLite access, file walking and
  reading, the file watcher, language-server processes and the MCP server.
- `tests/` — tests of the library's public functions.
