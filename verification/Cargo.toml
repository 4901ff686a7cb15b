[package]
name = "code_search"
version = "0.1.0"
edition = "2021"
publish = false

[dependencies]
regex = "*"
sha2 = "*"
hex = "*"
url = "*"
tree-sitter = "*"
tree-sitter-cpp = "*"
tree-sitter-go = "*"
tree-sitter-java = "*"
tree-sitter-json = "*"
tree-sitter-kotlin-ng = "*"
tree-sitter-ruby = "*"
anyhow = "*"
serde = { version = "*", features = ["derive"] }
serde_json = "*"
schemars = "*"
clap = { version = "*", features = ["derive", "env"] }
tokio = { version = "*", features = ["full"] }
tokio-util = "*"
rmcp = { version = "*", features = ["server", "macros", "transport-io", "transport-streamable-http-server"] }
axum = "*"
rusqlite = { version = "*", features = ["bundled"] }
r2d2 = "*"
r2d2_sqlite = "*"
lsp-types = "*"
parking_lot = "*"
notify-debouncer-mini = "*"
dirs = "*"
tracing = "*"
tracing-subscriber = { version = "*", features = ["env-filter"] }
ignore = "*"
