use code_search::cli::{Cli, TransportMode};
use code_search::db::{fts_upgrade_needed, is_fts_ready, FtsBatches};
use code_search::lsp::json::{classify_response, JsonValue, ResponseKind};
use code_search::lsp::locations::{document_uri, parse_lsp_locations};
use code_search::lsp::manager::{client_action, header_step, server_command, server_env_var, ClientAction, HeaderStep};
use code_search::lsp::{frame_header, parse_header_line, server_key_for_language, HeaderLine};

fn num(n: u64) -> JsonValue {
    JsonValue::Number { as_i64: Some(n as i64), as_u64: Some(n) }
}

fn s(t: &str) -> JsonValue {
    JsonValue::String(t.to_string())
}

fn obj(members: Vec<(&str, JsonValue)>) -> JsonValue {
    JsonValue::Object(members.into_iter().map(|(k, v)| (k.to_string(), v)).collect())
}

#[test]
fn server_keys() {
    assert_eq!(server_key_for_language("java"), Some("java"));
    assert_eq!(server_key_for_language("c"), Some("cpp"));
    assert_eq!(server_key_for_language("gradle"), Some("groovy"));
    assert_eq!(server_key_for_language("rb"), Some("ruby"));
    assert_eq!(server_key_for_language("yml"), Some("yaml"));
    assert_eq!(server_key_for_language("mk"), Some("make"));
    assert_eq!(server_key_for_language("rs"), None);
}

#[test]
fn every_indexed_language_has_a_startable_server() {
    for lang in ["java", "kotlin", "c", "cpp", "make", "go", "groovy", "gradle", "rb", "json", "xml", "yaml", "aidl"] {
        let key = server_key_for_language(lang).expect("server key");
        assert!(server_command(key, None, "/d").is_some(), "{lang}");
    }
}

#[test]
fn server_commands() {
    let java = server_command("java", None, "/home/u/.code-search-mcp/jdtls-data").expect("java");
    assert_eq!(java.program, "jdtls");
    assert_eq!(java.args, vec!["-data", "/home/u/.code-search-mcp/jdtls-data"]);
    let go = server_command("go", Some("/opt/gopls"), "").expect("go");
    assert_eq!(go.program, "/opt/gopls");
    assert!(go.args.is_empty());
    let cpp = server_command("cpp", Some("/ignored"), "").expect("cpp");
    assert_eq!(cpp.program, "clangd");
    assert_eq!(cpp.args, vec!["--background-index", "--clang-tidy=false"]);
    let json = server_command("json", None, "").expect("json");
    assert_eq!(json.program, "vscode-json-language-server");
    assert_eq!(json.args, vec!["--stdio"]);
    assert!(server_command("rust", None, "").is_none());
    assert_eq!(server_env_var("java"), Some("JDTLS_PATH"));
    assert_eq!(server_env_var("yaml"), Some("YAML_LS_PATH"));
    assert_eq!(server_env_var("cpp"), None);
    assert_eq!(server_env_var("rust"), None);
}

#[test]
fn client_slots() {
    assert!(matches!(client_action(false, false), ClientAction::Spawn));
    assert!(matches!(client_action(true, true), ClientAction::Reuse));
    assert!(matches!(client_action(true, false), ClientAction::Replace));
}

#[test]
fn framing_headers() {
    assert_eq!(frame_header("{}"), "Content-Length: 2\r\n\r\n");
    assert_eq!(frame_header("é"), "Content-Length: 2\r\n\r\n");
    assert_eq!(frame_header(""), "Content-Length: 0\r\n\r\n");
}

#[test]
fn header_lines() {
    assert!(matches!(parse_header_line("Content-Length: 42\r\n"), HeaderLine::ContentLength(Some(42))));
    assert!(matches!(parse_header_line("Content-Length: abc\r\n"), HeaderLine::ContentLength(None)));
    assert!(matches!(parse_header_line("\r\n"), HeaderLine::End));
    assert!(matches!(parse_header_line("Content-Type: utf-8\r\n"), HeaderLine::Other));
}

#[test]
fn written_header_reads_back() {
    let header = frame_header("{\"id\":1}");
    let mut length = 0usize;
    let mut body = None;
    for line in header.split_inclusive('\n') {
        match header_step(length, line) {
            HeaderStep::Continue(n) => length = n,
            HeaderStep::Body(n) => {
                body = Some(n);
                break;
            }
            HeaderStep::Invalid => panic!("invalid header"),
        }
    }
    assert_eq!(body, Some(8));
}

#[test]
fn header_steps() {
    assert!(matches!(header_step(0, "Content-Length: 10\r\n"), HeaderStep::Continue(10)));
    assert!(matches!(header_step(10, "\r\n"), HeaderStep::Body(10)));
    assert!(matches!(header_step(5, "X-Other: y\r\n"), HeaderStep::Continue(5)));
    assert!(matches!(header_step(5, "Content-Length: -1\r\n"), HeaderStep::Invalid));
}

#[test]
fn responses_are_classified() {
    let ok = obj(vec![("jsonrpc", s("2.0")), ("id", num(3)), ("result", JsonValue::Array(vec![]))]);
    assert!(matches!(classify_response(ok, 3), ResponseKind::Result(JsonValue::Array(_))));
    let err = obj(vec![("id", num(3)), ("error", obj(vec![("code", num(1))]))]);
    assert!(matches!(classify_response(err, 3), ResponseKind::Error(JsonValue::Object(_))));
    let other = obj(vec![("id", num(4)), ("result", JsonValue::Null)]);
    assert!(matches!(classify_response(other, 3), ResponseKind::Other));
    let note = obj(vec![("method", s("window/logMessage"))]);
    assert!(matches!(classify_response(note, 3), ResponseKind::Other));
}

#[test]
fn locations_are_read() {
    let loc = obj(vec![
        ("uri", s("file:///tmp/a%20b.rs")),
        ("range", obj(vec![("start", obj(vec![("line", num(4)), ("character", num(2))]))])),
    ]);
    let link = obj(vec![
        ("targetUri", s("file:///tmp/c.rs")),
        ("targetRange", obj(vec![("start", obj(vec![("line", num(9))]))])),
    ]);
    let bad = obj(vec![("uri", s("http://example.com/x")), ("range", obj(vec![("start", obj(vec![]))]))]);
    let out = parse_lsp_locations(&JsonValue::Array(vec![loc, link, bad]));
    assert_eq!(out, vec![("/tmp/a b.rs".to_string(), 4, 2), ("/tmp/c.rs".to_string(), 9, 0)]);
    assert!(parse_lsp_locations(&JsonValue::Null).is_empty());
}

#[test]
fn document_uris() {
    assert_eq!(document_uri("/tmp/a b.rs"), Ok("file:///tmp/a%20b.rs".to_string()));
    assert_eq!(document_uri("rel/path.rs"), Err("Cannot convert path to URI: rel/path.rs".to_string()));
}

#[test]
fn startup_plan() {
    let mut cli = Cli {
        local: Some("/src".to_string()),
        transport: TransportMode::Stdio,
        port: 3000,
        db: None,
        index_threads: None,
        no_watch: true,
        no_fts_rebuild: false,
        allow_remote: false,
    };
    let plan = cli.startup();
    assert!(plan.index && plan.rebuild_after_index && !plan.watch && !plan.rebuild_now);
    cli.local = None;
    let plan = cli.startup();
    assert!(!plan.index && !plan.rebuild_after_index && !plan.watch && plan.rebuild_now);
    assert_eq!(cli.threads(Some(8)), 8);
    assert_eq!(cli.threads(None), 4);
    cli.index_threads = Some(2);
    assert_eq!(cli.threads(Some(8)), 2);
    assert_eq!(TransportMode::Http.as_str(), "http");
    assert_eq!(TransportMode::Stdio.as_str(), "stdio");
}

#[test]
fn fts_rebuild_decisions() {
    assert!(fts_upgrade_needed(false, true));
    assert!(!fts_upgrade_needed(true, true));
    assert!(!fts_upgrade_needed(false, false));
    let mut batches = FtsBatches::new(1, 120000);
    assert_eq!(batches.next_batch(), Some((1, 50001)));
    assert_eq!(batches.next_batch(), Some((50001, 100001)));
    assert_eq!(batches.next_batch(), Some((100001, 150001)));
    assert_eq!(batches.next_batch(), None);
    assert_eq!(batches.next_batch(), None);
    let mut empty = FtsBatches::new(0, -1);
    assert_eq!(empty.next_batch(), None);
    assert!(is_fts_ready(Some("ready")));
    assert!(!is_fts_ready(Some("upgrading")));
    assert!(is_fts_ready(None));
}
