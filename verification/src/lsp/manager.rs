//! The decisions of the language-server manager: which program serves a
//! server key, when a client is reused, and how a message's headers are read.
use vstd::prelude::*;

use crate::indexer::{language_key, LanguageView};
use crate::lsp::{header_line, parse_header_line, server_key, HeaderLine};
use crate::text::{chars_eq, chars_of, copy_string};

verus! {

/// How a language server is started: the environment variable that may
/// name its program, the program otherwise, and its arguments (`-data` and
/// the workspace data directory for Java).
pub open spec fn server_launch(key: Seq<char>, data_dir: Seq<char>) -> Option<(Option<Seq<char>>, Seq<char>, Seq<Seq<char>>)> {
    if key == "java"@ {
        Some((Some("JDTLS_PATH"@), "jdtls"@, seq!["-data"@, data_dir]))
    } else if key == "kotlin"@ {
        Some((Some("KOTLIN_LS_PATH"@), "kotlin-language-server"@, seq![]))
    } else if key == "cpp"@ {
        Some((None, "clangd"@, seq!["--background-index"@, "--clang-tidy=false"@]))
    } else if key == "go"@ {
        Some((Some("GOPLS_PATH"@), "gopls"@, seq![]))
    } else if key == "groovy"@ {
        Some((Some("GROOVY_LS_PATH"@), "groovy-language-server"@, seq![]))
    } else if key == "ruby"@ {
        Some((Some("RUBY_LS_PATH"@), "ruby-lsp"@, seq![]))
    } else if key == "json"@ {
        Some((Some("JSON_LS_PATH"@), "vscode-json-language-server"@, seq!["--stdio"@]))
    } else if key == "xml"@ {
        Some((Some("XML_LS_PATH"@), "lemminx"@, seq![]))
    } else if key == "yaml"@ {
        Some((Some("YAML_LS_PATH"@), "yaml-language-server"@, seq!["--stdio"@]))
    } else if key == "aidl"@ {
        Some((Some("AIDL_LS_PATH"@), "aidl-language-server"@, seq!["--stdio"@]))
    } else if key == "make"@ {
        Some((Some("MAKE_LS_PATH"@), "make-language-server"@, seq!["--stdio"@]))
    } else {
        None
    }
}

/// The program and arguments that start a language server.
pub struct LaunchCommand {
    pub program: String,
    pub args: Vec<String>,
}

/// The texts held by a sequence of strings.
pub open spec fn arg_views(v: Seq<String>) -> Seq<Seq<char>> {
    v.map_values(|s: String| s@)
}

fn is(k: &[char], lit: &str) -> (r: bool)
    ensures
        r == (k@ == lit@),
{
    chars_eq(k, &chars_of(lit))
}

/// The environment variable that may name the program of a server.
pub fn server_env_var(key: &str) -> (r: Option<&'static str>)
    ensures
        match server_launch(key@, seq![]) {
            Some((Some(v), _, _)) => r matches Some(x) && x@ == v,
            _ => r is None,
        },
{
    let k = chars_of(key);
    if is(&k, "java") {
        Some("JDTLS_PATH")
    } else if is(&k, "kotlin") {
        Some("KOTLIN_LS_PATH")
    } else if is(&k, "cpp") {
        None
    } else if is(&k, "go") {
        Some("GOPLS_PATH")
    } else if is(&k, "groovy") {
        Some("GROOVY_LS_PATH")
    } else if is(&k, "ruby") {
        Some("RUBY_LS_PATH")
    } else if is(&k, "json") {
        Some("JSON_LS_PATH")
    } else if is(&k, "xml") {
        Some("XML_LS_PATH")
    } else if is(&k, "yaml") {
        Some("YAML_LS_PATH")
    } else if is(&k, "aidl") {
        Some("AIDL_LS_PATH")
    } else if is(&k, "make") {
        Some("MAKE_LS_PATH")
    } else {
        None
    }
}

fn strings(parts: Vec<&str>) -> (r: Vec<String>)
    ensures
        arg_views(r@) == parts@.map_values(|p: &str| p@),
{
    let mut out: Vec<String> = Vec::new();
    let mut k: usize = 0;
    while k < parts.len()
        invariant
            k <= parts@.len(),
            arg_views(out@) == parts@.take(k as int).map_values(|p: &str| p@),
        decreases parts@.len() - k,
    {
        let s = copy_string(parts[k]);
        let ghost before = arg_views(out@);
        out.push(s);
        assert(arg_views(out@) =~= before.push(s@));
        assert(parts@.take(k + 1).map_values(|p: &str| p@) =~= parts@.take(k as int).map_values(|p: &str| p@).push(parts@[k as int]@));
        k = k + 1;
    }
    assert(parts@.take(parts@.len() as int) =~= parts@);
    out
}

/// How a server is started: the program named by its environment variable
/// (the value read, if any) or else its default program, and its
/// arguments; `None` for an unknown key.
pub fn server_command(key: &str, env_value: Option<&str>, data_dir: &str) -> (r: Option<LaunchCommand>)
    ensures
        match server_launch(key@, data_dir@) {
            None => r is None,
            Some((var, program, args)) => r matches Some(c) && arg_views(c.args@) == args && c.program@ == (
            match (var, env_value) {
                (Some(_), Some(v)) => v@,
                _ => program,
            }),
        },
{
    let k = chars_of(key);
    let (default, args): (&str, Vec<&str>) = if is(&k, "java") {
        ("jdtls", vec!["-data", data_dir])
    } else if is(&k, "kotlin") {
        ("kotlin-language-server", vec![])
    } else if is(&k, "cpp") {
        return Some(LaunchCommand { program: copy_string("clangd"), args: strings(vec!["--background-index", "--clang-tidy=false"]) });
    } else if is(&k, "go") {
        ("gopls", vec![])
    } else if is(&k, "groovy") {
        ("groovy-language-server", vec![])
    } else if is(&k, "ruby") {
        ("ruby-lsp", vec![])
    } else if is(&k, "json") {
        ("vscode-json-language-server", vec!["--stdio"])
    } else if is(&k, "xml") {
        ("lemminx", vec![])
    } else if is(&k, "yaml") {
        ("yaml-language-server", vec!["--stdio"])
    } else if is(&k, "aidl") {
        ("aidl-language-server", vec!["--stdio"])
    } else if is(&k, "make") {
        ("make-language-server", vec!["--stdio"])
    } else {
        return None;
    };
    let program = match env_value {
        Some(v) => copy_string(v),
        None => copy_string(default),
    };
    let args = strings(args);
    Some(LaunchCommand { program, args })
}

/// What the manager does with the client slot of a server key.
pub enum ClientAction {
    /// A running client is there: use it.
    Reuse,
    /// The client there has exited: remove it and start a new one.
    Replace,
    /// No client yet: start one.
    Spawn,
}

/// What to do with the client slot of a server key: reuse a running
/// client, replace one that has exited, start one where there is none.
pub fn client_action(has_client: bool, alive: bool) -> (r: ClientAction)
    ensures
        !has_client ==> r is Spawn,
        has_client && alive ==> r is Reuse,
        has_client && !alive ==> r is Replace,
{
    if !has_client {
        ClientAction::Spawn
    } else if alive {
        ClientAction::Reuse
    } else {
        ClientAction::Replace
    }
}

/// Where reading a message's headers stands after one more line.
pub enum HeaderStep {
    /// More headers follow; the body length so far.
    Continue(usize),
    /// The blank line: the body of this many bytes follows.
    Body(usize),
    /// A `Content-Length` whose number cannot be read.
    Invalid,
}

/// Reads one header line: the blank line ends the headers, a
/// `Content-Length` header sets the body length (the last one counts), other
/// headers are skipped.
pub fn header_step(length: usize, raw: &str) -> (r: HeaderStep)
    ensures
        match header_line(raw@) {
            HeaderLine::End => r == HeaderStep::Body(length),
            HeaderLine::ContentLength(Some(n)) => r == HeaderStep::Continue(n),
            HeaderLine::ContentLength(None) => r is Invalid,
            HeaderLine::Other => r == HeaderStep::Continue(length),
        },
{
    match parse_header_line(raw) {
        HeaderLine::End => HeaderStep::Body(length),
        HeaderLine::ContentLength(Some(n)) => HeaderStep::Continue(n),
        HeaderLine::ContentLength(None) => HeaderStep::Invalid,
        HeaderLine::Other => HeaderStep::Continue(length),
    }
}

/// Every language the index gives symbols to (all but `Other`) is served by
/// a language server, and that server has a command that starts it.
pub proof fn law_indexed_languages_have_servers(l: LanguageView, data_dir: Seq<char>)
    requires
        l !is Other,
    ensures
        server_key(language_key(l)) is Some,
        server_launch(server_key(language_key(l))->0, data_dir) is Some,
{
    match l {
        LanguageView::Other(_) => {},
        _ => {},
    }
}

} // verus!
