use code_search::indexer::pipeline::{
    content_hash, extract_symbols_for, file_lines, file_step, hash_unchanged, is_oversized,
    log_interval, logs_progress, looks_binary, mtime_unchanged, prepare_write, stores_progress,
    walk_entry, watch_action, FileAction, FileEvent, WatchAction,
};
use code_search::indexer::{should_skip, Language};

#[test]
fn language_from_path_by_extension_and_name() {
    assert_eq!(Language::from_path("/a/B.java"), Some(Language::Java));
    assert_eq!(Language::from_path("/a/B.JAVA"), Some(Language::Java));
    assert_eq!(Language::from_path("x/y.kts"), Some(Language::Kotlin));
    assert_eq!(Language::from_path("x/y.h"), Some(Language::C));
    assert_eq!(Language::from_path("x/y.c++"), Some(Language::Cpp));
    assert_eq!(Language::from_path("x/Makefile"), Some(Language::Make));
    assert_eq!(Language::from_path("x/rules.mk"), Some(Language::Make));
    assert_eq!(Language::from_path("x/a.yml"), Some(Language::Yaml));
    assert_eq!(Language::from_path("x/lib.RS"), Some(Language::Other("rs".to_string())));
    assert_eq!(Language::from_path("x/notes.txt"), None);
    assert_eq!(Language::from_path("x/README"), None);
    assert_eq!(Language::from_path("/deep/tree/Foo.Kt"), Language::from_path("Foo.kt"));
    assert_eq!(Language::from_path("/deep/tree/GNUmakefile"), Language::from_path("GNUmakefile"));
}

#[test]
fn language_keys() {
    assert_eq!(Language::Ruby.as_str(), "rb");
    assert_eq!(Language::Cpp.as_str(), "cpp");
    assert_eq!(Language::Make.as_str(), "make");
    assert_eq!(Language::Other("proto".to_string()).as_str(), "proto");
}

#[test]
fn skipped_trees_and_artifacts() {
    assert!(should_skip("/src/out/a.java", "/src"));
    assert!(should_skip("/src/.repo/x.xml", "/src"));
    assert!(should_skip("/src/a/.git/config.json", "/src"));
    assert!(should_skip("/src/a/out/b.go", "/src"));
    assert!(should_skip("/src/res/icon.png", "/src"));
    assert!(!should_skip("/src/a/Main.java", "/src"));
    assert!(!should_skip("/src/output/Main.java", "/src"));
}

#[test]
fn walk_entries() {
    assert_eq!(walk_entry("/src/a/Main.java", "/src", true), Some(Language::Java));
    assert_eq!(walk_entry("/src/a/Main.java", "/src", false), None);
    assert_eq!(walk_entry("/src/out/Main.java", "/src", true), None);
    assert_eq!(walk_entry("/src/a/notes.txt", "/src", true), None);
}

#[test]
fn watcher_actions() {
    assert!(matches!(watch_action("/src/a.go", true), WatchAction::Reindex(Language::Go)));
    assert!(matches!(watch_action("/src/a.go", false), WatchAction::Remove));
    assert!(matches!(watch_action("/src/a.txt", true), WatchAction::Ignore));
}

#[test]
fn content_hash_is_hex_sha256() {
    assert_eq!(
        content_hash(b""),
        "e3b0c44298fc1c149afbf4c8996fb92427ae41e4649b934ca495991b7852b855"
    );
    let h = content_hash(b"abc");
    assert_eq!(h, "ba7816bf8f01cfea414140de5dae2223b00361a396177a9cb410ff61f20015ad");
    assert_eq!(h.len(), 64);
    assert!(h.chars().all(|c| c.is_ascii_digit() || ('a'..='f').contains(&c)));
}

#[test]
fn unchanged_checks() {
    assert!(mtime_unchanged(Some(5), 5));
    assert!(!mtime_unchanged(Some(5), 6));
    assert!(!mtime_unchanged(None, 0));
    assert!(hash_unchanged(Some("ab"), "ab"));
    assert!(!hash_unchanged(Some("ab"), "ac"));
    assert!(!hash_unchanged(None, "ab"));
    let content = b"same bytes";
    assert!(hash_unchanged(Some(&content_hash(content)), &content_hash(content)));
    assert!(!hash_unchanged(Some(&content_hash(content)), &content_hash(b"other bytes")));
}

#[test]
fn size_limit() {
    assert!(!is_oversized(2 * 1024 * 1024));
    assert!(is_oversized(2 * 1024 * 1024 + 1));
}

#[test]
fn binary_heuristic() {
    assert!(!looks_binary(b""));
    assert!(looks_binary(b"abc\0def"));
    assert!(!looks_binary(b"hello\tworld\r\n"));
    let mut head = vec![b'a'; 100];
    for b in head.iter_mut().take(3) {
        *b = 1;
    }
    assert!(!looks_binary(&head));
    head[3] = 2;
    assert!(looks_binary(&head));
}

#[test]
fn progress_cadence() {
    assert_eq!(log_interval(0), 1);
    assert_eq!(log_interval(5), 1);
    assert_eq!(log_interval(25), 2);
    assert_eq!(log_interval(1000), 100);
    assert!(stores_progress(500));
    assert!(stores_progress(0));
    assert!(!stores_progress(499));
    assert!(logs_progress(20, 95, 10));
    assert!(logs_progress(95, 95, 10));
    assert!(!logs_progress(21, 95, 10));
}

#[test]
fn lines_stored_per_language() {
    assert_eq!(file_lines(&Language::Java, "a\r\nb\n\nc"), vec!["a", "b", "", "c"]);
    assert!(file_lines(&Language::Other("rs".to_string()), "a\nb").is_empty());
    assert!(file_lines(&Language::Java, "").is_empty());
    assert_eq!(file_lines(&Language::Go, "a\n\nb\n").join("\n"), "a\n\nb");
    assert_eq!(file_lines(&Language::Go, "x\ny").join("\n"), "x\ny");
}

#[test]
fn symbols_by_language() {
    let syms = extract_symbols_for(&Language::C, "int main() { return 0; }\n");
    assert_eq!(syms.len(), 1);
    assert_eq!(syms[0].name, "main");
    assert_eq!(syms[0].kind, "function");
    assert!(extract_symbols_for(&Language::Other("py".to_string()), "def f(): pass\n").is_empty());
}

#[test]
fn prepare_write_parses_utf8_sources() {
    let src = "class A {\n  void f() {}\n}\n";
    let task = prepare_write(
        "/src/A.java".to_string(),
        Language::Java,
        42,
        content_hash(src.as_bytes()),
        src.as_bytes(),
    )
    .expect("UTF-8 source");
    assert_eq!(task.path, "/src/A.java");
    assert_eq!(task.lang, Language::Java);
    assert_eq!(task.mtime, 42);
    assert_eq!(task.hash, content_hash(src.as_bytes()));
    assert_eq!(task.lines, vec!["class A {", "  void f() {}", "}"]);
    let names: Vec<_> = task.symbols.iter().map(|s| (s.name.clone(), s.container.clone())).collect();
    assert_eq!(names, vec![("A".to_string(), "".to_string()), ("f".to_string(), "A".to_string())]);
}

#[test]
fn prepare_write_skips_non_utf8() {
    let bytes = [0x61u8, 0xff, 0x62];
    assert!(prepare_write("/x.java".to_string(), Language::Java, 0, String::new(), &bytes).is_none());
}

#[test]
fn prepare_write_keeps_no_lines_for_other_languages() {
    let task = prepare_write("/x.rs".to_string(), Language::Other("rs".to_string()), 1, "h".to_string(), b"fn main() {}\n")
        .expect("UTF-8 source");
    assert!(task.symbols.is_empty());
    assert!(task.lines.is_empty());
}

#[test]
fn file_checks_in_order() {
    assert_eq!(file_step(FileEvent::Sized(3 * 1024 * 1024)), FileAction::Skip);
    assert_eq!(file_step(FileEvent::Sized(2 * 1024 * 1024)), FileAction::ReadHead);
    assert_eq!(file_step(FileEvent::Head(vec![0u8; 10])), FileAction::Skip);
    assert_eq!(file_step(FileEvent::Head(b"class A {}\n".to_vec())), FileAction::LookUpMtime);
    assert_eq!(file_step(FileEvent::Head(Vec::new())), FileAction::LookUpMtime);
    assert_eq!(file_step(FileEvent::StoredMtime(Some(7), 7)), FileAction::Skip);
    assert_eq!(file_step(FileEvent::StoredMtime(Some(7), 8)), FileAction::ReadContent);
    assert_eq!(file_step(FileEvent::StoredMtime(None, 8)), FileAction::ReadContent);
    let h = content_hash(b"x");
    assert_eq!(file_step(FileEvent::StoredHash(Some(h.clone()), h.clone(), 1)), FileAction::TouchMtime);
    assert_eq!(file_step(FileEvent::StoredHash(Some("00".to_string()), h.clone(), 1)), FileAction::Parse);
    assert_eq!(file_step(FileEvent::StoredHash(None, h.clone(), i32::MAX as usize)), FileAction::Skip);
    assert_eq!(file_step(FileEvent::StoredHash(Some(h.clone()), h, i32::MAX as usize)), FileAction::TouchMtime);
}
