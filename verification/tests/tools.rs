use code_search::syntax::CaptureInfo;
use code_search::tools::ast_query::{
    matches_from_captures, query_language, AstMatch, AstQueryError, AstQueryInput, AstQueryTool,
};
use code_search::tools::find_references::{
    anchor_lsp_position, plan_references, reference_line_no, FindReferencesInput,
};
use code_search::tools::go_to_definition::{
    anchor_definitions, anchor_position_exec, anchor_reply, merge_lsp_definitions,
    DefinitionResult,
};
use code_search::tools::index_status::{parse_i64_exec, render_count, stored_count_exec, IndexStatus};
use code_search::tools::list_files::{list_limit, path_pattern};
use code_search::tools::search_symbols::{
    normalize_optional_filter, plan_search, sanitize_limit, SearchSymbolsInput,
};
use code_search::tools::search_text::{
    context_window, distinct_file_ids, escape_fts5_trigram, extract_longest_literal,
    filter_regex_rows, plan_text_search, search_regex, split_context, strip_glob_wildcards,
    SearchTextInput,
};

#[test]
fn symbol_limit_defaults_and_clamps() {
    assert_eq!(sanitize_limit(None), 50);
    assert_eq!(sanitize_limit(Some(0)), 1);
    assert_eq!(sanitize_limit(Some(-3)), 1);
    assert_eq!(sanitize_limit(Some(7)), 7);
    assert_eq!(sanitize_limit(Some(1000)), 500);
}

#[test]
fn optional_filters_are_trimmed_or_dropped() {
    assert_eq!(normalize_optional_filter(Some("  java ".to_string())), Some("java".to_string()));
    assert_eq!(normalize_optional_filter(Some("   ".to_string())), None);
    assert_eq!(normalize_optional_filter(None), None);
}

#[test]
fn symbol_search_plan() {
    let plan = plan_search(SearchSymbolsInput {
        query: " Binder* ".to_string(),
        language: Some(" JAVA ".to_string()),
        kind: Some("Ärger".to_string()),
        limit: None,
    })
    .expect("non-empty query");
    assert_eq!(plan.fts_query, "\"Binder\"");
    assert_eq!(plan.language, Some("java".to_string()));
    assert_eq!(plan.kind, Some("ärger".to_string()));
    assert_eq!(plan.limit, 50);
    assert_eq!(plan.name_pattern, Some("Binder%".to_string()));
    assert!(plan.use_fts);
    let short_glob = plan_search(SearchSymbolsInput { query: "on*".to_string(), language: None, kind: None, limit: Some(5) })
        .expect("non-empty query");
    assert_eq!(short_glob.name_pattern, Some("on%".to_string()));
    assert!(!short_glob.use_fts);
    assert_eq!(short_glob.fts_query, "\"on\"");
    let escaped = plan_search(SearchSymbolsInput { query: "a_b?".to_string(), language: None, kind: None, limit: None })
        .expect("non-empty query");
    assert_eq!(escaped.name_pattern, Some("a\\_b_".to_string()));
    let substring = plan_search(SearchSymbolsInput { query: "Binder".to_string(), language: None, kind: None, limit: None })
        .expect("non-empty query");
    assert_eq!(substring.name_pattern, None);
    assert!(substring.use_fts);
    assert_eq!(substring.like_pattern, "%Binder%");
    assert_eq!(plan.like_pattern, "Binder%");
    assert_eq!(short_glob.like_pattern, "on%");
    let underscored = plan_search(SearchSymbolsInput { query: " my_var ".to_string(), language: None, kind: None, limit: None })
        .expect("non-empty query");
    assert_eq!(underscored.like_pattern, "%my\\_var%");
    let none = plan_search(SearchSymbolsInput { query: "*?*".to_string(), language: None, kind: None, limit: None });
    assert!(none.is_none());
}

#[test]
fn wildcards_are_stripped() {
    assert_eq!(strip_glob_wildcards(" *Act?ivity* "), "Activity");
    assert_eq!(strip_glob_wildcards("**"), "");
    let s = strip_glob_wildcards("a * b ?");
    assert!(!s.contains('*') && !s.contains('?'));
    assert_eq!(s, "a  b");
}

#[test]
fn fts_phrases_double_inner_quotes() {
    assert_eq!(escape_fts5_trigram("abc"), "\"abc\"");
    assert_eq!(escape_fts5_trigram("a\"b"), "\"a\"\"b\"");
    assert_eq!(escape_fts5_trigram(""), "\"\"");
}

#[test]
fn longest_regex_literal() {
    assert_eq!(extract_longest_literal("void on\\w+\\("), Some("void on".to_string()));
    assert_eq!(extract_longest_literal("a.bcd|ef"), Some("bcd".to_string()));
    assert_eq!(extract_longest_literal("ab\\.cd"), Some("ab.cd".to_string()));
    assert_eq!(extract_longest_literal(".*"), None);
}

#[test]
fn text_search_plans() {
    let plain = plan_text_search(SearchTextInput {
        query: "PackageManager".to_string(),
        regex: None,
        language: None,
        path_filter: Some("frameworks/base".to_string()),
        limit: Some(5000),
        context_lines: Some(50),
    })
    .expect("query");
    assert_eq!(plain.query, "PackageManager");
    assert!(!plain.use_regex);
    assert_eq!(plain.fts_query, Some("\"PackageManager\"".to_string()));
    assert_eq!(plain.limit, 1000);
    assert_eq!(plain.context, 10);
    assert_eq!(plain.path_filter, Some("frameworks/base".to_string()));

    let short = plan_text_search(SearchTextInput {
        query: "ab.x".to_string(),
        regex: Some(true),
        language: Some("java".to_string()),
        path_filter: None,
        limit: None,
        context_lines: None,
    })
    .expect("query");
    assert!(short.use_regex);
    assert_eq!(short.query, "ab.x");
    assert_eq!(short.fts_query, None);
    assert_eq!(short.limit, 100);
    assert_eq!(short.context, 2);

    let long = plan_text_search(SearchTextInput {
        query: "void on\\w+".to_string(),
        regex: Some(true),
        language: None,
        path_filter: None,
        limit: Some(3),
        context_lines: Some(0),
    })
    .expect("query");
    assert_eq!(long.query, "void on\\w+");
    assert_eq!(long.fts_query, None);
    assert_eq!(long.limit, 3);
    assert_eq!(long.context, 0);

    let literal = plan_text_search(SearchTextInput {
        query: "void onCreate.".to_string(),
        regex: Some(true),
        language: None,
        path_filter: None,
        limit: Some(-5),
        context_lines: Some(-1),
    })
    .expect("query");
    assert_eq!(literal.fts_query, Some("\"void onCreate\"".to_string()));
    assert_eq!(literal.limit, 0);
    assert_eq!(literal.context, 0);

    let wild = plan_text_search(SearchTextInput {
        query: "a.*b".to_string(),
        regex: Some(true),
        language: None,
        path_filter: None,
        limit: None,
        context_lines: None,
    })
    .expect("query");
    assert_eq!(wild.query, "a.*b");
    assert_eq!(wild.fts_query, None);

    let alternation = plan_text_search(SearchTextInput {
        query: "catalog|dogma".to_string(),
        regex: Some(true),
        language: None,
        path_filter: None,
        limit: None,
        context_lines: None,
    })
    .expect("query");
    assert_eq!(alternation.fts_query, None);

    let plain_glob = plan_text_search(SearchTextInput {
        query: "Pack*Manager".to_string(),
        regex: Some(false),
        language: None,
        path_filter: None,
        limit: None,
        context_lines: None,
    })
    .expect("query");
    assert_eq!(plain_glob.query, "PackManager");
    assert_eq!(plain_glob.like_pattern, "%PackManager%");

    let tiny = plan_text_search(SearchTextInput {
        query: "ab".to_string(),
        regex: None,
        language: None,
        path_filter: None,
        limit: None,
        context_lines: None,
    })
    .expect("query");
    assert_eq!(tiny.fts_query, None);
    assert_eq!(tiny.like_pattern, "%ab%");

    let escaped = plan_text_search(SearchTextInput {
        query: "50%_off".to_string(),
        regex: None,
        language: None,
        path_filter: None,
        limit: None,
        context_lines: None,
    })
    .expect("query");
    assert_eq!(escaped.fts_query, Some("\"50%_off\"".to_string()));
    assert_eq!(escaped.like_pattern, "%50\\%\\_off%");

    assert!(plan_text_search(SearchTextInput {
        query: " * ".to_string(),
        regex: None,
        language: None,
        path_filter: None,
        limit: None,
        context_lines: None,
    })
    .is_none());
}

#[test]
fn regex_rows_are_filtered_in_order() {
    let re = search_regex("fo+").expect("valid");
    let rows = vec![(1, 1, "foo".to_string()), (1, 2, "bar".to_string()), (2, 1, "fooo".to_string())];
    let all = filter_regex_rows(&re, &rows, 10);
    assert_eq!(all, vec![(1, 1, "foo".to_string()), (2, 1, "fooo".to_string())]);
    let one = filter_regex_rows(&re, &rows, 1);
    assert_eq!(one, vec![(1, 1, "foo".to_string())]);
    assert!(search_regex("(unclosed").is_err());
}

#[test]
fn file_ids_sorted_and_distinct() {
    let rows = vec![(3, 1, String::new()), (1, 1, String::new()), (3, 2, String::new()), (2, 9, String::new())];
    assert_eq!(distinct_file_ids(&rows), vec![1, 2, 3]);
}

#[test]
fn context_windows_and_sides() {
    assert_eq!(context_window(1, 2), (1, 3));
    assert_eq!(context_window(10, 2), (8, 12));
    let rows = vec![(1, "a".to_string()), (2, "b".to_string()), (3, "c".to_string()), (4, "d".to_string())];
    let (before, after) = split_context(&rows, 2);
    assert_eq!(before, vec!["a".to_string()]);
    assert_eq!(after, vec!["c".to_string(), "d".to_string()]);
}

#[test]
fn reference_plan() {
    let plan = plan_references(&FindReferencesInput {
        symbol: "Bin\"d".to_string(),
        language: None,
        limit: Some(900),
    });
    assert_eq!(plan.fts_query, "\"Bin\"\"d\"");
    assert_eq!(plan.like_pattern, "%Bin\"d%");
    assert_eq!(plan.limit, 500);
    let default = plan_references(&FindReferencesInput { symbol: "x".to_string(), language: None, limit: None });
    assert_eq!(default.limit, 100);
    let negative = plan_references(&FindReferencesInput { symbol: "x".to_string(), language: None, limit: Some(-3) });
    assert_eq!(negative.limit, 0);
    assert_eq!(anchor_lsp_position(10, 5), (9, 4));
    assert_eq!(reference_line_no(0), 1);
}

fn def(file: &str) -> DefinitionResult {
    DefinitionResult {
        name: "Foo".to_string(),
        kind: "class".to_string(),
        file: file.to_string(),
        language: "java".to_string(),
        start_line: 3,
        start_col: 0,
        end_line: 9,
        end_col: 1,
        container: "p".to_string(),
        signature: "".to_string(),
    }
}

#[test]
fn lsp_definitions_are_prepended() {
    let merged = merge_lsp_definitions(
        vec![def("/a/Foo.java")],
        vec![("/a/Foo.java".to_string(), 1, 1), ("/b/Foo.java".to_string(), 7, 4)],
        "Foo",
    );
    assert_eq!(merged.len(), 2);
    assert_eq!(merged[0].file, "/b/Foo.java");
    assert_eq!((merged[0].start_line, merged[0].start_col, merged[0].end_line, merged[0].end_col), (7, 4, 7, 4));
    assert_eq!(merged[0].kind, "class");
    assert_eq!(merged[0].container, "p");
    assert_eq!(merged[1].file, "/a/Foo.java");
    assert_eq!(merged[1].start_line, 3);
    let unchanged = merge_lsp_definitions(vec![def("/a/Foo.java")], vec![], "Foo");
    assert_eq!(unchanged.len(), 1);
}

#[test]
fn anchors() {
    assert_eq!(anchor_position_exec("  foo(x)", "foo", 5), Some((4, 2)));
    assert_eq!(anchor_position_exec("é foo", "foo", 1), Some((0, 3)));
    assert_eq!(anchor_position_exec("bar", "foo", 1), None);
    let defs = anchor_definitions(vec![("/x/A.kt".to_string(), 2, 6)], "go", "kotlin");
    assert_eq!(defs.len(), 1);
    assert_eq!(defs[0].kind, "definition");
    assert_eq!(defs[0].language, "kotlin");
    assert_eq!(defs[0].name, "go");
    assert_eq!((defs[0].start_line, defs[0].start_col), (2, 6));
}

#[test]
fn anchor_replies_decide_whether_to_go_on() {
    assert!(anchor_reply(None, "go", "kotlin").is_none());
    assert!(anchor_reply(Some(vec![]), "go", "kotlin").is_none());
    let found = anchor_reply(Some(vec![("/x/A.kt".to_string(), 2, 6)]), "go", "kotlin").expect("a location");
    assert_eq!(found.len(), 1);
    assert_eq!(found[0].file, "/x/A.kt");
    assert_eq!(found[0].kind, "definition");
}

#[test]
fn list_patterns_and_limits() {
    assert_eq!(path_pattern("*.java"), "%.java");
    assert_eq!(path_pattern("frameworks/base"), "%frameworks/base%");
    assert_eq!(list_limit(None), 200);
    assert_eq!(list_limit(Some(5000)), 2000);
    assert_eq!(list_limit(Some(10)), 10);
    assert_eq!(list_limit(Some(-1)), 0);
}

#[test]
fn counts_read_back() {
    assert_eq!(parse_i64_exec("42"), Some(42));
    assert_eq!(parse_i64_exec("-7"), Some(-7));
    assert_eq!(parse_i64_exec("+5"), Some(5));
    assert_eq!(parse_i64_exec(""), None);
    assert_eq!(parse_i64_exec("1 2"), None);
    assert_eq!(parse_i64_exec("9223372036854775807"), Some(i64::MAX));
    assert_eq!(parse_i64_exec("9223372036854775808"), None);
    assert_eq!(parse_i64_exec("-9223372036854775808"), Some(i64::MIN));
    assert_eq!(render_count(0), "0");
    assert_eq!(render_count(1234), "1234");
    for n in [0usize, 7, 10, 500, 142500] {
        assert_eq!(stored_count_exec(Some(render_count(n))), n as i64);
    }
    assert_eq!(stored_count_exec(Some("x".to_string())), 0);
    assert_eq!(stored_count_exec(None), 0);
}

#[test]
fn status_defaults() {
    let s = IndexStatus::from_progress(None, Some("10".to_string()), None, None, 4, 20, vec![], vec![]);
    assert_eq!(s.status, "idle");
    assert_eq!(s.fts_status, "ready");
    assert_eq!(s.total_files, 10);
    assert_eq!(s.indexed_files, 0);
    assert_eq!(s.stored_files, 4);
    assert_eq!(s.total_symbols, 20);
    assert_eq!(s.errors, 0);
    let t = IndexStatus::from_progress(
        Some("indexing".to_string()),
        None,
        Some("3".to_string()),
        Some("upgrading".to_string()),
        0,
        0,
        vec![("java".to_string(), 2)],
        vec![],
    );
    assert_eq!(t.status, "indexing");
    assert_eq!(t.fts_status, "upgrading");
    assert_eq!(t.indexed_files, 3);
    assert_eq!(t.files_by_language, vec![("java".to_string(), 2)]);
}

#[test]
fn status_counts_keep_one_entry_per_key() {
    let s = IndexStatus::from_progress(
        None,
        None,
        None,
        None,
        0,
        0,
        vec![("java".to_string(), 2), ("go".to_string(), 1), ("java".to_string(), 5)],
        vec![("method".to_string(), 7), ("class".to_string(), 3)],
    );
    assert_eq!(s.files_by_language, vec![("java".to_string(), 5), ("go".to_string(), 1)]);
    assert_eq!(s.symbols_by_kind, vec![("method".to_string(), 7), ("class".to_string(), 3)]);
}

fn brief(m: &AstMatch) -> (String, String, u32, u32, u32, u32) {
    (m.capture_name.clone(), m.text.clone(), m.start_line, m.start_col, m.end_line, m.end_col)
}

#[test]
fn ast_query_captures_nodes() {
    let input = AstQueryInput {
        file_path: "/x/A.java".to_string(),
        pattern: "(method_declaration name: (identifier) @m)".to_string(),
    };
    let out = AstQueryTool.query(&input, "class A { void f() {} void g() {} }").ok().expect("matches");
    let got: Vec<_> = out.iter().map(brief).collect();
    assert_eq!(
        got,
        vec![("m".to_string(), "f".to_string(), 0, 15, 0, 16), ("m".to_string(), "g".to_string(), 0, 27, 0, 28)]
    );
}

#[test]
fn ast_query_errors() {
    let q = |path: &str, pattern: &str| {
        AstQueryTool.query(&AstQueryInput { file_path: path.to_string(), pattern: pattern.to_string() }, "x")
    };
    match q("/x/a.unknown", "(x)") {
        Err(AstQueryError::UnsupportedFileType(f)) => assert_eq!(f, "/x/a.unknown"),
        _ => panic!("expected an unsupported file type"),
    }
    match q("/x/a.go", "(x)") {
        Err(e @ AstQueryError::NotSupported(_)) => {
            assert_eq!(e.message(), "AST query is not supported for file /x/a.go")
        }
        _ => panic!("expected no query support"),
    }
    match q("/x/a.rs", "(x)") {
        Err(e @ AstQueryError::LanguageNotSupported(_, _)) => {
            assert_eq!(e.message(), "AST query is not supported for language 'rs' in file /x/a.rs")
        }
        _ => panic!("expected no query support for the language"),
    }
    assert!(matches!(q("/x/a.kt", "((("), Err(AstQueryError::InvalidQuery(_))));
    assert!(matches!(query_language("/x/a.unknown"), Err(AstQueryError::UnsupportedFileType(_))));
    assert_eq!(AstQueryError::UnsupportedFileType("f".to_string()).message(), "Unsupported file type: f");
    assert_eq!(AstQueryError::ParseFailed("f".to_string()).message(), "Failed to parse f");
}

#[test]
fn captures_become_matches() {
    let caps = vec![
        CaptureInfo { name: "a".to_string(), start_byte: 3, end_byte: 6, start_row: 0, start_col: 3, end_row: 0, end_col: 6 },
        CaptureInfo { name: "b".to_string(), start_byte: 2, end_byte: 4, start_row: 1, start_col: 2, end_row: 1, end_col: 4 },
    ];
    let out = matches_from_captures("héllo", &caps);
    let got: Vec<_> = out.iter().map(brief).collect();
    assert_eq!(got, vec![("a".to_string(), "llo".to_string(), 0, 3, 0, 6), ("b".to_string(), "".to_string(), 1, 2, 1, 4)]);
}
