use code_search::indexer::{aidl, cpp, go, gradle, groovy, java, json, kotlin, make, ruby, xml, yaml};
use code_search::symbol::Symbol;

fn brief(s: &Symbol) -> (String, String, String) {
    (s.name.clone(), s.kind.clone(), s.container.clone())
}

fn span(s: &Symbol) -> (u32, u32, u32, u32) {
    (s.start_line, s.start_col, s.end_line, s.end_col)
}

fn t(name: &str, kind: &str, container: &str) -> (String, String, String) {
    (name.to_string(), kind.to_string(), container.to_string())
}

#[test]
fn java_types_members_and_fields() {
    let src = "package p;\nclass A {\n  int x, y;\n  A() {}\n  void run(int n) {}\n}\n";
    let syms = java::extract_symbols(src);
    let got: Vec<_> = syms.iter().map(brief).collect();
    assert_eq!(
        got,
        vec![
            t("A", "class", "p"),
            t("run", "method", "p.A"),
            t("A", "constructor", "p.A"),
            t("x", "field", "p.A"),
            t("y", "field", "p.A"),
        ]
    );
    assert_eq!(span(&syms[0]), (1, 0, 5, 1));
    assert_eq!(syms[1].signature, "void run(int n)");
    assert_eq!(span(&syms[1]), (4, 2, 4, 20));
    assert_eq!(syms[2].signature, "A()");
    assert_eq!(span(&syms[3]), (2, 2, 2, 11));
    assert_eq!(span(&syms[4]), (2, 2, 2, 11));
    assert_eq!(syms[3].signature, "");
}

#[test]
fn java_top_level_types_take_the_package() {
    let src = "package android.app;\npublic class ActivityManager {}\n";
    let got: Vec<_> = java::extract_symbols(src).iter().map(brief).collect();
    assert_eq!(got, vec![t("ActivityManager", "class", "android.app")]);
}

#[test]
fn java_nested_types_use_dotted_containers() {
    let src = "class Outer {\n  interface Inner {\n    void go();\n  }\n}\n";
    let got: Vec<_> = java::extract_symbols(src).iter().map(brief).collect();
    assert_eq!(
        got,
        vec![
            t("Outer", "class", ""),
            t("Inner", "interface", "Outer"),
            t("go", "method", "Outer.Inner"),
        ]
    );
}

#[test]
fn kotlin_object_and_function() {
    let src = "object Config {\n    fun load() {}\n}\n";
    let syms = kotlin::extract_symbols(src);
    let got: Vec<_> = syms.iter().map(brief).collect();
    assert_eq!(got, vec![t("Config", "object", ""), t("load", "function", "Config")]);
    assert_eq!(syms[1].signature, "fun load");
    assert_eq!(span(&syms[1]), (1, 4, 1, 17));
}

#[test]
fn cpp_namespace_struct_variable_and_function() {
    let src = "namespace ns {\nstruct P { int a; };\nint g = 1;\nint main() { return 0; }\n}\n";
    let syms = cpp::extract_symbols(src);
    let got: Vec<_> = syms.iter().map(brief).collect();
    assert_eq!(
        got,
        vec![t("main", "function", "ns"), t("g", "variable", "ns"), t("P", "struct", "ns")]
    );
    assert_eq!(syms[0].signature, "int main()");
    assert_eq!(span(&syms[0]), (3, 0, 3, 24));
    assert_eq!(span(&syms[1]), (2, 0, 2, 10));
    assert_eq!(span(&syms[2]), (1, 0, 1, 19));
}

#[test]
fn cpp_names_come_from_declarators() {
    let src = "int add(int x, int y) { return x + y; }\nint x = y;\nint *p = q;\nvoid Foo::bar(int z) {}\n";
    let syms = cpp::extract_symbols(src);
    let got: Vec<_> = syms.iter().map(brief).collect();
    assert_eq!(
        got,
        vec![
            t("bar", "function", ""),
            t("p", "variable", ""),
            t("x", "variable", ""),
            t("add", "function", ""),
        ]
    );
    assert_eq!(syms[0].signature, "void Foo::bar(int z)");
    assert_eq!(syms[3].signature, "int add(int x, int y)");
}

#[test]
fn cpp_anonymous_namespace_and_class() {
    let src = "namespace {\nclass K {};\n}\n";
    let got: Vec<_> = cpp::extract_symbols(src).iter().map(brief).collect();
    assert_eq!(got, vec![t("K", "class", "<anon>")]);
}

#[test]
fn go_types_functions_and_variables() {
    let src = "package main\n\ntype S struct{}\n\nfunc F() {}\n\nvar x, y = 1, 2\n";
    let syms = go::extract_symbols(src);
    let got: Vec<_> = syms.iter().map(brief).collect();
    assert_eq!(
        got,
        vec![
            t("x", "variable", ""),
            t("y", "variable", ""),
            t("F", "function", ""),
            t("S", "struct", ""),
        ]
    );
    assert_eq!(span(&syms[0]), (6, 4, 6, 5));
    assert_eq!(span(&syms[1]), (6, 7, 6, 8));
    assert_eq!(syms[0].signature, "x, y = 1, 2");
    assert_eq!(syms[2].signature, "func F() {}");
    assert_eq!(syms[3].signature, "S struct{}");
    assert_eq!(span(&syms[3]), (2, 5, 2, 15));
}

#[test]
fn ruby_modules_classes_methods() {
    let src = "module M\n  class C\n    def run; end\n  end\nend\n";
    let syms = ruby::extract_symbols(src);
    let got: Vec<_> = syms.iter().map(brief).collect();
    assert_eq!(got, vec![t("M", "module", ""), t("C", "class", "M"), t("run", "method", "M::C")]);
    assert_eq!(syms[2].signature, "def run; end");
    assert_eq!(syms[1].signature, "class C\n    def run; end\n  end");
}

#[test]
fn json_keys_nest_by_path() {
    let src = "{\"a\": {\"b\": 1}, \"c\": [true]}";
    let syms = json::extract_symbols(src);
    let got: Vec<_> = syms.iter().map(brief).collect();
    assert_eq!(got, vec![t("c", "key", ""), t("a", "key", ""), t("b", "key", "a")]);
    assert_eq!(syms[0].signature, "array");
    assert_eq!(syms[1].signature, "object");
    assert_eq!(syms[2].signature, "number");
    assert_eq!(span(&syms[0]), (0, 16, 0, 19));
    assert_eq!(span(&syms[1]), (0, 1, 0, 4));
    assert_eq!(span(&syms[2]), (0, 7, 0, 10));
}

#[test]
fn tree_extractors_on_empty_source() {
    assert!(java::extract_symbols("").is_empty());
    assert!(go::extract_symbols("").is_empty());
    assert!(json::extract_symbols("").is_empty());
}

#[test]
fn yaml_keys_and_list_keys() {
    let src = "server:\n  port: 8080\n  hosts:\n    - name: a\n# note\n";
    let syms = yaml::extract_symbols(src);
    let got: Vec<_> = syms.iter().map(brief).collect();
    assert_eq!(
        got,
        vec![
            t("server", "key", ""),
            t("port", "key", "server"),
            t("hosts", "key", "server"),
            t("name", "key", "server.hosts"),
        ]
    );
    assert_eq!(span(&syms[1]), (1, 2, 1, 6));
    assert_eq!(syms[1].signature, "port: 8080");
    assert_eq!(span(&syms[3]), (3, 6, 3, 10));
    assert_eq!(syms[3].signature, "- name: a");
}

#[test]
fn aidl_types_and_methods() {
    let src = "package com.example;\ninterface IFoo {\n    void ping();\n    oneway void send(in String msg);\n}\n";
    let syms = aidl::extract_symbols(src);
    let got: Vec<_> = syms.iter().map(brief).collect();
    assert_eq!(
        got,
        vec![
            t("IFoo", "interface", "com.example"),
            t("ping", "method", "com.example.IFoo"),
            t("send", "method", "com.example.IFoo"),
        ]
    );
    assert_eq!(span(&syms[0]), (1, 10, 1, 14));
    assert_eq!(span(&syms[2]), (3, 16, 3, 20));
    assert_eq!(syms[2].signature, "oneway void send(in String msg);");
}

#[test]
fn xml_elements_with_paths() {
    let src = "<root>\n  <item id=\"1\"/>\n  <group>\n    <leaf></leaf>\n  </group>\n</root>\n";
    let syms = xml::extract_symbols(src);
    let got: Vec<_> = syms.iter().map(brief).collect();
    assert_eq!(
        got,
        vec![
            t("root", "element", ""),
            t("item", "element", "root"),
            t("group", "element", "root"),
            t("leaf", "element", "root/group"),
        ]
    );
    assert_eq!(syms[1].signature, "<item id=\"1\"/>");
    assert_eq!(span(&syms[3]), (3, 5, 3, 9));
}

#[test]
fn make_targets_and_variables() {
    let src = "CC := gcc\nall: main.o\n\t$(CC) -o all main.o\n# note: x\nOPT ?= -O2\n";
    let syms = make::extract_symbols(src);
    let got: Vec<_> = syms.iter().map(brief).collect();
    assert_eq!(
        got,
        vec![t("CC", "variable", ""), t("all", "target", ""), t("OPT", "variable", "")]
    );
    assert_eq!(span(&syms[0]), (0, 0, 0, 2));
    assert_eq!(syms[0].signature, "CC := gcc");
    assert_eq!(span(&syms[1]), (1, 0, 1, 3));
    assert_eq!(syms[1].signature, "all: main.o");
    assert_eq!(span(&syms[2]), (4, 0, 4, 3));
}

#[test]
fn groovy_classes_and_methods_with_scope() {
    let src = "class Foo {\n    def bar() {\n    }\n}\ndef top() {}\n";
    let syms = groovy::extract_symbols(src);
    let got: Vec<_> = syms.iter().map(brief).collect();
    assert_eq!(got, vec![t("Foo", "class", ""), t("bar", "method", "Foo"), t("top", "method", "")]);
    assert_eq!(span(&syms[0]), (0, 6, 0, 9));
    assert_eq!(syms[1].signature, "def bar() {");
}

#[test]
fn groovy_skips_comment_lines() {
    assert!(groovy::extract_symbols("// def a() {\nelse if (x) {\n").is_empty());
    let syms = groovy::extract_symbols(" * def hidden() {\n/* start */\ndef shown() {}\n");
    let got: Vec<_> = syms.iter().map(brief).collect();
    assert_eq!(got, vec![t("shown", "method", "")]);
    assert_eq!(span(&syms[0]), (2, 4, 2, 9));
    assert_eq!(syms[0].signature, "def shown() {}");
}

#[test]
fn line_scans_find_names_on_their_lines() {
    let src = "key: 1\n  inner: x\nother: yes\n";
    let syms = yaml::extract_symbols(src);
    let lines: Vec<&str> = src.lines().collect();
    assert!(!syms.is_empty());
    for w in syms.windows(2) {
        assert!(w[0].start_line <= w[1].start_line);
    }
    for s in &syms {
        let line = lines[s.start_line as usize];
        assert_eq!(s.end_line, s.start_line);
        assert_eq!(s.start_col as usize, line.find(&s.name).unwrap());
        assert_eq!(s.end_col as usize, s.start_col as usize + s.name.len());
        assert_eq!(s.signature, line.trim());
    }
}

#[test]
fn gradle_one_task_per_defining_line() {
    let src = "task a\ndef x() {}\ntasks.named('b') {\n}\n// task c\ntask d task e\n";
    let syms = gradle::extract_symbols(src);
    let groovy_len = groovy::extract_symbols(src).len();
    let tasks: Vec<_> = syms[groovy_len..].iter().map(|s| (s.name.clone(), s.start_line, s.container.clone())).collect();
    assert_eq!(
        tasks,
        vec![
            ("a".to_string(), 0, String::new()),
            ("b".to_string(), 2, String::new()),
            ("d".to_string(), 5, String::new()),
        ]
    );
}

#[test]
fn groovy_skips_control_keywords() {
    let src = "else if (a) {\n}\n";
    assert!(groovy::extract_symbols(src).is_empty());
}

#[test]
fn gradle_adds_tasks_after_groovy_symbols() {
    let src = "def helper() {}\ntask hello {\n}\ntasks.register(\"build2\")\n";
    let syms = gradle::extract_symbols(src);
    let got: Vec<_> = syms.iter().map(brief).collect();
    assert_eq!(got, vec![t("helper", "method", ""), t("hello", "task", ""), t("build2", "task", "")]);
    assert_eq!(span(&syms[1]), (1, 5, 1, 10));
    assert_eq!(span(&syms[2]), (3, 16, 3, 22));
    let groovy_part: Vec<_> = groovy::extract_symbols(src).iter().map(brief).collect();
    assert_eq!(groovy_part, got[..groovy_part.len()].to_vec());
}
