//! Languages, symbol extraction, and the indexing pipeline's decisions.
pub mod aidl;
pub mod cpp;
pub mod go;
pub mod gradle;
pub mod groovy;
pub mod java;
pub mod json;
pub mod kotlin;
pub mod make;
pub mod pipeline;
pub mod ruby;
pub mod treesitter;
pub mod xml;
pub mod yaml;

pub use crate::symbol::Symbol;

use vstd::prelude::*;

use crate::paths::{
    extension, extension_exec, file_name, file_name_exec, is_named_piece, last_dot,
    lemma_file_name_of_joined, path_strip_prefix, strip_prefix,
};
use crate::text::{ascii_lower, ascii_lower_exec, chars_eq, chars_of, first_occurrence, first_occurrence_exec, starts_with, starts_with_exec, string_from_chars};

verus! {

/// The languages the index knows. `Other` holds the lower-case extension of
/// formats that are indexed as files only.
#[derive(Debug, Clone, PartialEq, Eq)]
pub enum Language {
    Java,
    Kotlin,
    C,
    Cpp,
    Make,
    Go,
    Groovy,
    Gradle,
    Ruby,
    Json,
    Xml,
    Yaml,
    Aidl,
    Other(String),
}

/// The value a `Language` holds.
pub enum LanguageView {
    Java,
    Kotlin,
    C,
    Cpp,
    Make,
    Go,
    Groovy,
    Gradle,
    Ruby,
    Json,
    Xml,
    Yaml,
    Aidl,
    Other(Seq<char>),
}

impl View for Language {
    type V = LanguageView;

    open spec fn view(&self) -> LanguageView {
        match self {
            Language::Java => LanguageView::Java,
            Language::Kotlin => LanguageView::Kotlin,
            Language::C => LanguageView::C,
            Language::Cpp => LanguageView::Cpp,
            Language::Make => LanguageView::Make,
            Language::Go => LanguageView::Go,
            Language::Groovy => LanguageView::Groovy,
            Language::Gradle => LanguageView::Gradle,
            Language::Ruby => LanguageView::Ruby,
            Language::Json => LanguageView::Json,
            Language::Xml => LanguageView::Xml,
            Language::Yaml => LanguageView::Yaml,
            Language::Aidl => LanguageView::Aidl,
            Language::Other(s) => LanguageView::Other(s@),
        }
    }
}

/// File names that are Makefiles whatever their extension.
pub open spec fn is_makefile_name(n: Seq<char>) -> bool {
    n == "Makefile"@ || n == "makefile"@ || n == "GNUmakefile"@
}

/// Extensions indexed as files only, without symbols.
pub open spec fn is_plain_text_ext(e: Seq<char>) -> bool {
    e == "toml"@ || e == "py"@ || e == "js"@ || e == "jsx"@ || e == "ts"@ || e == "tsx"@ || e
        == "rs"@ || e == "swift"@ || e == "scala"@ || e == "sh"@ || e == "bash"@ || e == "zsh"@
        || e == "bp"@ || e == "proto"@ || e == "smali"@
}

/// The language of a lower-case extension.
pub open spec fn language_for_ext(e: Seq<char>) -> Option<LanguageView> {
    if e == "java"@ {
        Some(LanguageView::Java)
    } else if e == "kt"@ || e == "kts"@ {
        Some(LanguageView::Kotlin)
    } else if e == "c"@ || e == "h"@ {
        Some(LanguageView::C)
    } else if e == "cpp"@ || e == "cc"@ || e == "cxx"@ || e == "hpp"@ || e == "hxx"@ || e == "c++"@ {
        Some(LanguageView::Cpp)
    } else if e == "go"@ {
        Some(LanguageView::Go)
    } else if e == "groovy"@ {
        Some(LanguageView::Groovy)
    } else if e == "gradle"@ {
        Some(LanguageView::Gradle)
    } else if e == "rb"@ {
        Some(LanguageView::Ruby)
    } else if e == "json"@ {
        Some(LanguageView::Json)
    } else if e == "xml"@ {
        Some(LanguageView::Xml)
    } else if e == "yaml"@ || e == "yml"@ {
        Some(LanguageView::Yaml)
    } else if e == "aidl"@ {
        Some(LanguageView::Aidl)
    } else if e == "mk"@ {
        Some(LanguageView::Make)
    } else if is_plain_text_ext(e) {
        Some(LanguageView::Other(e))
    } else {
        None
    }
}

/// The language of a path: Makefiles by name, everything else by the
/// extension, compared without regard to ASCII case.
pub open spec fn language_of_path(p: Seq<char>) -> Option<LanguageView> {
    if file_name(p) is Some && is_makefile_name(file_name(p)->0) {
        Some(LanguageView::Make)
    } else {
        match extension(p) {
            None => None,
            Some(e) => language_for_ext(ascii_lower(e)),
        }
    }
}

/// The key under which a language is stored.
pub open spec fn language_key(l: LanguageView) -> Seq<char> {
    match l {
        LanguageView::Java => "java"@,
        LanguageView::Kotlin => "kotlin"@,
        LanguageView::C => "c"@,
        LanguageView::Cpp => "cpp"@,
        LanguageView::Make => "make"@,
        LanguageView::Go => "go"@,
        LanguageView::Groovy => "groovy"@,
        LanguageView::Gradle => "gradle"@,
        LanguageView::Ruby => "rb"@,
        LanguageView::Json => "json"@,
        LanguageView::Xml => "xml"@,
        LanguageView::Yaml => "yaml"@,
        LanguageView::Aidl => "aidl"@,
        LanguageView::Other(e) => e,
    }
}

fn ext_is(e: &[char], lit: &str) -> (r: bool)
    ensures
        r == (e@ == lit@),
{
    chars_eq(e, &chars_of(lit))
}

fn is_plain_text_ext_exec(e: &[char]) -> (r: bool)
    ensures
        r == is_plain_text_ext(e@),
{
    ext_is(e, "toml") || ext_is(e, "py") || ext_is(e, "js") || ext_is(e, "jsx") || ext_is(e, "ts")
        || ext_is(e, "tsx") || ext_is(e, "rs") || ext_is(e, "swift") || ext_is(e, "scala")
        || ext_is(e, "sh") || ext_is(e, "bash") || ext_is(e, "zsh") || ext_is(e, "bp") || ext_is(
        e,
        "proto",
    ) || ext_is(e, "smali")
}

fn language_for_ext_exec(e: Vec<char>) -> (r: Option<Language>)
    ensures
        match language_for_ext(e@) {
            Some(l) => r matches Some(x) && x@ == l,
            None => r is None,
        },
{
    if ext_is(&e, "java") {
        Some(Language::Java)
    } else if ext_is(&e, "kt") || ext_is(&e, "kts") {
        Some(Language::Kotlin)
    } else if ext_is(&e, "c") || ext_is(&e, "h") {
        Some(Language::C)
    } else if ext_is(&e, "cpp") || ext_is(&e, "cc") || ext_is(&e, "cxx") || ext_is(&e, "hpp")
        || ext_is(&e, "hxx") || ext_is(&e, "c++") {
        Some(Language::Cpp)
    } else if ext_is(&e, "go") {
        Some(Language::Go)
    } else if ext_is(&e, "groovy") {
        Some(Language::Groovy)
    } else if ext_is(&e, "gradle") {
        Some(Language::Gradle)
    } else if ext_is(&e, "rb") {
        Some(Language::Ruby)
    } else if ext_is(&e, "json") {
        Some(Language::Json)
    } else if ext_is(&e, "xml") {
        Some(Language::Xml)
    } else if ext_is(&e, "yaml") || ext_is(&e, "yml") {
        Some(Language::Yaml)
    } else if ext_is(&e, "aidl") {
        Some(Language::Aidl)
    } else if ext_is(&e, "mk") {
        Some(Language::Make)
    } else if is_plain_text_ext_exec(&e) {
        Some(Language::Other(string_from_chars(&e)))
    } else {
        None
    }
}

impl Language {
    /// The language of a file, from its name (Makefiles) or its extension.
    pub fn from_path(path: &str) -> (r: Option<Language>)
        ensures
            match language_of_path(path@) {
                Some(l) => r matches Some(x) && x@ == l,
                None => r is None,
            },
    {
        let p = chars_of(path);
        match file_name_exec(&p) {
            Some(n) => {
                if ext_is(&n, "Makefile") || ext_is(&n, "makefile") || ext_is(&n, "GNUmakefile") {
                    return Some(Language::Make);
                }
            },
            None => {},
        }
        match extension_exec(&p) {
            None => None,
            Some(e) => language_for_ext_exec(ascii_lower_exec(&e)),
        }
    }

    /// The key under which the language is stored (`rb` for Ruby, the
    /// extension for `Other`).
    pub fn as_str(&self) -> (r: &str)
        ensures
            r@ == language_key(self@),
    {
        match self {
            Language::Java => "java",
            Language::Kotlin => "kotlin",
            Language::C => "c",
            Language::Cpp => "cpp",
            Language::Make => "make",
            Language::Go => "go",
            Language::Groovy => "groovy",
            Language::Gradle => "gradle",
            Language::Ruby => "rb",
            Language::Json => "json",
            Language::Xml => "xml",
            Language::Yaml => "yaml",
            Language::Aidl => "aidl",
            Language::Other(lang) => lang.as_str(),
        }
    }
}

/// Extensions of binary or compiled artefacts.
pub open spec fn is_artifact_ext(e: Seq<char>) -> bool {
    e == "so"@ || e == "a"@ || e == "o"@ || e == "class"@ || e == "jar"@ || e == "aar"@ || e
        == "dex"@ || e == "apk"@ || e == "img"@ || e == "bin"@ || e == "zip"@ || e == "gz"@ || e
        == "tar"@ || e == "7z"@ || e == "png"@ || e == "jpg"@ || e == "jpeg"@ || e == "gif"@ || e
        == "webp"@ || e == "ico"@ || e == "ttf"@ || e == "otf"@ || e == "woff"@ || e == "woff2"@
        || e == "mp3"@ || e == "mp4"@ || e == "ogg"@ || e == "wav"@
}

/// Whether a relative path lies in generated output, repository metadata or
/// prebuilt trees.
pub open spec fn is_skipped_tree(rel: Seq<char>) -> bool {
    starts_with(rel, "out/"@) || starts_with(rel, ".repo/"@) || starts_with(rel, ".git/"@)
        || starts_with(rel, "prebuilts/"@) || first_occurrence(rel, "/.git/"@) is Some
        || first_occurrence(rel, "/out/"@) is Some
}

/// Whether the walk leaves a file out: by where it lies below `root`, or
/// because its extension marks a binary artefact.
pub open spec fn skipped(path: Seq<char>, root: Seq<char>) -> bool {
    let rel = match path_strip_prefix(path, root) {
        Some(r) => r,
        None => path,
    };
    is_skipped_tree(rel) || (extension(path) is Some && is_artifact_ext(extension(path)->0))
}

fn is_artifact_ext_exec(e: &[char]) -> (r: bool)
    ensures
        r == is_artifact_ext(e@),
{
    ext_is(e, "so") || ext_is(e, "a") || ext_is(e, "o") || ext_is(e, "class") || ext_is(e, "jar")
        || ext_is(e, "aar") || ext_is(e, "dex") || ext_is(e, "apk") || ext_is(e, "img") || ext_is(
        e,
        "bin",
    ) || ext_is(e, "zip") || ext_is(e, "gz") || ext_is(e, "tar") || ext_is(e, "7z") || ext_is(
        e,
        "png",
    ) || ext_is(e, "jpg") || ext_is(e, "jpeg") || ext_is(e, "gif") || ext_is(e, "webp") || ext_is(
        e,
        "ico",
    ) || ext_is(e, "ttf") || ext_is(e, "otf") || ext_is(e, "woff") || ext_is(e, "woff2") || ext_is(
        e,
        "mp3",
    ) || ext_is(e, "mp4") || ext_is(e, "ogg") || ext_is(e, "wav")
}

/// Whether the walk leaves a file out (generated, metadata, prebuilt or
/// binary).
pub fn should_skip(path: &str, root: &str) -> (r: bool)
    ensures
        r == skipped(path@, root@),
{
    let rel = match strip_prefix(path, root) {
        Some(r) => chars_of(r.as_str()),
        None => chars_of(path),
    };
    if starts_with_exec(&rel, &chars_of("out/")) || starts_with_exec(&rel, &chars_of(".repo/"))
        || starts_with_exec(&rel, &chars_of(".git/")) || starts_with_exec(
        &rel,
        &chars_of("prebuilts/"),
    ) || first_occurrence_exec(&rel, &chars_of("/.git/")).is_some() || first_occurrence_exec(
        &rel,
        &chars_of("/out/"),
    ).is_some() {
        return true;
    }
    let p = chars_of(path);
    match extension_exec(&p) {
        Some(e) => is_artifact_ext_exec(&e),
        None => false,
    }
}

/// Files under `out/` and `.repo/` below the indexed root are never
/// indexed, nor files whose extension marks a binary artefact.
pub proof fn law_generated_trees_skipped(path: Seq<char>, root: Seq<char>)
    ensures
        path_strip_prefix(path, root) matches Some(rel) && (starts_with(rel, "out/"@) || starts_with(rel, ".repo/"@)) ==> skipped(path, root),
        extension(path) matches Some(e) && is_artifact_ext(e) ==> skipped(path, root),
{
}

proof fn lemma_last_dot_is_dot(s: Seq<char>)
    ensures
        last_dot(s) matches Some(k) ==> 0 <= k < s.len() && s[k] == '.',
    decreases s.len(),
{
    if s.len() > 0 && s.last() != '.' {
        lemma_last_dot_is_dot(s.drop_last());
    }
}

/// The language of a file depends on its name alone: a name without `/`
/// gives the same language wherever it stands.
pub proof fn law_language_by_file_name(dir: Seq<char>, name: Seq<char>)
    requires
        forall|i: int| 0 <= i < name.len() ==> name[i] != '/',
        is_named_piece(name),
    ensures
        language_of_path(dir + seq!['/'] + name) == language_of_path(name),
{
    lemma_file_name_of_joined(dir, name);
}

/// Extensions are compared without regard to ASCII case: two paths whose
/// extensions differ only in case have the same language.
pub proof fn law_language_ignores_extension_case(p: Seq<char>, q: Seq<char>)
    requires
        extension(p) is Some,
        extension(q) is Some,
        ascii_lower(extension(p)->0) == ascii_lower(extension(q)->0),
    ensures
        language_of_path(p) == language_of_path(q),
{
    reveal_strlit("Makefile");
    reveal_strlit("makefile");
    reveal_strlit("GNUmakefile");
    lemma_last_dot_is_dot(file_name(p)->0);
    lemma_last_dot_is_dot(file_name(q)->0);
    assert(!is_makefile_name(file_name(p)->0));
    assert(!is_makefile_name(file_name(q)->0));
}

proof fn lemma_language_for_ext_table(e: Seq<char>)
    ensures
        e == "java"@ ==> language_for_ext(e) == Some(LanguageView::Java),
        e == "kt"@ ==> language_for_ext(e) == Some(LanguageView::Kotlin),
        e == "kts"@ ==> language_for_ext(e) == Some(LanguageView::Kotlin),
        e == "c"@ ==> language_for_ext(e) == Some(LanguageView::C),
        e == "h"@ ==> language_for_ext(e) == Some(LanguageView::C),
        e == "cpp"@ ==> language_for_ext(e) == Some(LanguageView::Cpp),
        e == "cc"@ ==> language_for_ext(e) == Some(LanguageView::Cpp),
        e == "cxx"@ ==> language_for_ext(e) == Some(LanguageView::Cpp),
        e == "hpp"@ ==> language_for_ext(e) == Some(LanguageView::Cpp),
        e == "hxx"@ ==> language_for_ext(e) == Some(LanguageView::Cpp),
        e == "c++"@ ==> language_for_ext(e) == Some(LanguageView::Cpp),
        e == "go"@ ==> language_for_ext(e) == Some(LanguageView::Go),
        e == "groovy"@ ==> language_for_ext(e) == Some(LanguageView::Groovy),
        e == "gradle"@ ==> language_for_ext(e) == Some(LanguageView::Gradle),
        e == "rb"@ ==> language_for_ext(e) == Some(LanguageView::Ruby),
        e == "json"@ ==> language_for_ext(e) == Some(LanguageView::Json),
        e == "xml"@ ==> language_for_ext(e) == Some(LanguageView::Xml),
        e == "yaml"@ ==> language_for_ext(e) == Some(LanguageView::Yaml),
        e == "yml"@ ==> language_for_ext(e) == Some(LanguageView::Yaml),
        e == "aidl"@ ==> language_for_ext(e) == Some(LanguageView::Aidl),
        e == "mk"@ ==> language_for_ext(e) == Some(LanguageView::Make),
        e == "toml"@ ==> language_for_ext(e) == Some(LanguageView::Other("toml"@)),
        e == "py"@ ==> language_for_ext(e) == Some(LanguageView::Other("py"@)),
        e == "js"@ ==> language_for_ext(e) == Some(LanguageView::Other("js"@)),
        e == "jsx"@ ==> language_for_ext(e) == Some(LanguageView::Other("jsx"@)),
        e == "ts"@ ==> language_for_ext(e) == Some(LanguageView::Other("ts"@)),
        e == "tsx"@ ==> language_for_ext(e) == Some(LanguageView::Other("tsx"@)),
        e == "rs"@ ==> language_for_ext(e) == Some(LanguageView::Other("rs"@)),
        e == "swift"@ ==> language_for_ext(e) == Some(LanguageView::Other("swift"@)),
        e == "scala"@ ==> language_for_ext(e) == Some(LanguageView::Other("scala"@)),
        e == "sh"@ ==> language_for_ext(e) == Some(LanguageView::Other("sh"@)),
        e == "bash"@ ==> language_for_ext(e) == Some(LanguageView::Other("bash"@)),
        e == "zsh"@ ==> language_for_ext(e) == Some(LanguageView::Other("zsh"@)),
        e == "bp"@ ==> language_for_ext(e) == Some(LanguageView::Other("bp"@)),
        e == "proto"@ ==> language_for_ext(e) == Some(LanguageView::Other("proto"@)),
        e == "smali"@ ==> language_for_ext(e) == Some(LanguageView::Other("smali"@)),
        e != "java"@ && e != "kt"@ && e != "kts"@ && e != "c"@ && e != "h"@ && e != "cpp"@ && e != "cc"@ && e != "cxx"@ && e != "hpp"@ && e != "hxx"@ && e != "c++"@ && e != "go"@ && e != "groovy"@ && e != "gradle"@ && e != "rb"@ && e != "json"@ && e != "xml"@ && e != "yaml"@ && e != "yml"@ && e != "aidl"@ && e != "mk"@ && e != "toml"@ && e != "py"@ && e != "js"@ && e != "jsx"@ && e != "ts"@ && e != "tsx"@ && e != "rs"@ && e != "swift"@ && e != "scala"@ && e != "sh"@ && e != "bash"@ && e != "zsh"@ && e != "bp"@ && e != "proto"@ && e != "smali"@ ==> language_for_ext(e) is None,
{
    assert(e == "java"@ ==> language_for_ext(e) == Some(LanguageView::Java)) by { reveal_strlit("java");  }
    assert(e == "kt"@ ==> language_for_ext(e) == Some(LanguageView::Kotlin)) by { reveal_strlit("java"); reveal_strlit("kt"); assert("kt"@.len() == 2 && "java"@.len() == 4); }
    assert(e == "kts"@ ==> language_for_ext(e) == Some(LanguageView::Kotlin)) by { reveal_strlit("java"); reveal_strlit("kt"); reveal_strlit("kts"); assert("kts"@.len() == 3 && "java"@.len() == 4); assert("kts"@.len() == 3 && "kt"@.len() == 2); }
    assert(e == "c"@ ==> language_for_ext(e) == Some(LanguageView::C)) by { reveal_strlit("java"); reveal_strlit("kt"); reveal_strlit("kts"); reveal_strlit("c"); assert("c"@.len() == 1 && "java"@.len() == 4); assert("c"@.len() == 1 && "kt"@.len() == 2); assert("c"@.len() == 1 && "kts"@.len() == 3); }
    assert(e == "h"@ ==> language_for_ext(e) == Some(LanguageView::C)) by { reveal_strlit("java"); reveal_strlit("kt"); reveal_strlit("kts"); reveal_strlit("c"); reveal_strlit("h"); assert("h"@.len() == 1 && "java"@.len() == 4); assert("h"@.len() == 1 && "kt"@.len() == 2); assert("h"@.len() == 1 && "kts"@.len() == 3); assert("h"@[0] != "c"@[0]); }
    assert(e == "cpp"@ ==> language_for_ext(e) == Some(LanguageView::Cpp)) by { reveal_strlit("java"); reveal_strlit("kt"); reveal_strlit("kts"); reveal_strlit("c"); reveal_strlit("h"); reveal_strlit("cpp"); assert("cpp"@.len() == 3 && "java"@.len() == 4); assert("cpp"@.len() == 3 && "kt"@.len() == 2); assert("cpp"@[0] != "kts"@[0]); assert("cpp"@.len() == 3 && "c"@.len() == 1); assert("cpp"@.len() == 3 && "h"@.len() == 1); }
    assert(e == "cc"@ ==> language_for_ext(e) == Some(LanguageView::Cpp)) by { reveal_strlit("java"); reveal_strlit("kt"); reveal_strlit("kts"); reveal_strlit("c"); reveal_strlit("h"); reveal_strlit("cpp"); reveal_strlit("cc"); assert("cc"@.len() == 2 && "java"@.len() == 4); assert("cc"@[0] != "kt"@[0]); assert("cc"@.len() == 2 && "kts"@.len() == 3); assert("cc"@.len() == 2 && "c"@.len() == 1); assert("cc"@.len() == 2 && "h"@.len() == 1); assert("cc"@.len() == 2 && "cpp"@.len() == 3); }
    assert(e == "cxx"@ ==> language_for_ext(e) == Some(LanguageView::Cpp)) by { reveal_strlit("java"); reveal_strlit("kt"); reveal_strlit("kts"); reveal_strlit("c"); reveal_strlit("h"); reveal_strlit("cpp"); reveal_strlit("cc"); reveal_strlit("cxx"); assert("cxx"@.len() == 3 && "java"@.len() == 4); assert("cxx"@.len() == 3 && "kt"@.len() == 2); assert("cxx"@[0] != "kts"@[0]); assert("cxx"@.len() == 3 && "c"@.len() == 1); assert("cxx"@.len() == 3 && "h"@.len() == 1); assert("cxx"@[1] != "cpp"@[1]); assert("cxx"@.len() == 3 && "cc"@.len() == 2); }
    assert(e == "hpp"@ ==> language_for_ext(e) == Some(LanguageView::Cpp)) by { reveal_strlit("java"); reveal_strlit("kt"); reveal_strlit("kts"); reveal_strlit("c"); reveal_strlit("h"); reveal_strlit("cpp"); reveal_strlit("cc"); reveal_strlit("cxx"); reveal_strlit("hpp"); assert("hpp"@.len() == 3 && "java"@.len() == 4); assert("hpp"@.len() == 3 && "kt"@.len() == 2); assert("hpp"@[0] != "kts"@[0]); assert("hpp"@.len() == 3 && "c"@.len() == 1); assert("hpp"@.len() == 3 && "h"@.len() == 1); assert("hpp"@[0] != "cpp"@[0]); assert("hpp"@.len() == 3 && "cc"@.len() == 2); assert("hpp"@[0] != "cxx"@[0]); }
    assert(e == "hxx"@ ==> language_for_ext(e) == Some(LanguageView::Cpp)) by { reveal_strlit("java"); reveal_strlit("kt"); reveal_strlit("kts"); reveal_strlit("c"); reveal_strlit("h"); reveal_strlit("cpp"); reveal_strlit("cc"); reveal_strlit("cxx"); reveal_strlit("hpp"); reveal_strlit("hxx"); assert("hxx"@.len() == 3 && "java"@.len() == 4); assert("hxx"@.len() == 3 && "kt"@.len() == 2); assert("hxx"@[0] != "kts"@[0]); assert("hxx"@.len() == 3 && "c"@.len() == 1); assert("hxx"@.len() == 3 && "h"@.len() == 1); assert("hxx"@[0] != "cpp"@[0]); assert("hxx"@.len() == 3 && "cc"@.len() == 2); assert("hxx"@[0] != "cxx"@[0]); assert("hxx"@[1] != "hpp"@[1]); }
    assert(e == "c++"@ ==> language_for_ext(e) == Some(LanguageView::Cpp)) by { reveal_strlit("java"); reveal_strlit("kt"); reveal_strlit("kts"); reveal_strlit("c"); reveal_strlit("h"); reveal_strlit("cpp"); reveal_strlit("cc"); reveal_strlit("cxx"); reveal_strlit("hpp"); reveal_strlit("hxx"); reveal_strlit("c++"); assert("c++"@.len() == 3 && "java"@.len() == 4); assert("c++"@.len() == 3 && "kt"@.len() == 2); assert("c++"@[0] != "kts"@[0]); assert("c++"@.len() == 3 && "c"@.len() == 1); assert("c++"@.len() == 3 && "h"@.len() == 1); assert("c++"@[1] != "cpp"@[1]); assert("c++"@.len() == 3 && "cc"@.len() == 2); assert("c++"@[1] != "cxx"@[1]); assert("c++"@[0] != "hpp"@[0]); assert("c++"@[0] != "hxx"@[0]); }
    assert(e == "go"@ ==> language_for_ext(e) == Some(LanguageView::Go)) by { reveal_strlit("java"); reveal_strlit("kt"); reveal_strlit("kts"); reveal_strlit("c"); reveal_strlit("h"); reveal_strlit("cpp"); reveal_strlit("cc"); reveal_strlit("cxx"); reveal_strlit("hpp"); reveal_strlit("hxx"); reveal_strlit("c++"); reveal_strlit("go"); assert("go"@.len() == 2 && "java"@.len() == 4); assert("go"@[0] != "kt"@[0]); assert("go"@.len() == 2 && "kts"@.len() == 3); assert("go"@.len() == 2 && "c"@.len() == 1); assert("go"@.len() == 2 && "h"@.len() == 1); assert("go"@.len() == 2 && "cpp"@.len() == 3); assert("go"@[0] != "cc"@[0]); assert("go"@.len() == 2 && "cxx"@.len() == 3); assert("go"@.len() == 2 && "hpp"@.len() == 3); assert("go"@.len() == 2 && "hxx"@.len() == 3); assert("go"@.len() == 2 && "c++"@.len() == 3); }
    assert(e == "groovy"@ ==> language_for_ext(e) == Some(LanguageView::Groovy)) by { reveal_strlit("java"); reveal_strlit("kt"); reveal_strlit("kts"); reveal_strlit("c"); reveal_strlit("h"); reveal_strlit("cpp"); reveal_strlit("cc"); reveal_strlit("cxx"); reveal_strlit("hpp"); reveal_strlit("hxx"); reveal_strlit("c++"); reveal_strlit("go"); reveal_strlit("groovy"); assert("groovy"@.len() == 6 && "java"@.len() == 4); assert("groovy"@.len() == 6 && "kt"@.len() == 2); assert("groovy"@.len() == 6 && "kts"@.len() == 3); assert("groovy"@.len() == 6 && "c"@.len() == 1); assert("groovy"@.len() == 6 && "h"@.len() == 1); assert("groovy"@.len() == 6 && "cpp"@.len() == 3); assert("groovy"@.len() == 6 && "cc"@.len() == 2); assert("groovy"@.len() == 6 && "cxx"@.len() == 3); assert("groovy"@.len() == 6 && "hpp"@.len() == 3); assert("groovy"@.len() == 6 && "hxx"@.len() == 3); assert("groovy"@.len() == 6 && "c++"@.len() == 3); assert("groovy"@.len() == 6 && "go"@.len() == 2); }
    assert(e == "gradle"@ ==> language_for_ext(e) == Some(LanguageView::Gradle)) by { reveal_strlit("java"); reveal_strlit("kt"); reveal_strlit("kts"); reveal_strlit("c"); reveal_strlit("h"); reveal_strlit("cpp"); reveal_strlit("cc"); reveal_strlit("cxx"); reveal_strlit("hpp"); reveal_strlit("hxx"); reveal_strlit("c++"); reveal_strlit("go"); reveal_strlit("groovy"); reveal_strlit("gradle"); assert("gradle"@.len() == 6 && "java"@.len() == 4); assert("gradle"@.len() == 6 && "kt"@.len() == 2); assert("gradle"@.len() == 6 && "kts"@.len() == 3); assert("gradle"@.len() == 6 && "c"@.len() == 1); assert("gradle"@.len() == 6 && "h"@.len() == 1); assert("gradle"@.len() == 6 && "cpp"@.len() == 3); assert("gradle"@.len() == 6 && "cc"@.len() == 2); assert("gradle"@.len() == 6 && "cxx"@.len() == 3); assert("gradle"@.len() == 6 && "hpp"@.len() == 3); assert("gradle"@.len() == 6 && "hxx"@.len() == 3); assert("gradle"@.len() == 6 && "c++"@.len() == 3); assert("gradle"@.len() == 6 && "go"@.len() == 2); assert("gradle"@[2] != "groovy"@[2]); }
    assert(e == "rb"@ ==> language_for_ext(e) == Some(LanguageView::Ruby)) by { reveal_strlit("java"); reveal_strlit("kt"); reveal_strlit("kts"); reveal_strlit("c"); reveal_strlit("h"); reveal_strlit("cpp"); reveal_strlit("cc"); reveal_strlit("cxx"); reveal_strlit("hpp"); reveal_strlit("hxx"); reveal_strlit("c++"); reveal_strlit("go"); reveal_strlit("groovy"); reveal_strlit("gradle"); reveal_strlit("rb"); assert("rb"@.len() == 2 && "java"@.len() == 4); assert("rb"@[0] != "kt"@[0]); assert("rb"@.len() == 2 && "kts"@.len() == 3); assert("rb"@.len() == 2 && "c"@.len() == 1); assert("rb"@.len() == 2 && "h"@.len() == 1); assert("rb"@.len() == 2 && "cpp"@.len() == 3); assert("rb"@[0] != "cc"@[0]); assert("rb"@.len() == 2 && "cxx"@.len() == 3); assert("rb"@.len() == 2 && "hpp"@.len() == 3); assert("rb"@.len() == 2 && "hxx"@.len() == 3); assert("rb"@.len() == 2 && "c++"@.len() == 3); assert("rb"@[0] != "go"@[0]); assert("rb"@.len() == 2 && "groovy"@.len() == 6); assert("rb"@.len() == 2 && "gradle"@.len() == 6); }
    assert(e == "json"@ ==> language_for_ext(e) == Some(LanguageView::Json)) by { reveal_strlit("java"); reveal_strlit("kt"); reveal_strlit("kts"); reveal_strlit("c"); reveal_strlit("h"); reveal_strlit("cpp"); reveal_strlit("cc"); reveal_strlit("cxx"); reveal_strlit("hpp"); reveal_strlit("hxx"); reveal_strlit("c++"); reveal_strlit("go"); reveal_strlit("groovy"); reveal_strlit("gradle"); reveal_strlit("rb"); reveal_strlit("json"); assert("json"@[1] != "java"@[1]); assert("json"@.len() == 4 && "kt"@.len() == 2); assert("json"@.len() == 4 && "kts"@.len() == 3); assert("json"@.len() == 4 && "c"@.len() == 1); assert("json"@.len() == 4 && "h"@.len() == 1); assert("json"@.len() == 4 && "cpp"@.len() == 3); assert("json"@.len() == 4 && "cc"@.len() == 2); assert("json"@.len() == 4 && "cxx"@.len() == 3); assert("json"@.len() == 4 && "hpp"@.len() == 3); assert("json"@.len() == 4 && "hxx"@.len() == 3); assert("json"@.len() == 4 && "c++"@.len() == 3); assert("json"@.len() == 4 && "go"@.len() == 2); assert("json"@.len() == 4 && "groovy"@.len() == 6); assert("json"@.len() == 4 && "gradle"@.len() == 6); assert("json"@.len() == 4 && "rb"@.len() == 2); }
    assert(e == "xml"@ ==> language_for_ext(e) == Some(LanguageView::Xml)) by { reveal_strlit("java"); reveal_strlit("kt"); reveal_strlit("kts"); reveal_strlit("c"); reveal_strlit("h"); reveal_strlit("cpp"); reveal_strlit("cc"); reveal_strlit("cxx"); reveal_strlit("hpp"); reveal_strlit("hxx"); reveal_strlit("c++"); reveal_strlit("go"); reveal_strlit("groovy"); reveal_strlit("gradle"); reveal_strlit("rb"); reveal_strlit("json"); reveal_strlit("xml"); assert("xml"@.len() == 3 && "java"@.len() == 4); assert("xml"@.len() == 3 && "kt"@.len() == 2); assert("xml"@[0] != "kts"@[0]); assert("xml"@.len() == 3 && "c"@.len() == 1); assert("xml"@.len() == 3 && "h"@.len() == 1); assert("xml"@[0] != "cpp"@[0]); assert("xml"@.len() == 3 && "cc"@.len() == 2); assert("xml"@[0] != "cxx"@[0]); assert("xml"@[0] != "hpp"@[0]); assert("xml"@[0] != "hxx"@[0]); assert("xml"@[0] != "c++"@[0]); assert("xml"@.len() == 3 && "go"@.len() == 2); assert("xml"@.len() == 3 && "groovy"@.len() == 6); assert("xml"@.len() == 3 && "gradle"@.len() == 6); assert("xml"@.len() == 3 && "rb"@.len() == 2); assert("xml"@.len() == 3 && "json"@.len() == 4); }
    assert(e == "yaml"@ ==> language_for_ext(e) == Some(LanguageView::Yaml)) by { reveal_strlit("java"); reveal_strlit("kt"); reveal_strlit("kts"); reveal_strlit("c"); reveal_strlit("h"); reveal_strlit("cpp"); reveal_strlit("cc"); reveal_strlit("cxx"); reveal_strlit("hpp"); reveal_strlit("hxx"); reveal_strlit("c++"); reveal_strlit("go"); reveal_strlit("groovy"); reveal_strlit("gradle"); reveal_strlit("rb"); reveal_strlit("json"); reveal_strlit("xml"); reveal_strlit("yaml"); assert("yaml"@[0] != "java"@[0]); assert("yaml"@.len() == 4 && "kt"@.len() == 2); assert("yaml"@.len() == 4 && "kts"@.len() == 3); assert("yaml"@.len() == 4 && "c"@.len() == 1); assert("yaml"@.len() == 4 && "h"@.len() == 1); assert("yaml"@.len() == 4 && "cpp"@.len() == 3); assert("yaml"@.len() == 4 && "cc"@.len() == 2); assert("yaml"@.len() == 4 && "cxx"@.len() == 3); assert("yaml"@.len() == 4 && "hpp"@.len() == 3); assert("yaml"@.len() == 4 && "hxx"@.len() == 3); assert("yaml"@.len() == 4 && "c++"@.len() == 3); assert("yaml"@.len() == 4 && "go"@.len() == 2); assert("yaml"@.len() == 4 && "groovy"@.len() == 6); assert("yaml"@.len() == 4 && "gradle"@.len() == 6); assert("yaml"@.len() == 4 && "rb"@.len() == 2); assert("yaml"@[0] != "json"@[0]); assert("yaml"@.len() == 4 && "xml"@.len() == 3); }
    assert(e == "yml"@ ==> language_for_ext(e) == Some(LanguageView::Yaml)) by { reveal_strlit("java"); reveal_strlit("kt"); reveal_strlit("kts"); reveal_strlit("c"); reveal_strlit("h"); reveal_strlit("cpp"); reveal_strlit("cc"); reveal_strlit("cxx"); reveal_strlit("hpp"); reveal_strlit("hxx"); reveal_strlit("c++"); reveal_strlit("go"); reveal_strlit("groovy"); reveal_strlit("gradle"); reveal_strlit("rb"); reveal_strlit("json"); reveal_strlit("xml"); reveal_strlit("yaml"); reveal_strlit("yml"); assert("yml"@.len() == 3 && "java"@.len() == 4); assert("yml"@.len() == 3 && "kt"@.len() == 2); assert("yml"@[0] != "kts"@[0]); assert("yml"@.len() == 3 && "c"@.len() == 1); assert("yml"@.len() == 3 && "h"@.len() == 1); assert("yml"@[0] != "cpp"@[0]); assert("yml"@.len() == 3 && "cc"@.len() == 2); assert("yml"@[0] != "cxx"@[0]); assert("yml"@[0] != "hpp"@[0]); assert("yml"@[0] != "hxx"@[0]); assert("yml"@[0] != "c++"@[0]); assert("yml"@.len() == 3 && "go"@.len() == 2); assert("yml"@.len() == 3 && "groovy"@.len() == 6); assert("yml"@.len() == 3 && "gradle"@.len() == 6); assert("yml"@.len() == 3 && "rb"@.len() == 2); assert("yml"@.len() == 3 && "json"@.len() == 4); assert("yml"@[0] != "xml"@[0]); assert("yml"@.len() == 3 && "yaml"@.len() == 4); }
    assert(e == "aidl"@ ==> language_for_ext(e) == Some(LanguageView::Aidl)) by { reveal_strlit("java"); reveal_strlit("kt"); reveal_strlit("kts"); reveal_strlit("c"); reveal_strlit("h"); reveal_strlit("cpp"); reveal_strlit("cc"); reveal_strlit("cxx"); reveal_strlit("hpp"); reveal_strlit("hxx"); reveal_strlit("c++"); reveal_strlit("go"); reveal_strlit("groovy"); reveal_strlit("gradle"); reveal_strlit("rb"); reveal_strlit("json"); reveal_strlit("xml"); reveal_strlit("yaml"); reveal_strlit("yml"); reveal_strlit("aidl"); assert("aidl"@[0] != "java"@[0]); assert("aidl"@.len() == 4 && "kt"@.len() == 2); assert("aidl"@.len() == 4 && "kts"@.len() == 3); assert("aidl"@.len() == 4 && "c"@.len() == 1); assert("aidl"@.len() == 4 && "h"@.len() == 1); assert("aidl"@.len() == 4 && "cpp"@.len() == 3); assert("aidl"@.len() == 4 && "cc"@.len() == 2); assert("aidl"@.len() == 4 && "cxx"@.len() == 3); assert("aidl"@.len() == 4 && "hpp"@.len() == 3); assert("aidl"@.len() == 4 && "hxx"@.len() == 3); assert("aidl"@.len() == 4 && "c++"@.len() == 3); assert("aidl"@.len() == 4 && "go"@.len() == 2); assert("aidl"@.len() == 4 && "groovy"@.len() == 6); assert("aidl"@.len() == 4 && "gradle"@.len() == 6); assert("aidl"@.len() == 4 && "rb"@.len() == 2); assert("aidl"@[0] != "json"@[0]); assert("aidl"@.len() == 4 && "xml"@.len() == 3); assert("aidl"@[0] != "yaml"@[0]); assert("aidl"@.len() == 4 && "yml"@.len() == 3); }
    assert(e == "mk"@ ==> language_for_ext(e) == Some(LanguageView::Make)) by { reveal_strlit("java"); reveal_strlit("kt"); reveal_strlit("kts"); reveal_strlit("c"); reveal_strlit("h"); reveal_strlit("cpp"); reveal_strlit("cc"); reveal_strlit("cxx"); reveal_strlit("hpp"); reveal_strlit("hxx"); reveal_strlit("c++"); reveal_strlit("go"); reveal_strlit("groovy"); reveal_strlit("gradle"); reveal_strlit("rb"); reveal_strlit("json"); reveal_strlit("xml"); reveal_strlit("yaml"); reveal_strlit("yml"); reveal_strlit("aidl"); reveal_strlit("mk"); assert("mk"@.len() == 2 && "java"@.len() == 4); assert("mk"@[0] != "kt"@[0]); assert("mk"@.len() == 2 && "kts"@.len() == 3); assert("mk"@.len() == 2 && "c"@.len() == 1); assert("mk"@.len() == 2 && "h"@.len() == 1); assert("mk"@.len() == 2 && "cpp"@.len() == 3); assert("mk"@[0] != "cc"@[0]); assert("mk"@.len() == 2 && "cxx"@.len() == 3); assert("mk"@.len() == 2 && "hpp"@.len() == 3); assert("mk"@.len() == 2 && "hxx"@.len() == 3); assert("mk"@.len() == 2 && "c++"@.len() == 3); assert("mk"@[0] != "go"@[0]); assert("mk"@.len() == 2 && "groovy"@.len() == 6); assert("mk"@.len() == 2 && "gradle"@.len() == 6); assert("mk"@[0] != "rb"@[0]); assert("mk"@.len() == 2 && "json"@.len() == 4); assert("mk"@.len() == 2 && "xml"@.len() == 3); assert("mk"@.len() == 2 && "yaml"@.len() == 4); assert("mk"@.len() == 2 && "yml"@.len() == 3); assert("mk"@.len() == 2 && "aidl"@.len() == 4); }
    assert(e == "toml"@ ==> language_for_ext(e) == Some(LanguageView::Other("toml"@))) by { reveal_strlit("java"); reveal_strlit("kt"); reveal_strlit("kts"); reveal_strlit("c"); reveal_strlit("h"); reveal_strlit("cpp"); reveal_strlit("cc"); reveal_strlit("cxx"); reveal_strlit("hpp"); reveal_strlit("hxx"); reveal_strlit("c++"); reveal_strlit("go"); reveal_strlit("groovy"); reveal_strlit("gradle"); reveal_strlit("rb"); reveal_strlit("json"); reveal_strlit("xml"); reveal_strlit("yaml"); reveal_strlit("yml"); reveal_strlit("aidl"); reveal_strlit("mk"); reveal_strlit("toml"); assert("toml"@[0] != "java"@[0]); assert("toml"@.len() == 4 && "kt"@.len() == 2); assert("toml"@.len() == 4 && "kts"@.len() == 3); assert("toml"@.len() == 4 && "c"@.len() == 1); assert("toml"@.len() == 4 && "h"@.len() == 1); assert("toml"@.len() == 4 && "cpp"@.len() == 3); assert("toml"@.len() == 4 && "cc"@.len() == 2); assert("toml"@.len() == 4 && "cxx"@.len() == 3); assert("toml"@.len() == 4 && "hpp"@.len() == 3); assert("toml"@.len() == 4 && "hxx"@.len() == 3); assert("toml"@.len() == 4 && "c++"@.len() == 3); assert("toml"@.len() == 4 && "go"@.len() == 2); assert("toml"@.len() == 4 && "groovy"@.len() == 6); assert("toml"@.len() == 4 && "gradle"@.len() == 6); assert("toml"@.len() == 4 && "rb"@.len() == 2); assert("toml"@[0] != "json"@[0]); assert("toml"@.len() == 4 && "xml"@.len() == 3); assert("toml"@[0] != "yaml"@[0]); assert("toml"@.len() == 4 && "yml"@.len() == 3); assert("toml"@[0] != "aidl"@[0]); assert("toml"@.len() == 4 && "mk"@.len() == 2); }
    assert(e == "py"@ ==> language_for_ext(e) == Some(LanguageView::Other("py"@))) by { reveal_strlit("java"); reveal_strlit("kt"); reveal_strlit("kts"); reveal_strlit("c"); reveal_strlit("h"); reveal_strlit("cpp"); reveal_strlit("cc"); reveal_strlit("cxx"); reveal_strlit("hpp"); reveal_strlit("hxx"); reveal_strlit("c++"); reveal_strlit("go"); reveal_strlit("groovy"); reveal_strlit("gradle"); reveal_strlit("rb"); reveal_strlit("json"); reveal_strlit("xml"); reveal_strlit("yaml"); reveal_strlit("yml"); reveal_strlit("aidl"); reveal_strlit("mk"); reveal_strlit("py"); assert("py"@.len() == 2 && "java"@.len() == 4); assert("py"@[0] != "kt"@[0]); assert("py"@.len() == 2 && "kts"@.len() == 3); assert("py"@.len() == 2 && "c"@.len() == 1); assert("py"@.len() == 2 && "h"@.len() == 1); assert("py"@.len() == 2 && "cpp"@.len() == 3); assert("py"@[0] != "cc"@[0]); assert("py"@.len() == 2 && "cxx"@.len() == 3); assert("py"@.len() == 2 && "hpp"@.len() == 3); assert("py"@.len() == 2 && "hxx"@.len() == 3); assert("py"@.len() == 2 && "c++"@.len() == 3); assert("py"@[0] != "go"@[0]); assert("py"@.len() == 2 && "groovy"@.len() == 6); assert("py"@.len() == 2 && "gradle"@.len() == 6); assert("py"@[0] != "rb"@[0]); assert("py"@.len() == 2 && "json"@.len() == 4); assert("py"@.len() == 2 && "xml"@.len() == 3); assert("py"@.len() == 2 && "yaml"@.len() == 4); assert("py"@.len() == 2 && "yml"@.len() == 3); assert("py"@.len() == 2 && "aidl"@.len() == 4); assert("py"@[0] != "mk"@[0]); }
    assert(e == "js"@ ==> language_for_ext(e) == Some(LanguageView::Other("js"@))) by { reveal_strlit("java"); reveal_strlit("kt"); reveal_strlit("kts"); reveal_strlit("c"); reveal_strlit("h"); reveal_strlit("cpp"); reveal_strlit("cc"); reveal_strlit("cxx"); reveal_strlit("hpp"); reveal_strlit("hxx"); reveal_strlit("c++"); reveal_strlit("go"); reveal_strlit("groovy"); reveal_strlit("gradle"); reveal_strlit("rb"); reveal_strlit("json"); reveal_strlit("xml"); reveal_strlit("yaml"); reveal_strlit("yml"); reveal_strlit("aidl"); reveal_strlit("mk"); reveal_strlit("js"); assert("js"@.len() == 2 && "java"@.len() == 4); assert("js"@[0] != "kt"@[0]); assert("js"@.len() == 2 && "kts"@.len() == 3); assert("js"@.len() == 2 && "c"@.len() == 1); assert("js"@.len() == 2 && "h"@.len() == 1); assert("js"@.len() == 2 && "cpp"@.len() == 3); assert("js"@[0] != "cc"@[0]); assert("js"@.len() == 2 && "cxx"@.len() == 3); assert("js"@.len() == 2 && "hpp"@.len() == 3); assert("js"@.len() == 2 && "hxx"@.len() == 3); assert("js"@.len() == 2 && "c++"@.len() == 3); assert("js"@[0] != "go"@[0]); assert("js"@.len() == 2 && "groovy"@.len() == 6); assert("js"@.len() == 2 && "gradle"@.len() == 6); assert("js"@[0] != "rb"@[0]); assert("js"@.len() == 2 && "json"@.len() == 4); assert("js"@.len() == 2 && "xml"@.len() == 3); assert("js"@.len() == 2 && "yaml"@.len() == 4); assert("js"@.len() == 2 && "yml"@.len() == 3); assert("js"@.len() == 2 && "aidl"@.len() == 4); assert("js"@[0] != "mk"@[0]); }
    assert(e == "jsx"@ ==> language_for_ext(e) == Some(LanguageView::Other("jsx"@))) by { reveal_strlit("java"); reveal_strlit("kt"); reveal_strlit("kts"); reveal_strlit("c"); reveal_strlit("h"); reveal_strlit("cpp"); reveal_strlit("cc"); reveal_strlit("cxx"); reveal_strlit("hpp"); reveal_strlit("hxx"); reveal_strlit("c++"); reveal_strlit("go"); reveal_strlit("groovy"); reveal_strlit("gradle"); reveal_strlit("rb"); reveal_strlit("json"); reveal_strlit("xml"); reveal_strlit("yaml"); reveal_strlit("yml"); reveal_strlit("aidl"); reveal_strlit("mk"); reveal_strlit("jsx"); assert("jsx"@.len() == 3 && "java"@.len() == 4); assert("jsx"@.len() == 3 && "kt"@.len() == 2); assert("jsx"@[0] != "kts"@[0]); assert("jsx"@.len() == 3 && "c"@.len() == 1); assert("jsx"@.len() == 3 && "h"@.len() == 1); assert("jsx"@[0] != "cpp"@[0]); assert("jsx"@.len() == 3 && "cc"@.len() == 2); assert("jsx"@[0] != "cxx"@[0]); assert("jsx"@[0] != "hpp"@[0]); assert("jsx"@[0] != "hxx"@[0]); assert("jsx"@[0] != "c++"@[0]); assert("jsx"@.len() == 3 && "go"@.len() == 2); assert("jsx"@.len() == 3 && "groovy"@.len() == 6); assert("jsx"@.len() == 3 && "gradle"@.len() == 6); assert("jsx"@.len() == 3 && "rb"@.len() == 2); assert("jsx"@.len() == 3 && "json"@.len() == 4); assert("jsx"@[0] != "xml"@[0]); assert("jsx"@.len() == 3 && "yaml"@.len() == 4); assert("jsx"@[0] != "yml"@[0]); assert("jsx"@.len() == 3 && "aidl"@.len() == 4); assert("jsx"@.len() == 3 && "mk"@.len() == 2); }
    assert(e == "ts"@ ==> language_for_ext(e) == Some(LanguageView::Other("ts"@))) by { reveal_strlit("java"); reveal_strlit("kt"); reveal_strlit("kts"); reveal_strlit("c"); reveal_strlit("h"); reveal_strlit("cpp"); reveal_strlit("cc"); reveal_strlit("cxx"); reveal_strlit("hpp"); reveal_strlit("hxx"); reveal_strlit("c++"); reveal_strlit("go"); reveal_strlit("groovy"); reveal_strlit("gradle"); reveal_strlit("rb"); reveal_strlit("json"); reveal_strlit("xml"); reveal_strlit("yaml"); reveal_strlit("yml"); reveal_strlit("aidl"); reveal_strlit("mk"); reveal_strlit("ts"); assert("ts"@.len() == 2 && "java"@.len() == 4); assert("ts"@[0] != "kt"@[0]); assert("ts"@.len() == 2 && "kts"@.len() == 3); assert("ts"@.len() == 2 && "c"@.len() == 1); assert("ts"@.len() == 2 && "h"@.len() == 1); assert("ts"@.len() == 2 && "cpp"@.len() == 3); assert("ts"@[0] != "cc"@[0]); assert("ts"@.len() == 2 && "cxx"@.len() == 3); assert("ts"@.len() == 2 && "hpp"@.len() == 3); assert("ts"@.len() == 2 && "hxx"@.len() == 3); assert("ts"@.len() == 2 && "c++"@.len() == 3); assert("ts"@[0] != "go"@[0]); assert("ts"@.len() == 2 && "groovy"@.len() == 6); assert("ts"@.len() == 2 && "gradle"@.len() == 6); assert("ts"@[0] != "rb"@[0]); assert("ts"@.len() == 2 && "json"@.len() == 4); assert("ts"@.len() == 2 && "xml"@.len() == 3); assert("ts"@.len() == 2 && "yaml"@.len() == 4); assert("ts"@.len() == 2 && "yml"@.len() == 3); assert("ts"@.len() == 2 && "aidl"@.len() == 4); assert("ts"@[0] != "mk"@[0]); }
    assert(e == "tsx"@ ==> language_for_ext(e) == Some(LanguageView::Other("tsx"@))) by { reveal_strlit("java"); reveal_strlit("kt"); reveal_strlit("kts"); reveal_strlit("c"); reveal_strlit("h"); reveal_strlit("cpp"); reveal_strlit("cc"); reveal_strlit("cxx"); reveal_strlit("hpp"); reveal_strlit("hxx"); reveal_strlit("c++"); reveal_strlit("go"); reveal_strlit("groovy"); reveal_strlit("gradle"); reveal_strlit("rb"); reveal_strlit("json"); reveal_strlit("xml"); reveal_strlit("yaml"); reveal_strlit("yml"); reveal_strlit("aidl"); reveal_strlit("mk"); reveal_strlit("tsx"); assert("tsx"@.len() == 3 && "java"@.len() == 4); assert("tsx"@.len() == 3 && "kt"@.len() == 2); assert("tsx"@[0] != "kts"@[0]); assert("tsx"@.len() == 3 && "c"@.len() == 1); assert("tsx"@.len() == 3 && "h"@.len() == 1); assert("tsx"@[0] != "cpp"@[0]); assert("tsx"@.len() == 3 && "cc"@.len() == 2); assert("tsx"@[0] != "cxx"@[0]); assert("tsx"@[0] != "hpp"@[0]); assert("tsx"@[0] != "hxx"@[0]); assert("tsx"@[0] != "c++"@[0]); assert("tsx"@.len() == 3 && "go"@.len() == 2); assert("tsx"@.len() == 3 && "groovy"@.len() == 6); assert("tsx"@.len() == 3 && "gradle"@.len() == 6); assert("tsx"@.len() == 3 && "rb"@.len() == 2); assert("tsx"@.len() == 3 && "json"@.len() == 4); assert("tsx"@[0] != "xml"@[0]); assert("tsx"@.len() == 3 && "yaml"@.len() == 4); assert("tsx"@[0] != "yml"@[0]); assert("tsx"@.len() == 3 && "aidl"@.len() == 4); assert("tsx"@.len() == 3 && "mk"@.len() == 2); }
    assert(e == "rs"@ ==> language_for_ext(e) == Some(LanguageView::Other("rs"@))) by { reveal_strlit("java"); reveal_strlit("kt"); reveal_strlit("kts"); reveal_strlit("c"); reveal_strlit("h"); reveal_strlit("cpp"); reveal_strlit("cc"); reveal_strlit("cxx"); reveal_strlit("hpp"); reveal_strlit("hxx"); reveal_strlit("c++"); reveal_strlit("go"); reveal_strlit("groovy"); reveal_strlit("gradle"); reveal_strlit("rb"); reveal_strlit("json"); reveal_strlit("xml"); reveal_strlit("yaml"); reveal_strlit("yml"); reveal_strlit("aidl"); reveal_strlit("mk"); reveal_strlit("rs"); assert("rs"@.len() == 2 && "java"@.len() == 4); assert("rs"@[0] != "kt"@[0]); assert("rs"@.len() == 2 && "kts"@.len() == 3); assert("rs"@.len() == 2 && "c"@.len() == 1); assert("rs"@.len() == 2 && "h"@.len() == 1); assert("rs"@.len() == 2 && "cpp"@.len() == 3); assert("rs"@[0] != "cc"@[0]); assert("rs"@.len() == 2 && "cxx"@.len() == 3); assert("rs"@.len() == 2 && "hpp"@.len() == 3); assert("rs"@.len() == 2 && "hxx"@.len() == 3); assert("rs"@.len() == 2 && "c++"@.len() == 3); assert("rs"@[0] != "go"@[0]); assert("rs"@.len() == 2 && "groovy"@.len() == 6); assert("rs"@.len() == 2 && "gradle"@.len() == 6); assert("rs"@[1] != "rb"@[1]); assert("rs"@.len() == 2 && "json"@.len() == 4); assert("rs"@.len() == 2 && "xml"@.len() == 3); assert("rs"@.len() == 2 && "yaml"@.len() == 4); assert("rs"@.len() == 2 && "yml"@.len() == 3); assert("rs"@.len() == 2 && "aidl"@.len() == 4); assert("rs"@[0] != "mk"@[0]); }
    assert(e == "swift"@ ==> language_for_ext(e) == Some(LanguageView::Other("swift"@))) by { reveal_strlit("java"); reveal_strlit("kt"); reveal_strlit("kts"); reveal_strlit("c"); reveal_strlit("h"); reveal_strlit("cpp"); reveal_strlit("cc"); reveal_strlit("cxx"); reveal_strlit("hpp"); reveal_strlit("hxx"); reveal_strlit("c++"); reveal_strlit("go"); reveal_strlit("groovy"); reveal_strlit("gradle"); reveal_strlit("rb"); reveal_strlit("json"); reveal_strlit("xml"); reveal_strlit("yaml"); reveal_strlit("yml"); reveal_strlit("aidl"); reveal_strlit("mk"); reveal_strlit("swift"); assert("swift"@.len() == 5 && "java"@.len() == 4); assert("swift"@.len() == 5 && "kt"@.len() == 2); assert("swift"@.len() == 5 && "kts"@.len() == 3); assert("swift"@.len() == 5 && "c"@.len() == 1); assert("swift"@.len() == 5 && "h"@.len() == 1); assert("swift"@.len() == 5 && "cpp"@.len() == 3); assert("swift"@.len() == 5 && "cc"@.len() == 2); assert("swift"@.len() == 5 && "cxx"@.len() == 3); assert("swift"@.len() == 5 && "hpp"@.len() == 3); assert("swift"@.len() == 5 && "hxx"@.len() == 3); assert("swift"@.len() == 5 && "c++"@.len() == 3); assert("swift"@.len() == 5 && "go"@.len() == 2); assert("swift"@.len() == 5 && "groovy"@.len() == 6); assert("swift"@.len() == 5 && "gradle"@.len() == 6); assert("swift"@.len() == 5 && "rb"@.len() == 2); assert("swift"@.len() == 5 && "json"@.len() == 4); assert("swift"@.len() == 5 && "xml"@.len() == 3); assert("swift"@.len() == 5 && "yaml"@.len() == 4); assert("swift"@.len() == 5 && "yml"@.len() == 3); assert("swift"@.len() == 5 && "aidl"@.len() == 4); assert("swift"@.len() == 5 && "mk"@.len() == 2); }
    assert(e == "scala"@ ==> language_for_ext(e) == Some(LanguageView::Other("scala"@))) by { reveal_strlit("java"); reveal_strlit("kt"); reveal_strlit("kts"); reveal_strlit("c"); reveal_strlit("h"); reveal_strlit("cpp"); reveal_strlit("cc"); reveal_strlit("cxx"); reveal_strlit("hpp"); reveal_strlit("hxx"); reveal_strlit("c++"); reveal_strlit("go"); reveal_strlit("groovy"); reveal_strlit("gradle"); reveal_strlit("rb"); reveal_strlit("json"); reveal_strlit("xml"); reveal_strlit("yaml"); reveal_strlit("yml"); reveal_strlit("aidl"); reveal_strlit("mk"); reveal_strlit("scala"); assert("scala"@.len() == 5 && "java"@.len() == 4); assert("scala"@.len() == 5 && "kt"@.len() == 2); assert("scala"@.len() == 5 && "kts"@.len() == 3); assert("scala"@.len() == 5 && "c"@.len() == 1); assert("scala"@.len() == 5 && "h"@.len() == 1); assert("scala"@.len() == 5 && "cpp"@.len() == 3); assert("scala"@.len() == 5 && "cc"@.len() == 2); assert("scala"@.len() == 5 && "cxx"@.len() == 3); assert("scala"@.len() == 5 && "hpp"@.len() == 3); assert("scala"@.len() == 5 && "hxx"@.len() == 3); assert("scala"@.len() == 5 && "c++"@.len() == 3); assert("scala"@.len() == 5 && "go"@.len() == 2); assert("scala"@.len() == 5 && "groovy"@.len() == 6); assert("scala"@.len() == 5 && "gradle"@.len() == 6); assert("scala"@.len() == 5 && "rb"@.len() == 2); assert("scala"@.len() == 5 && "json"@.len() == 4); assert("scala"@.len() == 5 && "xml"@.len() == 3); assert("scala"@.len() == 5 && "yaml"@.len() == 4); assert("scala"@.len() == 5 && "yml"@.len() == 3); assert("scala"@.len() == 5 && "aidl"@.len() == 4); assert("scala"@.len() == 5 && "mk"@.len() == 2); }
    assert(e == "sh"@ ==> language_for_ext(e) == Some(LanguageView::Other("sh"@))) by { reveal_strlit("java"); reveal_strlit("kt"); reveal_strlit("kts"); reveal_strlit("c"); reveal_strlit("h"); reveal_strlit("cpp"); reveal_strlit("cc"); reveal_strlit("cxx"); reveal_strlit("hpp"); reveal_strlit("hxx"); reveal_strlit("c++"); reveal_strlit("go"); reveal_strlit("groovy"); reveal_strlit("gradle"); reveal_strlit("rb"); reveal_strlit("json"); reveal_strlit("xml"); reveal_strlit("yaml"); reveal_strlit("yml"); reveal_strlit("aidl"); reveal_strlit("mk"); reveal_strlit("sh"); assert("sh"@.len() == 2 && "java"@.len() == 4); assert("sh"@[0] != "kt"@[0]); assert("sh"@.len() == 2 && "kts"@.len() == 3); assert("sh"@.len() == 2 && "c"@.len() == 1); assert("sh"@.len() == 2 && "h"@.len() == 1); assert("sh"@.len() == 2 && "cpp"@.len() == 3); assert("sh"@[0] != "cc"@[0]); assert("sh"@.len() == 2 && "cxx"@.len() == 3); assert("sh"@.len() == 2 && "hpp"@.len() == 3); assert("sh"@.len() == 2 && "hxx"@.len() == 3); assert("sh"@.len() == 2 && "c++"@.len() == 3); assert("sh"@[0] != "go"@[0]); assert("sh"@.len() == 2 && "groovy"@.len() == 6); assert("sh"@.len() == 2 && "gradle"@.len() == 6); assert("sh"@[0] != "rb"@[0]); assert("sh"@.len() == 2 && "json"@.len() == 4); assert("sh"@.len() == 2 && "xml"@.len() == 3); assert("sh"@.len() == 2 && "yaml"@.len() == 4); assert("sh"@.len() == 2 && "yml"@.len() == 3); assert("sh"@.len() == 2 && "aidl"@.len() == 4); assert("sh"@[0] != "mk"@[0]); }
    assert(e == "bash"@ ==> language_for_ext(e) == Some(LanguageView::Other("bash"@))) by { reveal_strlit("java"); reveal_strlit("kt"); reveal_strlit("kts"); reveal_strlit("c"); reveal_strlit("h"); reveal_strlit("cpp"); reveal_strlit("cc"); reveal_strlit("cxx"); reveal_strlit("hpp"); reveal_strlit("hxx"); reveal_strlit("c++"); reveal_strlit("go"); reveal_strlit("groovy"); reveal_strlit("gradle"); reveal_strlit("rb"); reveal_strlit("json"); reveal_strlit("xml"); reveal_strlit("yaml"); reveal_strlit("yml"); reveal_strlit("aidl"); reveal_strlit("mk"); reveal_strlit("bash"); assert("bash"@[0] != "java"@[0]); assert("bash"@.len() == 4 && "kt"@.len() == 2); assert("bash"@.len() == 4 && "kts"@.len() == 3); assert("bash"@.len() == 4 && "c"@.len() == 1); assert("bash"@.len() == 4 && "h"@.len() == 1); assert("bash"@.len() == 4 && "cpp"@.len() == 3); assert("bash"@.len() == 4 && "cc"@.len() == 2); assert("bash"@.len() == 4 && "cxx"@.len() == 3); assert("bash"@.len() == 4 && "hpp"@.len() == 3); assert("bash"@.len() == 4 && "hxx"@.len() == 3); assert("bash"@.len() == 4 && "c++"@.len() == 3); assert("bash"@.len() == 4 && "go"@.len() == 2); assert("bash"@.len() == 4 && "groovy"@.len() == 6); assert("bash"@.len() == 4 && "gradle"@.len() == 6); assert("bash"@.len() == 4 && "rb"@.len() == 2); assert("bash"@[0] != "json"@[0]); assert("bash"@.len() == 4 && "xml"@.len() == 3); assert("bash"@[0] != "yaml"@[0]); assert("bash"@.len() == 4 && "yml"@.len() == 3); assert("bash"@[0] != "aidl"@[0]); assert("bash"@.len() == 4 && "mk"@.len() == 2); }
    assert(e == "zsh"@ ==> language_for_ext(e) == Some(LanguageView::Other("zsh"@))) by { reveal_strlit("java"); reveal_strlit("kt"); reveal_strlit("kts"); reveal_strlit("c"); reveal_strlit("h"); reveal_strlit("cpp"); reveal_strlit("cc"); reveal_strlit("cxx"); reveal_strlit("hpp"); reveal_strlit("hxx"); reveal_strlit("c++"); reveal_strlit("go"); reveal_strlit("groovy"); reveal_strlit("gradle"); reveal_strlit("rb"); reveal_strlit("json"); reveal_strlit("xml"); reveal_strlit("yaml"); reveal_strlit("yml"); reveal_strlit("aidl"); reveal_strlit("mk"); reveal_strlit("zsh"); assert("zsh"@.len() == 3 && "java"@.len() == 4); assert("zsh"@.len() == 3 && "kt"@.len() == 2); assert("zsh"@[0] != "kts"@[0]); assert("zsh"@.len() == 3 && "c"@.len() == 1); assert("zsh"@.len() == 3 && "h"@.len() == 1); assert("zsh"@[0] != "cpp"@[0]); assert("zsh"@.len() == 3 && "cc"@.len() == 2); assert("zsh"@[0] != "cxx"@[0]); assert("zsh"@[0] != "hpp"@[0]); assert("zsh"@[0] != "hxx"@[0]); assert("zsh"@[0] != "c++"@[0]); assert("zsh"@.len() == 3 && "go"@.len() == 2); assert("zsh"@.len() == 3 && "groovy"@.len() == 6); assert("zsh"@.len() == 3 && "gradle"@.len() == 6); assert("zsh"@.len() == 3 && "rb"@.len() == 2); assert("zsh"@.len() == 3 && "json"@.len() == 4); assert("zsh"@[0] != "xml"@[0]); assert("zsh"@.len() == 3 && "yaml"@.len() == 4); assert("zsh"@[0] != "yml"@[0]); assert("zsh"@.len() == 3 && "aidl"@.len() == 4); assert("zsh"@.len() == 3 && "mk"@.len() == 2); }
    assert(e == "bp"@ ==> language_for_ext(e) == Some(LanguageView::Other("bp"@))) by { reveal_strlit("java"); reveal_strlit("kt"); reveal_strlit("kts"); reveal_strlit("c"); reveal_strlit("h"); reveal_strlit("cpp"); reveal_strlit("cc"); reveal_strlit("cxx"); reveal_strlit("hpp"); reveal_strlit("hxx"); reveal_strlit("c++"); reveal_strlit("go"); reveal_strlit("groovy"); reveal_strlit("gradle"); reveal_strlit("rb"); reveal_strlit("json"); reveal_strlit("xml"); reveal_strlit("yaml"); reveal_strlit("yml"); reveal_strlit("aidl"); reveal_strlit("mk"); reveal_strlit("bp"); assert("bp"@.len() == 2 && "java"@.len() == 4); assert("bp"@[0] != "kt"@[0]); assert("bp"@.len() == 2 && "kts"@.len() == 3); assert("bp"@.len() == 2 && "c"@.len() == 1); assert("bp"@.len() == 2 && "h"@.len() == 1); assert("bp"@.len() == 2 && "cpp"@.len() == 3); assert("bp"@[0] != "cc"@[0]); assert("bp"@.len() == 2 && "cxx"@.len() == 3); assert("bp"@.len() == 2 && "hpp"@.len() == 3); assert("bp"@.len() == 2 && "hxx"@.len() == 3); assert("bp"@.len() == 2 && "c++"@.len() == 3); assert("bp"@[0] != "go"@[0]); assert("bp"@.len() == 2 && "groovy"@.len() == 6); assert("bp"@.len() == 2 && "gradle"@.len() == 6); assert("bp"@[0] != "rb"@[0]); assert("bp"@.len() == 2 && "json"@.len() == 4); assert("bp"@.len() == 2 && "xml"@.len() == 3); assert("bp"@.len() == 2 && "yaml"@.len() == 4); assert("bp"@.len() == 2 && "yml"@.len() == 3); assert("bp"@.len() == 2 && "aidl"@.len() == 4); assert("bp"@[0] != "mk"@[0]); }
    assert(e == "proto"@ ==> language_for_ext(e) == Some(LanguageView::Other("proto"@))) by { reveal_strlit("java"); reveal_strlit("kt"); reveal_strlit("kts"); reveal_strlit("c"); reveal_strlit("h"); reveal_strlit("cpp"); reveal_strlit("cc"); reveal_strlit("cxx"); reveal_strlit("hpp"); reveal_strlit("hxx"); reveal_strlit("c++"); reveal_strlit("go"); reveal_strlit("groovy"); reveal_strlit("gradle"); reveal_strlit("rb"); reveal_strlit("json"); reveal_strlit("xml"); reveal_strlit("yaml"); reveal_strlit("yml"); reveal_strlit("aidl"); reveal_strlit("mk"); reveal_strlit("proto"); assert("proto"@.len() == 5 && "java"@.len() == 4); assert("proto"@.len() == 5 && "kt"@.len() == 2); assert("proto"@.len() == 5 && "kts"@.len() == 3); assert("proto"@.len() == 5 && "c"@.len() == 1); assert("proto"@.len() == 5 && "h"@.len() == 1); assert("proto"@.len() == 5 && "cpp"@.len() == 3); assert("proto"@.len() == 5 && "cc"@.len() == 2); assert("proto"@.len() == 5 && "cxx"@.len() == 3); assert("proto"@.len() == 5 && "hpp"@.len() == 3); assert("proto"@.len() == 5 && "hxx"@.len() == 3); assert("proto"@.len() == 5 && "c++"@.len() == 3); assert("proto"@.len() == 5 && "go"@.len() == 2); assert("proto"@.len() == 5 && "groovy"@.len() == 6); assert("proto"@.len() == 5 && "gradle"@.len() == 6); assert("proto"@.len() == 5 && "rb"@.len() == 2); assert("proto"@.len() == 5 && "json"@.len() == 4); assert("proto"@.len() == 5 && "xml"@.len() == 3); assert("proto"@.len() == 5 && "yaml"@.len() == 4); assert("proto"@.len() == 5 && "yml"@.len() == 3); assert("proto"@.len() == 5 && "aidl"@.len() == 4); assert("proto"@.len() == 5 && "mk"@.len() == 2); }
    assert(e == "smali"@ ==> language_for_ext(e) == Some(LanguageView::Other("smali"@))) by { reveal_strlit("java"); reveal_strlit("kt"); reveal_strlit("kts"); reveal_strlit("c"); reveal_strlit("h"); reveal_strlit("cpp"); reveal_strlit("cc"); reveal_strlit("cxx"); reveal_strlit("hpp"); reveal_strlit("hxx"); reveal_strlit("c++"); reveal_strlit("go"); reveal_strlit("groovy"); reveal_strlit("gradle"); reveal_strlit("rb"); reveal_strlit("json"); reveal_strlit("xml"); reveal_strlit("yaml"); reveal_strlit("yml"); reveal_strlit("aidl"); reveal_strlit("mk"); reveal_strlit("smali"); assert("smali"@.len() == 5 && "java"@.len() == 4); assert("smali"@.len() == 5 && "kt"@.len() == 2); assert("smali"@.len() == 5 && "kts"@.len() == 3); assert("smali"@.len() == 5 && "c"@.len() == 1); assert("smali"@.len() == 5 && "h"@.len() == 1); assert("smali"@.len() == 5 && "cpp"@.len() == 3); assert("smali"@.len() == 5 && "cc"@.len() == 2); assert("smali"@.len() == 5 && "cxx"@.len() == 3); assert("smali"@.len() == 5 && "hpp"@.len() == 3); assert("smali"@.len() == 5 && "hxx"@.len() == 3); assert("smali"@.len() == 5 && "c++"@.len() == 3); assert("smali"@.len() == 5 && "go"@.len() == 2); assert("smali"@.len() == 5 && "groovy"@.len() == 6); assert("smali"@.len() == 5 && "gradle"@.len() == 6); assert("smali"@.len() == 5 && "rb"@.len() == 2); assert("smali"@.len() == 5 && "json"@.len() == 4); assert("smali"@.len() == 5 && "xml"@.len() == 3); assert("smali"@.len() == 5 && "yaml"@.len() == 4); assert("smali"@.len() == 5 && "yml"@.len() == 3); assert("smali"@.len() == 5 && "aidl"@.len() == 4); assert("smali"@.len() == 5 && "mk"@.len() == 2); }
}

/// The language of every path: Makefiles (`Makefile`, `makefile`,
/// `GNUmakefile`) by name; otherwise by the extension, lower-cased: Java
/// (`java`), Kotlin (`kt`, `kts`), C (`c`, `h`), C++ (`cpp`, `cc`, `cxx`,
/// `hpp`, `hxx`, `c++`), Go, Groovy, Gradle, Ruby (`rb`), JSON, XML, YAML
/// (`yaml`, `yml`), AIDL, Make (`mk`), the plain text formats kept under their
/// own extension, and none for any other extension or none at all.
pub proof fn law_language_by_extension(p: Seq<char>)
    ensures
        extension(p) matches Some(x) && ascii_lower(x) == "java"@ ==> language_of_path(p) == Some(LanguageView::Java),
        extension(p) matches Some(x) && ascii_lower(x) == "kt"@ ==> language_of_path(p) == Some(LanguageView::Kotlin),
        extension(p) matches Some(x) && ascii_lower(x) == "kts"@ ==> language_of_path(p) == Some(LanguageView::Kotlin),
        extension(p) matches Some(x) && ascii_lower(x) == "c"@ ==> language_of_path(p) == Some(LanguageView::C),
        extension(p) matches Some(x) && ascii_lower(x) == "h"@ ==> language_of_path(p) == Some(LanguageView::C),
        extension(p) matches Some(x) && ascii_lower(x) == "cpp"@ ==> language_of_path(p) == Some(LanguageView::Cpp),
        extension(p) matches Some(x) && ascii_lower(x) == "cc"@ ==> language_of_path(p) == Some(LanguageView::Cpp),
        extension(p) matches Some(x) && ascii_lower(x) == "cxx"@ ==> language_of_path(p) == Some(LanguageView::Cpp),
        extension(p) matches Some(x) && ascii_lower(x) == "hpp"@ ==> language_of_path(p) == Some(LanguageView::Cpp),
        extension(p) matches Some(x) && ascii_lower(x) == "hxx"@ ==> language_of_path(p) == Some(LanguageView::Cpp),
        extension(p) matches Some(x) && ascii_lower(x) == "c++"@ ==> language_of_path(p) == Some(LanguageView::Cpp),
        extension(p) matches Some(x) && ascii_lower(x) == "go"@ ==> language_of_path(p) == Some(LanguageView::Go),
        extension(p) matches Some(x) && ascii_lower(x) == "groovy"@ ==> language_of_path(p) == Some(LanguageView::Groovy),
        extension(p) matches Some(x) && ascii_lower(x) == "gradle"@ ==> language_of_path(p) == Some(LanguageView::Gradle),
        extension(p) matches Some(x) && ascii_lower(x) == "rb"@ ==> language_of_path(p) == Some(LanguageView::Ruby),
        extension(p) matches Some(x) && ascii_lower(x) == "json"@ ==> language_of_path(p) == Some(LanguageView::Json),
        extension(p) matches Some(x) && ascii_lower(x) == "xml"@ ==> language_of_path(p) == Some(LanguageView::Xml),
        extension(p) matches Some(x) && ascii_lower(x) == "yaml"@ ==> language_of_path(p) == Some(LanguageView::Yaml),
        extension(p) matches Some(x) && ascii_lower(x) == "yml"@ ==> language_of_path(p) == Some(LanguageView::Yaml),
        extension(p) matches Some(x) && ascii_lower(x) == "aidl"@ ==> language_of_path(p) == Some(LanguageView::Aidl),
        extension(p) matches Some(x) && ascii_lower(x) == "mk"@ ==> language_of_path(p) == Some(LanguageView::Make),
        extension(p) matches Some(x) && ascii_lower(x) == "toml"@ ==> language_of_path(p) == Some(LanguageView::Other("toml"@)),
        extension(p) matches Some(x) && ascii_lower(x) == "py"@ ==> language_of_path(p) == Some(LanguageView::Other("py"@)),
        extension(p) matches Some(x) && ascii_lower(x) == "js"@ ==> language_of_path(p) == Some(LanguageView::Other("js"@)),
        extension(p) matches Some(x) && ascii_lower(x) == "jsx"@ ==> language_of_path(p) == Some(LanguageView::Other("jsx"@)),
        extension(p) matches Some(x) && ascii_lower(x) == "ts"@ ==> language_of_path(p) == Some(LanguageView::Other("ts"@)),
        extension(p) matches Some(x) && ascii_lower(x) == "tsx"@ ==> language_of_path(p) == Some(LanguageView::Other("tsx"@)),
        extension(p) matches Some(x) && ascii_lower(x) == "rs"@ ==> language_of_path(p) == Some(LanguageView::Other("rs"@)),
        extension(p) matches Some(x) && ascii_lower(x) == "swift"@ ==> language_of_path(p) == Some(LanguageView::Other("swift"@)),
        extension(p) matches Some(x) && ascii_lower(x) == "scala"@ ==> language_of_path(p) == Some(LanguageView::Other("scala"@)),
        extension(p) matches Some(x) && ascii_lower(x) == "sh"@ ==> language_of_path(p) == Some(LanguageView::Other("sh"@)),
        extension(p) matches Some(x) && ascii_lower(x) == "bash"@ ==> language_of_path(p) == Some(LanguageView::Other("bash"@)),
        extension(p) matches Some(x) && ascii_lower(x) == "zsh"@ ==> language_of_path(p) == Some(LanguageView::Other("zsh"@)),
        extension(p) matches Some(x) && ascii_lower(x) == "bp"@ ==> language_of_path(p) == Some(LanguageView::Other("bp"@)),
        extension(p) matches Some(x) && ascii_lower(x) == "proto"@ ==> language_of_path(p) == Some(LanguageView::Other("proto"@)),
        extension(p) matches Some(x) && ascii_lower(x) == "smali"@ ==> language_of_path(p) == Some(LanguageView::Other("smali"@)),
        extension(p) matches Some(x) && ascii_lower(x) != "java"@ && ascii_lower(x) != "kt"@ && ascii_lower(x) != "kts"@ && ascii_lower(x) != "c"@ && ascii_lower(x) != "h"@ && ascii_lower(x) != "cpp"@ && ascii_lower(x) != "cc"@ && ascii_lower(x) != "cxx"@ && ascii_lower(x) != "hpp"@ && ascii_lower(x) != "hxx"@ && ascii_lower(x) != "c++"@ && ascii_lower(x) != "go"@ && ascii_lower(x) != "groovy"@ && ascii_lower(x) != "gradle"@ && ascii_lower(x) != "rb"@ && ascii_lower(x) != "json"@ && ascii_lower(x) != "xml"@ && ascii_lower(x) != "yaml"@ && ascii_lower(x) != "yml"@ && ascii_lower(x) != "aidl"@ && ascii_lower(x) != "mk"@ && ascii_lower(x) != "toml"@ && ascii_lower(x) != "py"@ && ascii_lower(x) != "js"@ && ascii_lower(x) != "jsx"@ && ascii_lower(x) != "ts"@ && ascii_lower(x) != "tsx"@ && ascii_lower(x) != "rs"@ && ascii_lower(x) != "swift"@ && ascii_lower(x) != "scala"@ && ascii_lower(x) != "sh"@ && ascii_lower(x) != "bash"@ && ascii_lower(x) != "zsh"@ && ascii_lower(x) != "bp"@ && ascii_lower(x) != "proto"@ && ascii_lower(x) != "smali"@ ==> language_of_path(p) is None,
        extension(p) is None && !(file_name(p) matches Some(n) && is_makefile_name(n)) ==> language_of_path(p) is None,
        file_name(p) matches Some(n) && is_makefile_name(n) ==> language_of_path(p) == Some(LanguageView::Make),
{
    if extension(p) is Some {
        reveal_strlit("Makefile");
        reveal_strlit("makefile");
        reveal_strlit("GNUmakefile");
        lemma_last_dot_is_dot(file_name(p)->0);
        assert(!is_makefile_name(file_name(p)->0));
        lemma_language_for_ext_table(ascii_lower(extension(p)->0));
    }
}

/// The walk leaves out a file exactly when, relative to the indexed root
/// (or as given, when it does not lie below it), its path starts with
/// `out/`, `.repo/`, `.git/` or `prebuilts/` or holds `/.git/` or `/out/`,
/// or its extension is one of binary artefacts, archives, images, fonts
/// and media (`so`, `a`, `o`, `class`, `jar`, `aar`, `dex`, `apk`, `img`,
/// `bin`, `zip`, `gz`, `tar`, `7z`, `png`, `jpg`, `jpeg`, `gif`, `webp`,
/// `ico`, `ttf`, `otf`, `woff`, `woff2`, `mp3`, `mp4`, `ogg`, `wav`).
pub proof fn law_skipped_paths(path: Seq<char>, root: Seq<char>)
    ensures
        ({
            let rel = match path_strip_prefix(path, root) {
                Some(r) => r,
                None => path,
            };
            &&& (extension(path) == Some("so"@) ==> skipped(path, root))
            &&& (extension(path) == Some("a"@) ==> skipped(path, root))
            &&& (extension(path) == Some("o"@) ==> skipped(path, root))
            &&& (extension(path) == Some("class"@) ==> skipped(path, root))
            &&& (extension(path) == Some("jar"@) ==> skipped(path, root))
            &&& (extension(path) == Some("aar"@) ==> skipped(path, root))
            &&& (extension(path) == Some("dex"@) ==> skipped(path, root))
            &&& (extension(path) == Some("apk"@) ==> skipped(path, root))
            &&& (extension(path) == Some("img"@) ==> skipped(path, root))
            &&& (extension(path) == Some("bin"@) ==> skipped(path, root))
            &&& (extension(path) == Some("zip"@) ==> skipped(path, root))
            &&& (extension(path) == Some("gz"@) ==> skipped(path, root))
            &&& (extension(path) == Some("tar"@) ==> skipped(path, root))
            &&& (extension(path) == Some("7z"@) ==> skipped(path, root))
            &&& (extension(path) == Some("png"@) ==> skipped(path, root))
            &&& (extension(path) == Some("jpg"@) ==> skipped(path, root))
            &&& (extension(path) == Some("jpeg"@) ==> skipped(path, root))
            &&& (extension(path) == Some("gif"@) ==> skipped(path, root))
            &&& (extension(path) == Some("webp"@) ==> skipped(path, root))
            &&& (extension(path) == Some("ico"@) ==> skipped(path, root))
            &&& (extension(path) == Some("ttf"@) ==> skipped(path, root))
            &&& (extension(path) == Some("otf"@) ==> skipped(path, root))
            &&& (extension(path) == Some("woff"@) ==> skipped(path, root))
            &&& (extension(path) == Some("woff2"@) ==> skipped(path, root))
            &&& (extension(path) == Some("mp3"@) ==> skipped(path, root))
            &&& (extension(path) == Some("mp4"@) ==> skipped(path, root))
            &&& (extension(path) == Some("ogg"@) ==> skipped(path, root))
            &&& (extension(path) == Some("wav"@) ==> skipped(path, root))
            &&& (starts_with(rel, "out/"@) ==> skipped(path, root))
            &&& (starts_with(rel, ".repo/"@) ==> skipped(path, root))
            &&& (starts_with(rel, ".git/"@) ==> skipped(path, root))
            &&& (starts_with(rel, "prebuilts/"@) ==> skipped(path, root))
            &&& (first_occurrence(rel, "/.git/"@) is Some ==> skipped(path, root))
            &&& (first_occurrence(rel, "/out/"@) is Some ==> skipped(path, root))
            &&& (!starts_with(rel, "out/"@) && !starts_with(rel, ".repo/"@) && !starts_with(rel, ".git/"@) && !starts_with(rel, "prebuilts/"@) && first_occurrence(rel, "/.git/"@) is None && first_occurrence(rel, "/out/"@) is None && (extension(path) matches Some(x) ==> x != "so"@ && x != "a"@ && x != "o"@ && x != "class"@ && x != "jar"@ && x != "aar"@ && x != "dex"@ && x != "apk"@ && x != "img"@ && x != "bin"@ && x != "zip"@ && x != "gz"@ && x != "tar"@ && x != "7z"@ && x != "png"@ && x != "jpg"@ && x != "jpeg"@ && x != "gif"@ && x != "webp"@ && x != "ico"@ && x != "ttf"@ && x != "otf"@ && x != "woff"@ && x != "woff2"@ && x != "mp3"@ && x != "mp4"@ && x != "ogg"@ && x != "wav"@) ==> !skipped(path, root))
        }),
{
}

} // verus!
