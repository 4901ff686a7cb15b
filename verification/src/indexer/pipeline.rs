//! The decisions of the indexing pipeline: which files to read, how a file's
//! content is fingerprinted, and what the watcher does with a changed path.
use vstd::prelude::*;

use crate::indexer::treesitter::ts_symbols;
use crate::indexer::{
    aidl, cpp, go, gradle, groovy, java, json, kotlin, language_of_path, make, ruby, xml, yaml,
    Language, LanguageView,
};
use crate::symbol::{symbol_views, Symbol, SymbolView};
use crate::syntax::Grammar;
use crate::text::{chars_of, join, lemma_str_len, lemma_utf8_len_lower, line_split_state, lines, lines_of, strip_cr, string_from_chars};
use vstd::string::StringSliceAdditionalSpecFns;
use vstd::utf8::valid_utf8;

verus! {

/// The SHA-256 digest of the data, as `sha2::Sha256::digest` computes it.
pub uninterp spec fn sha256_digest(data: Seq<u8>) -> Seq<u8>;

/// `sha2::Sha256::digest`: the digest of the data, 32 bytes long (the
/// output size `Sha256` declares).
#[verifier::external_body]
pub(crate) fn sha256(data: &[u8]) -> (r: Vec<u8>)
    ensures
        r@ == sha256_digest(data@),
        r@.len() == 32,
{
    <sha2::Sha256 as sha2::Digest>::digest(data).to_vec()
}

/// The lower-case hexadecimal digit of a value below 16.
pub open spec fn hex_digit(v: u8) -> char {
    if v < 10 {
        (('0' as u8) + v) as char
    } else {
        (('a' as u8) + (v - 10)) as char
    }
}

/// Two lower-case hexadecimal digits per byte, high nibble first.
pub open spec fn hex_lower(data: Seq<u8>) -> Seq<char>
    decreases data.len(),
{
    if data.len() == 0 {
        seq![]
    } else {
        hex_lower(data.drop_last()) + seq![hex_digit(data.last() / 16), hex_digit(data.last() % 16)]
    }
}

/// `hex::encode`: two lower-case hexadecimal digits per byte, high nibble
/// first.
#[verifier::external_body]
pub(crate) fn hex_encode(data: &[u8]) -> (r: String)
    ensures
        r@ == hex_lower(data@),
{
    hex::encode(data)
}

/// The fingerprint stored for a file's content: the hexadecimal SHA-256
/// digest of its bytes.
pub fn content_hash(source: &[u8]) -> (r: String)
    ensures
        r@ == hex_lower(sha256_digest(source@)),
        r@.len() == 64,
        forall|i: int| 0 <= i < r@.len() ==> is_hex_digit(#[trigger] r@[i]),
{
    let d = sha256(source);
    proof {
        law_hex_shape(d@);
    }
    hex_encode(&d)
}

/// A lower-case hexadecimal digit.
pub open spec fn is_hex_digit(c: char) -> bool {
    ('0' <= c <= '9') || ('a' <= c <= 'f')
}

/// Hex encoding gives two lower-case hexadecimal digits per byte.
pub proof fn law_hex_shape(data: Seq<u8>)
    ensures
        hex_lower(data).len() == 2 * data.len(),
        forall|i: int| 0 <= i < hex_lower(data).len() ==> is_hex_digit(#[trigger] hex_lower(data)[i]),
    decreases data.len(),
{
    if data.len() > 0 {
        law_hex_shape(data.drop_last());
        let prev = hex_lower(data.drop_last());
        let b = data.last();
        let hi = hex_digit(b / 16);
        let lo = hex_digit(b % 16);
        assert(is_hex_digit(hi));
        assert(is_hex_digit(lo));
        let cur = hex_lower(data);
        assert(cur =~= prev + seq![hi, lo]);
        assert forall|i: int| 0 <= i < cur.len() implies is_hex_digit(#[trigger] cur[i]) by {
            if i < prev.len() {
                assert(cur[i] == prev[i]);
            } else if i == prev.len() {
                assert(cur[i] == hi);
            } else {
                assert(cur[i] == lo);
            }
        }
    }
}

/// Whether a file can be skipped because its stored modification time is
/// the one it has now.
pub fn mtime_unchanged(stored: Option<i64>, mtime: i64) -> (r: bool)
    ensures
        r == (stored == Some(mtime)),
{
    match stored {
        Some(m) => m == mtime,
        None => false,
    }
}

/// Whether a file can be skipped because its stored content hash is the
/// hash of its content now.
pub fn hash_unchanged(stored: Option<&str>, hash: &str) -> (r: bool)
    ensures
        r == (stored matches Some(s) && s@ == hash@),
{
    match stored {
        Some(s) => crate::text::chars_eq(&chars_of(s), &chars_of(hash)),
        None => false,
    }
}

/// Files above this size (2 MiB) are not indexed.
pub const MAX_FILE_SIZE: u64 = 2097152;

/// Whether a file is too large to index.
pub fn is_oversized(file_size: u64) -> (r: bool)
    ensures
        r == (file_size > 2 * 1024 * 1024),
{
    file_size > MAX_FILE_SIZE
}

/// Control bytes other than tab, line feed and carriage return.
pub open spec fn is_control_byte(b: u8) -> bool {
    b < 32 && b != 9 && b != 10 && b != 13
}

/// The number of control bytes.
pub open spec fn control_count(s: Seq<u8>) -> nat
    decreases s.len(),
{
    if s.len() == 0 {
        0
    } else {
        control_count(s.drop_last()) + if is_control_byte(s.last()) {
            1nat
        } else {
            0nat
        }
    }
}

/// Whether the first bytes of a file look binary: they hold a NUL byte, or
/// more than 3% of them are control bytes. An empty head is not binary.
pub open spec fn binary_head(head: Seq<u8>) -> bool {
    head.len() > 0 && ((exists|i: int| 0 <= i < head.len() && head[i] == 0) || control_count(head) * 100 > head.len() * 3)
}

/// Whether the first bytes of a file look binary.
pub fn looks_binary(head: &[u8]) -> (r: bool)
    ensures
        r == binary_head(head@),
{
    let n = head.len();
    if n == 0 {
        return false;
    }
    let mut i: usize = 0;
    while i < n
        invariant
            i <= n,
            n == head@.len(),
            forall|j: int| 0 <= j < i ==> head@[j] != 0,
        decreases n - i,
    {
        if head[i] == 0 {
            return true;
        }
        i = i + 1;
    }
    let mut count: u64 = 0;
    let mut k: usize = 0;
    while k < n
        invariant
            k <= n,
            n == head@.len(),
            count == control_count(head@.take(k as int)),
            count <= k,
        decreases n - k,
    {
        assert(head@.take(k + 1).drop_last() =~= head@.take(k as int));
        let b = head[k];
        if b < 32 && b != 9 && b != 10 && b != 13 {
            count = count + 1;
        }
        k = k + 1;
    }
    assert(head@.take(n as int) =~= head@);
    (count as u128) * 100 > (n as u128) * 3
}

/// What the watcher does about a changed path.
pub enum WatchAction {
    /// A path of no indexed language.
    Ignore,
    /// The file is gone: its index entries are removed.
    Remove,
    /// The file changed: it is indexed again.
    Reindex(Language),
}

/// What the watcher does about a changed path: nothing for a path of no
/// indexed language, remove it when it is no longer a file, else re-index.
pub fn watch_action(path: &str, is_file: bool) -> (r: WatchAction)
    ensures
        match language_of_path(path@) {
            None => r is Ignore,
            Some(l) => if is_file {
                r matches WatchAction::Reindex(x) && x@ == l
            } else {
                r is Remove
            },
        },
{
    match Language::from_path(path) {
        None => WatchAction::Ignore,
        Some(l) => if is_file {
            WatchAction::Reindex(l)
        } else {
            WatchAction::Remove
        },
    }
}

/// What to do with a file met by the walk: the language it is indexed as,
/// or none when it is not a regular file, lies in a skipped tree, or has no
/// indexed language.
pub fn walk_entry(path: &str, root: &str, is_file: bool) -> (r: Option<Language>)
    ensures
        !is_file ==> r is None,
        is_file && crate::indexer::skipped(path@, root@) ==> r is None,
        is_file && !crate::indexer::skipped(path@, root@) ==> match language_of_path(path@) {
            Some(l) => r matches Some(x) && x@ == l,
            None => r is None,
        },
{
    if !is_file {
        return None;
    }
    if crate::indexer::should_skip(path, root) {
        return None;
    }
    Language::from_path(path)
}

/// How often progress is logged: every tenth of the files, at least every file.
pub fn log_interval(total: usize) -> (r: usize)
    ensures
        r == (if total / 10 > 1 { total / 10 } else { 1 }),
{
    let t = total / 10;
    if t > 1 { t } else { 1 }
}

/// Whether the count of processed files is stored (every 500 files).
pub fn stores_progress(done: usize) -> (r: bool)
    ensures
        r == (done % 500 == 0),
{
    done % 500 == 0
}

/// Whether progress is logged after `done` files: at each interval and at the end.
pub fn logs_progress(done: usize, total: usize, interval: usize) -> (r: bool)
    requires
        interval > 0,
    ensures
        r == (done % interval == 0 || done == total),
{
    done % interval == 0 || done == total
}

// ---------------------------------------------------------------------------
// Parsing a file for the index
// ---------------------------------------------------------------------------
/// The symbols the index records for a source of the given language: the
/// extractor of its language, none for `Other`.
pub open spec fn language_symbols(l: LanguageView, source: Seq<char>) -> Seq<SymbolView> {
    match l {
        LanguageView::Java => ts_symbols(Grammar::Java, source),
        LanguageView::Kotlin => ts_symbols(Grammar::Kotlin, source),
        LanguageView::C => ts_symbols(Grammar::Cpp, source),
        LanguageView::Cpp => ts_symbols(Grammar::Cpp, source),
        LanguageView::Make => make::make_symbols(source),
        LanguageView::Go => ts_symbols(Grammar::Go, source),
        LanguageView::Groovy => groovy::groovy_symbols(source),
        LanguageView::Gradle => gradle::gradle_symbols(source),
        LanguageView::Ruby => ts_symbols(Grammar::Ruby, source),
        LanguageView::Json => ts_symbols(Grammar::Json, source),
        LanguageView::Xml => xml::xml_symbols(source),
        LanguageView::Yaml => yaml::yaml_symbols(source),
        LanguageView::Aidl => aidl::aidl_symbols(source),
        LanguageView::Other(_) => seq![],
    }
}

/// The symbols of a source, by the extractor of its language.
pub fn extract_symbols_for(lang: &Language, source: &str) -> (r: Vec<Symbol>)
    requires
        source@.len() < i32::MAX,
    ensures
        symbol_views(r@) == language_symbols(lang@, source@),
{
    match lang {
        Language::Java => java::extract_symbols(source),
        Language::Kotlin => kotlin::extract_symbols(source),
        Language::C => cpp::extract_symbols(source),
        Language::Cpp => cpp::extract_symbols(source),
        Language::Make => make::extract_symbols(source),
        Language::Go => go::extract_symbols(source),
        Language::Groovy => groovy::extract_symbols(source),
        Language::Gradle => gradle::extract_symbols(source),
        Language::Ruby => ruby::extract_symbols(source),
        Language::Json => json::extract_symbols(source),
        Language::Xml => xml::extract_symbols(source),
        Language::Yaml => yaml::extract_symbols(source),
        Language::Aidl => aidl::extract_symbols(source),
        Language::Other(_) => {
            let v: Vec<Symbol> = Vec::new();
            assert(symbol_views(v@) =~= Seq::<SymbolView>::empty());
            v
        },
    }
}

/// The texts held by a sequence of strings.
pub open spec fn string_views(v: Seq<String>) -> Seq<Seq<char>> {
    v.map_values(|s: String| s@)
}

/// The lines the index stores for a source: its lines, none for `Other`.
pub open spec fn stored_lines(l: LanguageView, source: Seq<char>) -> Seq<Seq<char>> {
    match l {
        LanguageView::Other(_) => seq![],
        _ => lines(source),
    }
}

/// The lines stored for a source of the given language.
pub fn file_lines(lang: &Language, source: &str) -> (r: Vec<String>)
    ensures
        string_views(r@) == stored_lines(lang@, source@),
{
    let mut out: Vec<String> = Vec::new();
    match lang {
        Language::Other(_) => {
            assert(string_views(out@) =~= Seq::<Seq<char>>::empty());
            return out;
        },
        _ => {},
    }
    let ls = lines_of(&chars_of(source));
    let mut k: usize = 0;
    while k < ls.len()
        invariant
            k <= ls@.len(),
            crate::text::views(ls@) == lines(source@),
            string_views(out@) == crate::text::views(ls@).take(k as int),
        decreases ls@.len() - k,
    {
        let line = string_from_chars(&ls[k]);
        assert(crate::text::views(ls@)[k as int] == ls@[k as int]@);
        let ghost before = string_views(out@);
        out.push(line);
        assert(string_views(out@) =~= before.push(line@));
        assert(string_views(out@) =~= crate::text::views(ls@).take(k + 1));
        k = k + 1;
    }
    assert(crate::text::views(ls@).take(ls@.len() as int) =~= crate::text::views(ls@));
    out
}

/// `std::str::from_utf8`: the text the bytes encode, `None` when they are
/// not valid UTF-8.
#[verifier::external_body]
fn str_from_utf8(bytes: &[u8]) -> (r: Option<&str>)
    ensures
        r is Some <==> valid_utf8(bytes@),
        r matches Some(s) ==> s.spec_bytes() == bytes@,
{
    std::str::from_utf8(bytes).ok()
}

/// What the indexer has just learnt about a file, in the order it learns it.
pub enum FileEvent {
    /// The file's size in bytes.
    Sized(u64),
    /// The first bytes of the file.
    Head(Vec<u8>),
    /// The modification time stored for the file, if any, and the one it has.
    StoredMtime(Option<i64>, i64),
    /// The content hash stored for the file, if any, the hash of its content
    /// now, and the content's length in bytes.
    StoredHash(Option<String>, String, usize),
}

/// What the indexer does next with a file.
#[derive(PartialEq, Eq, Structural, Debug)]
pub enum FileAction {
    /// Read the first bytes of the file.
    ReadHead,
    /// Look up the stored modification time.
    LookUpMtime,
    /// Read the content, hash it and look up the stored hash.
    ReadContent,
    /// Leave the file as it is stored.
    Skip,
    /// Keep the stored content and store the new modification time.
    TouchMtime,
    /// Parse the content and write it to the index.
    Parse,
}

/// The checks a file goes through before it is parsed, in order: too large
/// (over 2 MiB), then binary by its first bytes, then the same stored
/// modification time, then the same stored content hash (only the time is
/// stored again), then a content too long to parse (`i32::MAX` bytes or
/// more). A file that passes them all is parsed.
pub fn file_step(event: FileEvent) -> (r: FileAction)
    ensures
        match event {
            FileEvent::Sized(size) => r == if size > 2 * 1024 * 1024 {
                FileAction::Skip
            } else {
                FileAction::ReadHead
            },
            FileEvent::Head(head) => r == if binary_head(head@) {
                FileAction::Skip
            } else {
                FileAction::LookUpMtime
            },
            FileEvent::StoredMtime(stored, mtime) => r == if stored == Some(mtime) {
                FileAction::Skip
            } else {
                FileAction::ReadContent
            },
            FileEvent::StoredHash(stored, hash, len) => r == if stored matches Some(h) && h@ == hash@ {
                FileAction::TouchMtime
            } else if len >= i32::MAX {
                FileAction::Skip
            } else {
                FileAction::Parse
            },
        },
{
    match event {
        FileEvent::Sized(size) => if is_oversized(size) {
            FileAction::Skip
        } else {
            FileAction::ReadHead
        },
        FileEvent::Head(head) => if looks_binary(&head) {
            FileAction::Skip
        } else {
            FileAction::LookUpMtime
        },
        FileEvent::StoredMtime(stored, mtime) => if mtime_unchanged(stored, mtime) {
            FileAction::Skip
        } else {
            FileAction::ReadContent
        },
        FileEvent::StoredHash(stored, hash, len) => {
            let same = match &stored {
                Some(h) => hash_unchanged(Some(h.as_str()), hash.as_str()),
                None => false,
            };
            if same {
                FileAction::TouchMtime
            } else if len >= 2147483647 {
                FileAction::Skip
            } else {
                FileAction::Parse
            }
        },
    }
}

/// A parsed file, ready to be written to the index.
pub struct WriteTask {
    pub path: String,
    pub lang: Language,
    pub mtime: i64,
    pub hash: String,
    pub symbols: Vec<Symbol>,
    pub lines: Vec<String>,
}

/// Parses a changed file for the index: its symbols and lines, with the
/// path, language, modification time and content hash it is stored under;
/// `None` when the content is not UTF-8, which is not indexed.
pub fn prepare_write(path: String, lang: Language, mtime: i64, hash: String, source: &[u8]) -> (r: Option<WriteTask>)
    requires
        source@.len() < i32::MAX,
    ensures
        r is Some <==> valid_utf8(source@),
        r matches Some(t) ==> {
            let text = vstd::utf8::decode_utf8(source@);
            &&& t.path@ == path@
            &&& t.lang@ == lang@
            &&& t.mtime == mtime
            &&& t.hash@ == hash@
            &&& symbol_views(t.symbols@) == language_symbols(lang@, text)
            &&& string_views(t.lines@) == stored_lines(lang@, text)
        },
{
    let text = match str_from_utf8(source) {
        Some(s) => s,
        None => {
            return None;
        },
    };
    proof {
        lemma_str_len(text);
        lemma_utf8_len_lower(text@);
        vstd::utf8::encode_utf8_decode_utf8(text@);
    }
    let symbols = extract_symbols_for(&lang, text);
    let lines = file_lines(&lang, text);
    Some(WriteTask { path, lang, mtime, hash, symbols, lines })
}

/// The lines, each followed by a line feed.
pub open spec fn line_ends(ls: Seq<Seq<char>>) -> Seq<char>
    decreases ls.len(),
{
    if ls.len() == 0 {
        seq![]
    } else {
        line_ends(ls.drop_last()) + ls.last() + seq!['\n']
    }
}

/// Whether a text holds a carriage return right before a line feed.
pub open spec fn has_crlf(s: Seq<char>) -> bool {
    exists|i: int| 0 <= i < s.len() - 1 && #[trigger] s[i] == '\r' && s[i + 1] == '\n'
}

proof fn lemma_split_state_rejoin(s: Seq<char>)
    requires
        !has_crlf(s),
    ensures
        line_ends(line_split_state(s).0) + line_split_state(s).1 == s,
        line_split_state(s).1.len() > 0 ==> line_split_state(s).1.last() == s.last() && s.last() != '\n',
    decreases s.len(),
{
    if s.len() > 0 {
        let t = s.drop_last();
        assert(!has_crlf(t)) by {
            if has_crlf(t) {
                let i = choose|i: int| 0 <= i < t.len() - 1 && #[trigger] t[i] == '\r' && t[i + 1] == '\n';
                assert(s[i] == '\r' && s[i + 1] == '\n');
            }
        }
        lemma_split_state_rejoin(t);
        let (done, cur) = line_split_state(t);
        if s.last() == '\n' {
            if cur.len() > 0 {
                assert(cur.last() == t.last());
                assert(s[s.len() - 2] == t.last());
                assert(cur.last() != '\r');
            }
            assert(strip_cr(cur) == cur);
            let nd = done.push(cur);
            assert(nd.drop_last() =~= done);
            assert(line_ends(nd) + Seq::<char>::empty() =~= line_ends(done) + cur + seq!['\n']);
            assert(t.push('\n') =~= s);
        } else {
            assert(line_ends(done) + cur.push(s.last()) =~= (line_ends(done) + cur).push(s.last()));
            assert(t.push(s.last()) =~= s);
        }
    }
}

proof fn lemma_join_push(ls: Seq<Seq<char>>, x: Seq<char>)
    ensures
        join(ls.push(x), seq!['\n']) == line_ends(ls) + x,
    decreases ls.len(),
{
    if ls.len() == 0 {
        assert(ls.push(x) =~= seq![x]);
        assert(line_ends(ls) + x =~= x);
    } else {
        let d = ls.drop_last();
        lemma_join_push(d, ls.last());
        assert(d.push(ls.last()) =~= ls);
        assert(ls.push(x).drop_last() =~= ls);
        assert(join(ls.push(x), seq!['\n']) == join(ls, seq!['\n']) + seq!['\n'] + x);
        assert(line_ends(ls) + x =~= line_ends(d) + ls.last() + seq!['\n'] + x);
    }
}

/// The lines stored for a file of an indexed language, joined with line
/// feeds, give back its text without its final line ending (a text with
/// CRLF line endings loses the carriage returns).
pub proof fn law_stored_lines_rejoin(l: LanguageView, s: Seq<char>)
    requires
        l !is Other,
        !has_crlf(s),
    ensures
        join(stored_lines(l, s), seq!['\n']) == (if s.len() > 0 && s.last() == '\n' {
            s.drop_last()
        } else {
            s
        }),
{
    lemma_split_state_rejoin(s);
    let (done, cur) = line_split_state(s);
    if cur.len() > 0 {
        lemma_join_push(done, cur);
    } else if done.len() == 0 {
        assert(s =~= Seq::<char>::empty());
    } else {
        let d = done.drop_last();
        lemma_join_push(d, done.last());
        assert(d.push(done.last()) =~= done);
        assert(line_ends(done) + cur =~= line_ends(d) + done.last() + seq!['\n']);
        assert(s.drop_last() =~= line_ends(d) + done.last());
    }
}

} // verus!
