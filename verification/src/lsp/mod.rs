//! Language-server support: which server serves a language, the JSON-RPC
//! framing, and the reading of location answers.
pub mod json;
pub mod locations;
pub mod manager;

use vstd::prelude::*;

use crate::text::{lemma_str_len, chars_eq, chars_of, extend_chars, starts_with, starts_with_exec, string_from_chars, trim, trim_chars, trim_end, trim_start, utf8_len};
use crate::tools::index_status::{all_digits, decimal, digits_value, render_count};

verus! {

/// The language server that serves a language key.
pub open spec fn server_key(language: Seq<char>) -> Option<Seq<char>> {
    if language == "java"@ {
        Some("java"@)
    } else if language == "kotlin"@ {
        Some("kotlin"@)
    } else if language == "c"@ || language == "cpp"@ {
        Some("cpp"@)
    } else if language == "go"@ {
        Some("go"@)
    } else if language == "groovy"@ || language == "gradle"@ {
        Some("groovy"@)
    } else if language == "rb"@ {
        Some("ruby"@)
    } else if language == "json"@ {
        Some("json"@)
    } else if language == "xml"@ {
        Some("xml"@)
    } else if language == "yaml"@ || language == "yml"@ {
        Some("yaml"@)
    } else if language == "aidl"@ {
        Some("aidl"@)
    } else if language == "mk"@ || language == "make"@ {
        Some("make"@)
    } else {
        None
    }
}

fn is(l: &[char], lit: &str) -> (r: bool)
    ensures
        r == (l@ == lit@),
{
    chars_eq(l, &chars_of(lit))
}

/// The language server that serves a language key.
pub fn server_key_for_language(language: &str) -> (r: Option<&'static str>)
    ensures
        match server_key(language@) {
            Some(k) => r matches Some(x) && x@ == k,
            None => r is None,
        },
{
    let l = chars_of(language);
    if is(&l, "java") {
        Some("java")
    } else if is(&l, "kotlin") {
        Some("kotlin")
    } else if is(&l, "c") || is(&l, "cpp") {
        Some("cpp")
    } else if is(&l, "go") {
        Some("go")
    } else if is(&l, "groovy") || is(&l, "gradle") {
        Some("groovy")
    } else if is(&l, "rb") {
        Some("ruby")
    } else if is(&l, "json") {
        Some("json")
    } else if is(&l, "xml") {
        Some("xml")
    } else if is(&l, "yaml") || is(&l, "yml") {
        Some("yaml")
    } else if is(&l, "aidl") {
        Some("aidl")
    } else if is(&l, "mk") || is(&l, "make") {
        Some("make")
    } else {
        None
    }
}

/// The header that precedes a JSON-RPC message body of `len` bytes.
pub open spec fn content_length_header(len: nat) -> Seq<char> {
    "Content-Length: "@ + decimal(len) + "\r\n\r\n"@
}

/// The header that precedes a JSON-RPC message body.
pub fn frame_header(body: &str) -> (r: String)
    ensures
        r@ == content_length_header((utf8_len(body@) as usize) as nat),
{
    let len = body.len();
    proof {
        lemma_str_len(body);
    }
    let digits = render_count(len);
    let mut out = chars_of("Content-Length: ");
    extend_chars(&mut out, &chars_of(digits.as_str()));
    extend_chars(&mut out, &chars_of("\r\n\r\n"));
    string_from_chars(&out)
}

/// `str::parse::<usize>`: an optional `+`, then at least one decimal digit
/// and nothing else, with a value that fits in `usize`.
pub open spec fn parse_usize(s: Seq<char>) -> Option<usize> {
    let digits = if s.len() > 0 && s[0] == '+' {
        s.skip(1)
    } else {
        s
    };
    if digits.len() == 0 || !all_digits(digits) || digits_value(digits) > usize::MAX {
        None
    } else {
        Some(digits_value(digits) as usize)
    }
}

/// What a header line of a JSON-RPC message says.
pub enum HeaderLine {
    /// The blank line that ends the headers.
    End,
    /// The body length, or `None` when the number cannot be read.
    ContentLength(Option<usize>),
    /// Another header.
    Other,
}

/// What a header line says, once trimmed.
pub open spec fn header_line(raw: Seq<char>) -> HeaderLine {
    let line = trim(raw);
    if line.len() == 0 {
        HeaderLine::End
    } else if starts_with(line, "Content-Length: "@) {
        HeaderLine::ContentLength(parse_usize(line.skip(16)))
    } else {
        HeaderLine::Other
    }
}

proof fn lemma_digits_value_nonneg(d: Seq<char>)
    requires
        all_digits(d),
    ensures
        digits_value(d) >= 0,
    decreases d.len(),
{
    if d.len() > 0 {
        lemma_digits_value_nonneg(d.drop_last());
    }
}

/// `str::parse::<usize>`.
pub fn parse_usize_exec(s: &[char]) -> (r: Option<usize>)
    ensures
        r == parse_usize(s@),
{
    let n = s.len();
    let start: usize = if n > 0 && s[0] == '+' { 1 } else { 0 };
    let ghost digits = s@.skip(start as int);
    if start == n {
        return None;
    }
    let cap: u128 = (usize::MAX as u128) + 1;
    let mut acc: u128 = 0;
    let mut i: usize = start;
    while i < n
        invariant
            start <= i <= n,
            n == s@.len(),
            start == (if n > 0 && s@[0] == '+' { 1usize } else { 0usize }),
            digits == s@.skip(start as int),
            all_digits(digits.take(i - start)),
            acc == (if digits_value(digits.take(i - start)) < cap { digits_value(digits.take(i - start)) } else { cap as int }),
            0 <= acc <= cap,
            cap == (usize::MAX as u128) + 1,
        decreases n - i,
    {
        let ch = s[i];
        proof {
            assert(digits.take(i - start + 1).drop_last() =~= digits.take(i - start));
            assert(digits.take(i - start + 1).last() == ch);
            lemma_digits_value_nonneg(digits.take(i - start));
        }
        if !('0' <= ch && ch <= '9') {
            assert(digits[i - start] == ch);
            assert(!all_digits(digits));
            return None;
        }
        let d = (ch as u32 - '0' as u32) as u128;
        assert(acc * 10 <= cap * 10) by (nonlinear_arith)
            requires
                acc <= cap,
        ;
        let next = acc * 10 + d;
        proof {
            let v = digits_value(digits.take(i - start));
            let v2 = digits_value(digits.take(i - start + 1));
            assert(v2 == 10 * v + d);
            if v >= cap {
                assert(10 * v + d >= cap) by (nonlinear_arith)
                    requires
                        v >= cap,
                        cap > 0,
                        d >= 0,
                ;
                assert(next >= cap) by (nonlinear_arith)
                    requires
                        acc == cap,
                        next == acc * 10 + d,
                        cap > 0,
                        d >= 0,
                ;
            }
        }
        acc = if next < cap { next } else { cap };
        i = i + 1;
        assert(all_digits(digits.take(i - start)));
    }
    assert(digits.take(n - start) =~= digits);
    proof {
        if start == 0 {
            assert(digits =~= s@);
        }
    }
    if acc > usize::MAX as u128 {
        None
    } else {
        Some(acc as usize)
    }
}

/// What a header line of a JSON-RPC message says.
pub fn parse_header_line(raw: &str) -> (r: HeaderLine)
    ensures
        r == header_line(raw@),
{
    let line = trim_chars(&chars_of(raw));
    if line.len() == 0 {
        return HeaderLine::End;
    }
    let prefix = chars_of("Content-Length: ");
    if starts_with_exec(&line, &prefix) {
        proof {
            reveal_strlit("Content-Length: ");
        }
        let mut rest: Vec<char> = Vec::new();
        let mut i: usize = prefix.len();
        while i < line.len()
            invariant
                prefix@.len() <= i <= line@.len(),
                rest@ == line@.subrange(prefix@.len() as int, i as int),
            decreases line@.len() - i,
        {
            rest.push(line[i]);
            i = i + 1;
            assert(rest@ =~= line@.subrange(prefix@.len() as int, i as int));
        }
        assert(rest@ =~= line@.skip(16));
        HeaderLine::ContentLength(parse_usize_exec(&rest))
    } else {
        HeaderLine::Other
    }
}

/// A message header written for a body of `n` bytes reads back, line by
/// line, as a `Content-Length` of `n` and then the blank line that ends the
/// headers.
pub proof fn law_frame_header_reads_back(n: nat)
    requires
        n <= usize::MAX,
    ensures
        content_length_header(n) == ("Content-Length: "@ + decimal(n) + "\r\n"@) + "\r\n"@,
        header_line("Content-Length: "@ + decimal(n) + "\r\n"@) == HeaderLine::ContentLength(Some(n as usize)),
        header_line("\r\n"@) == HeaderLine::End,
{
    reveal_strlit("Content-Length: ");
    reveal_strlit("\r\n");
    reveal_strlit("\r\n\r\n");
    crate::tools::index_status::lemma_decimal_digits(n);
    let d = decimal(n);
    let line = "Content-Length: "@ + d;
    let raw = line + "\r\n"@;
    assert(raw[0] == 'C');
    assert(trim_start(raw) == raw);
    assert(raw.drop_last() =~= line + seq!['\r']);
    assert((line + seq!['\r']).drop_last() =~= line);
    assert(line.last() == d.last());
    assert(crate::tools::index_status::is_digit(d[d.len() - 1]));
    assert(trim_end(line) == line);
    assert(raw.last() == '\n');
    assert(crate::text::is_ws('\n'));
    assert(crate::text::is_ws('\r'));
    assert(trim_end(raw) == trim_end(raw.drop_last()));
    assert((line + seq!['\r']).last() == '\r');
    assert(trim_end(line + seq!['\r']) == trim_end(line));
    assert(trim_end(raw) == line);
    assert(line.take(16) =~= "Content-Length: "@);
    assert(line.skip(16) =~= d);
    assert(crate::tools::index_status::is_digit(d[0]));
    assert(parse_usize(d) == Some(n as usize));
    let blank = "\r\n"@;
    assert(blank[0] == '\r');
    assert(blank.drop_first() =~= seq!['\n']);
    assert(seq!['\n'].drop_first() =~= Seq::<char>::empty());
    assert(trim_start(seq!['\n']) == trim_start(Seq::<char>::empty()));
    assert(trim_start(blank) == trim_start(seq!['\n']));
    assert(trim_start(blank) =~= Seq::<char>::empty());
    assert(content_length_header(n) =~= ("Content-Length: "@ + decimal(n) + "\r\n"@) + "\r\n"@);
}

} // verus!
