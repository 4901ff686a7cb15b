//! Character-level text utilities with exact specifications.
//!
//! Text is handled as sequences of `char`; the specifications below state
//! the meaning of the standard string operations that the indexer relies on
//! (`lines`, `trim`, `find`, `join`, ...).
use vstd::prelude::*;
use vstd::string::StringSliceAdditionalSpecFns;

verus! {

// ---------------------------------------------------------------------------
// Specifications
// ---------------------------------------------------------------------------
/// `char::is_whitespace`: the Unicode `White_Space` property.
pub open spec fn is_ws(c: char) -> bool {
    let u = c as u32;
    ||| 0x09 <= u <= 0x0d
    ||| u == 0x20
    ||| u == 0x85
    ||| u == 0xa0
    ||| u == 0x1680
    ||| 0x2000 <= u <= 0x200a
    ||| u == 0x2028
    ||| u == 0x2029
    ||| u == 0x202f
    ||| u == 0x205f
    ||| u == 0x3000
}

/// The text with leading whitespace removed.
pub open spec fn trim_start(s: Seq<char>) -> Seq<char>
    decreases s.len(),
{
    if s.len() > 0 && is_ws(s[0]) {
        trim_start(s.drop_first())
    } else {
        s
    }
}

/// The text with trailing whitespace removed.
pub open spec fn trim_end(s: Seq<char>) -> Seq<char>
    decreases s.len(),
{
    if s.len() > 0 && is_ws(s.last()) {
        trim_end(s.drop_last())
    } else {
        s
    }
}

/// `str::trim`: the text with leading and trailing whitespace removed.
pub open spec fn trim(s: Seq<char>) -> Seq<char> {
    trim_end(trim_start(s))
}

/// Removes one trailing carriage return.
pub open spec fn strip_cr(s: Seq<char>) -> Seq<char> {
    if s.len() > 0 && s.last() == '\r' {
        s.drop_last()
    } else {
        s
    }
}

/// The finished lines and the pending partial line after reading `s`.
pub open spec fn line_split_state(s: Seq<char>) -> (Seq<Seq<char>>, Seq<char>)
    decreases s.len(),
{
    if s.len() == 0 {
        (seq![], seq![])
    } else {
        let (done, cur) = line_split_state(s.drop_last());
        if s.last() == '\n' {
            (done.push(strip_cr(cur)), seq![])
        } else {
            (done, cur.push(s.last()))
        }
    }
}

/// `str::lines`: the text split at `\n`, a `\r` right before a `\n` removed,
/// and the final line ending optional.
pub open spec fn lines(s: Seq<char>) -> Seq<Seq<char>> {
    let (done, cur) = line_split_state(s);
    if cur.len() > 0 {
        done.push(cur)
    } else {
        done
    }
}

/// `needle` occurs in `hay` at char index `i`.
pub open spec fn occurs_at(hay: Seq<char>, needle: Seq<char>, i: int) -> bool {
    0 <= i && i + needle.len() <= hay.len() && hay.subrange(i, i + needle.len()) == needle
}

/// The char index of the first occurrence of `needle` in `hay` at or after `i`.
pub open spec fn first_occurrence_from(hay: Seq<char>, needle: Seq<char>, i: int) -> Option<int>
    decreases hay.len() + 1 - i,
{
    if i < 0 || i > hay.len() {
        None
    } else if occurs_at(hay, needle, i) {
        Some(i)
    } else {
        first_occurrence_from(hay, needle, i + 1)
    }
}

/// The char index of the first occurrence of `needle` in `hay`.
pub open spec fn first_occurrence(hay: Seq<char>, needle: Seq<char>) -> Option<int> {
    first_occurrence_from(hay, needle, 0)
}

/// The number of bytes of the UTF-8 encoding of a char.
pub open spec fn char_utf8_width(c: char) -> nat {
    let u = c as u32;
    if u < 0x80 {
        1
    } else if u < 0x800 {
        2
    } else if u < 0x10000 {
        3
    } else {
        4
    }
}

/// The number of bytes of the UTF-8 encoding of a text.
pub open spec fn utf8_len(s: Seq<char>) -> nat
    decreases s.len(),
{
    if s.len() == 0 {
        0
    } else {
        utf8_len(s.drop_last()) + char_utf8_width(s.last())
    }
}

/// `str::find`: the byte index at which `needle` first occurs in `hay`.
pub open spec fn find_byte(hay: Seq<char>, needle: Seq<char>) -> Option<nat> {
    match first_occurrence(hay, needle) {
        Some(k) => Some(utf8_len(hay.take(k))),
        None => None,
    }
}

/// `find(..).unwrap_or(0) as u32`: the column of a name within its line.
pub open spec fn column_of(hay: Seq<char>, needle: Seq<char>) -> u32 {
    match find_byte(hay, needle) {
        Some(b) => b as u32,
        None => 0,
    }
}

/// `[a, b, c].join(sep)`.
pub open spec fn join(parts: Seq<Seq<char>>, sep: Seq<char>) -> Seq<char>
    decreases parts.len(),
{
    if parts.len() == 0 {
        seq![]
    } else if parts.len() == 1 {
        parts[0]
    } else {
        join(parts.drop_last(), sep) + sep + parts.last()
    }
}

/// The number of occurrences of a char.
pub open spec fn count_char(s: Seq<char>, c: char) -> nat
    decreases s.len(),
{
    if s.len() == 0 {
        0
    } else {
        count_char(s.drop_last(), c) + if s.last() == c {
            1nat
        } else {
            0nat
        }
    }
}

/// `s.starts_with(p)`.
pub open spec fn starts_with(s: Seq<char>, p: Seq<char>) -> bool {
    p.len() <= s.len() && s.take(p.len() as int) == p
}

/// `s.contains(c)`.
pub open spec fn has_char(s: Seq<char>, c: char) -> bool {
    exists|i: int| 0 <= i < s.len() && s[i] == c
}

/// `char::to_ascii_lowercase`.
pub open spec fn ascii_lower_char(c: char) -> char {
    if 'A' <= c <= 'Z' {
        ((c as u32) + 32) as char
    } else {
        c
    }
}

/// `str::to_ascii_lowercase`.
pub open spec fn ascii_lower(s: Seq<char>) -> Seq<char> {
    s.map_values(|c: char| ascii_lower_char(c))
}

/// The total number of chars of a sequence of lines.
pub open spec fn total_len(ls: Seq<Seq<char>>) -> nat
    decreases ls.len(),
{
    if ls.len() == 0 {
        0
    } else {
        total_len(ls.drop_last()) + ls.last().len()
    }
}

// ---------------------------------------------------------------------------
// Lemmas
// ---------------------------------------------------------------------------
proof fn lemma_split_state_len(s: Seq<char>)
    ensures
        total_len(line_split_state(s).0) + line_split_state(s).1.len() <= s.len(),
    decreases s.len(),
{
    if s.len() > 0 {
        lemma_split_state_len(s.drop_last());
        let (done, cur) = line_split_state(s.drop_last());
        if s.last() == '\n' {
            assert(done.push(strip_cr(cur)).drop_last() =~= done);
        }
    }
}

/// The lines of a text hold no more chars than the text.
pub proof fn lemma_lines_total_len(s: Seq<char>)
    ensures
        total_len(lines(s)) <= s.len(),
{
    lemma_split_state_len(s);
    let (done, cur) = line_split_state(s);
    if cur.len() > 0 {
        assert(done.push(cur).drop_last() =~= done);
    }
}

/// The chars of the first lines are no more than those of all lines.
pub proof fn lemma_total_len_prefix(ls: Seq<Seq<char>>, i: int)
    requires
        0 <= i <= ls.len(),
    ensures
        total_len(ls.take(i)) <= total_len(ls),
    decreases ls.len() - i,
{
    if i < ls.len() {
        lemma_total_len_prefix(ls.drop_last(), i);
        assert(ls.drop_last().take(i) =~= ls.take(i));
    } else {
        assert(ls.take(i) =~= ls);
    }
}

/// The count of a char is at most the length.
pub proof fn lemma_count_char_bound(s: Seq<char>, c: char)
    ensures
        count_char(s, c) <= s.len(),
    decreases s.len(),
{
    if s.len() > 0 {
        lemma_count_char_bound(s.drop_last(), c);
    }
}
proof fn lemma_trim_start_skip(s: Seq<char>, i: int)
    requires
        0 <= i <= s.len(),
        forall|j: int| 0 <= j < i ==> is_ws(s[j]),
    ensures
        trim_start(s) == trim_start(s.subrange(i, s.len() as int)),
    decreases i,
{
    if i > 0 {
        assert(s.drop_first().subrange(i - 1, s.drop_first().len() as int) =~= s.subrange(
            i,
            s.len() as int,
        ));
        lemma_trim_start_skip(s.drop_first(), i - 1);
    } else {
        assert(s.subrange(0, s.len() as int) =~= s);
    }
}

proof fn lemma_trim_end_cut(s: Seq<char>, j: int)
    requires
        0 <= j <= s.len(),
        forall|k: int| j <= k < s.len() ==> is_ws(s[k]),
    ensures
        trim_end(s) == trim_end(s.take(j)),
    decreases s.len() - j,
{
    if j < s.len() {
        assert(s.drop_last().take(j) =~= s.take(j));
        lemma_trim_end_cut(s.drop_last(), j);
    } else {
        assert(s.take(j) =~= s);
    }
}

/// The byte count from the front agrees with the one from the back.
pub proof fn lemma_utf8_len_first(s: Seq<char>)
    requires
        s.len() > 0,
    ensures
        utf8_len(s) == char_utf8_width(s[0]) + utf8_len(s.drop_first()),
    decreases s.len(),
{
    if s.len() == 1 {
        assert(s.drop_first() =~= Seq::<char>::empty());
        assert(s.drop_last() =~= Seq::<char>::empty());
    } else {
        lemma_utf8_len_first(s.drop_last());
        assert(s.drop_last().drop_first() =~= s.drop_first().drop_last());
    }
}

/// `utf8_len` is the length of the UTF-8 encoding.
pub proof fn lemma_utf8_len_encode(s: Seq<char>)
    ensures
        vstd::utf8::encode_utf8(s).len() == utf8_len(s),
    decreases s.len(),
{
    if s.len() > 0 {
        lemma_utf8_len_encode(s.drop_first());
        lemma_utf8_len_first(s);
        let c = s[0];
        vstd::utf8::char_is_scalar(c);
    }
}

/// The byte length of a string slice is `utf8_len` of its chars.
pub proof fn lemma_str_len(s: &str)
    ensures
        s.spec_bytes().len() == utf8_len(s@),
{
    lemma_utf8_len_encode(s@);
}

pub proof fn lemma_utf8_len_push(s: Seq<char>, c: char)
    ensures
        utf8_len(s.push(c)) == utf8_len(s) + char_utf8_width(c),
{
    assert(s.push(c).drop_last() =~= s);
}

/// Every char takes at least one byte.
pub proof fn lemma_utf8_len_lower(s: Seq<char>)
    ensures
        s.len() <= utf8_len(s),
    decreases s.len(),
{
    if s.len() > 0 {
        lemma_utf8_len_lower(s.drop_last());
    }
}

// ---------------------------------------------------------------------------
// Executable operations
// ---------------------------------------------------------------------------
/// Collects the characters of a string slice.
pub fn chars_of(s: &str) -> (r: Vec<char>)
    ensures
        r@ == s@,
{
    let mut r: Vec<char> = Vec::new();
    for c in it: s.chars()
        invariant
            r@ == it.seq().take(it.index() as int),
            it.seq() == s@,
    {
        r.push(c);
    }
    r
}

/// `String::from_iter` over chars: builds a string holding the given chars.
#[verifier::external_body]
pub(crate) fn string_from_chars(v: &[char]) -> (r: String)
    ensures
        r@ == v@,
{
    v.iter().collect::<String>()
}

/// A new string with the same text.
pub fn copy_string(s: &str) -> (r: String)
    ensures
        r@ == s@,
{
    string_from_chars(&chars_of(s))
}

/// `char::is_whitespace`.
pub fn is_whitespace(c: char) -> (r: bool)
    ensures
        r == is_ws(c),
{
    let u = c as u32;
    (0x09 <= u && u <= 0x0d) || u == 0x20 || u == 0x85 || u == 0xa0 || u == 0x1680 || (0x2000
        <= u && u <= 0x200a) || u == 0x2028 || u == 0x2029 || u == 0x202f || u == 0x205f || u
        == 0x3000
}

/// `str::trim` on a char sequence.
pub fn trim_chars(s: &[char]) -> (r: Vec<char>)
    ensures
        r@ == trim(s@),
{
    let n = s.len();
    let mut i: usize = 0;
    while i < n && is_whitespace(s[i])
        invariant
            i <= n,
            n == s@.len(),
            forall|j: int| 0 <= j < i ==> is_ws(s@[j]),
        decreases n - i,
    {
        i = i + 1;
    }
    proof {
        lemma_trim_start_skip(s@, i as int);
    }
    let ghost mid = s@.subrange(i as int, n as int);
    assert(trim_start(mid) == mid);
    let mut j: usize = n;
    while j > i && is_whitespace(s[j - 1])
        invariant
            i <= j <= n,
            n == s@.len(),
            forall|k: int| j <= k < n ==> is_ws(s@[k]),
        decreases j,
    {
        j = j - 1;
    }
    proof {
        lemma_trim_end_cut(mid, (j - i) as int);
        assert(mid.take((j - i) as int) =~= s@.subrange(i as int, j as int));
        let t = s@.subrange(i as int, j as int);
        assert(t.len() == 0 || !is_ws(t.last()));
    }
    let mut r: Vec<char> = Vec::new();
    let mut k: usize = i;
    while k < j
        invariant
            i <= k <= j <= n,
            n == s@.len(),
            r@ == s@.subrange(i as int, k as int),
        decreases j - k,
    {
        r.push(s[k]);
        k = k + 1;
        assert(r@ =~= s@.subrange(i as int, k as int));
    }
    r
}

/// The texts held by a sequence of char vectors.
pub open spec fn views(v: Seq<Vec<char>>) -> Seq<Seq<char>> {
    v.map_values(|x: Vec<char>| x@)
}

/// `str::lines` on a char sequence.
pub fn lines_of(s: &[char]) -> (r: Vec<Vec<char>>)
    ensures
        views(r@) == lines(s@),
{
    let n = s.len();
    let mut done: Vec<Vec<char>> = Vec::new();
    let mut cur: Vec<char> = Vec::new();
    let mut i: usize = 0;
    while i < n
        invariant
            i <= n,
            n == s@.len(),
            (views(done@), cur@) == line_split_state(s@.take(i as int)),
        decreases n - i,
    {
        let c = s[i];
        proof {
            assert(s@.take(i + 1).drop_last() =~= s@.take(i as int));
        }
        if c == '\n' {
            let ghost old_cur = cur@;
            let l = cur.len();
            if l > 0 && cur[l - 1] == '\r' {
                cur.pop();
            }
            assert(cur@ == strip_cr(old_cur));
            let finished = cur;
            let ghost od = done@;
            done.push(finished);
            cur = Vec::new();
            assert(views(done@) =~= views(od).push(finished@));
        } else {
            cur.push(c);
        }
        i = i + 1;
    }
    assert(s@.take(n as int) =~= s@);
    if cur.len() > 0 {
        let ghost od = done@;
        let ghost cv = cur@;
        done.push(cur);
        assert(views(done@) =~= views(od).push(cv));
    }
    done
}

/// Whether `needle` occurs in `hay` at char index `i`.
fn occurs_at_exec(hay: &[char], needle: &[char], i: usize) -> (r: bool)
    requires
        i <= hay@.len(),
    ensures
        r == occurs_at(hay@, needle@, i as int),
{
    let n = needle.len();
    let hl = hay.len();
    if n > hl - i {
        return false;
    }
    let mut k: usize = 0;
    while k < n
        invariant
            k <= n,
            n == needle@.len(),
            i + n <= hay@.len(),
            i <= hay@.len(),
            hl == hay@.len(),
            forall|m: int| 0 <= m < k ==> hay@[i + m] == needle@[m],
        decreases n - k,
    {
        assert(i + k < hay@.len());
        if hay[i + k] != needle[k] {
            assert(hay@.subrange(i as int, i + n)[k as int] != needle@[k as int]);
            return false;
        }
        k = k + 1;
    }
    assert(hay@.subrange(i as int, i + n) =~= needle@);
    true
}

proof fn lemma_first_occurrence_from_bound(hay: Seq<char>, needle: Seq<char>, i: int)
    ensures
        first_occurrence_from(hay, needle, i) matches Some(k) ==> i <= k <= hay.len() && occurs_at(hay, needle, k),
    decreases hay.len() + 1 - i,
{
    if 0 <= i <= hay.len() && !occurs_at(hay, needle, i) {
        lemma_first_occurrence_from_bound(hay, needle, i + 1);
    }
}

proof fn lemma_occurrence_found_from(hay: Seq<char>, needle: Seq<char>, i: int, a: int)
    requires
        0 <= i <= a,
        occurs_at(hay, needle, a),
    ensures
        first_occurrence_from(hay, needle, i) is Some,
    decreases a - i,
{
    if !occurs_at(hay, needle, i) {
        lemma_occurrence_found_from(hay, needle, i + 1, a);
    }
}

/// A needle that occurs somewhere is found: `find` gives a byte offset.
pub proof fn lemma_occurrence_found(hay: Seq<char>, needle: Seq<char>, a: int)
    requires
        occurs_at(hay, needle, a),
    ensures
        find_byte(hay, needle) is Some,
{
    lemma_occurrence_found_from(hay, needle, 0, a);
}

/// The char index of the first occurrence of `needle` in `hay`.
pub fn first_occurrence_exec(hay: &[char], needle: &[char]) -> (r: Option<usize>)
    ensures
        r is Some <==> first_occurrence(hay@, needle@) is Some,
        r matches Some(k) ==> first_occurrence(hay@, needle@) == Some(k as int) && k <= hay@.len(),
{
    proof {
        lemma_first_occurrence_from_bound(hay@, needle@, 0);
    }
    let n = hay.len();
    let mut i: usize = 0;
    while i <= n
        invariant
            i <= n + 1,
            n == hay@.len(),
            first_occurrence(hay@, needle@) == first_occurrence_from(hay@, needle@, i as int),
        decreases n + 1 - i,
    {
        if occurs_at_exec(hay, needle, i) {
            return Some(i);
        }
        if i == n {
            assert(first_occurrence_from(hay@, needle@, n + 1) is None);
            return None;
        }
        i = i + 1;
    }
    None
}

/// The UTF-8 length of the first `k` chars, as a 128-bit count.
pub fn utf8_prefix_len(s: &[char], k: usize) -> (r: u128)
    requires
        k <= s@.len(),
    ensures
        r == utf8_len(s@.take(k as int)),
        r <= 4 * k,
{
    let mut acc: u128 = 0;
    let mut i: usize = 0;
    while i < k
        invariant
            i <= k <= s@.len(),
            acc == utf8_len(s@.take(i as int)),
            acc <= 4 * i,
        decreases k - i,
    {
        let u = s[i] as u32;
        let w: u128 = if u < 0x80 {
            1
        } else if u < 0x800 {
            2
        } else if u < 0x10000 {
            3
        } else {
            4
        };
        proof {
            assert(s@.take(i + 1) =~= s@.take(i as int).push(s@[i as int]));
            lemma_utf8_len_push(s@.take(i as int), s@[i as int]);
        }
        acc = acc + w;
        i = i + 1;
    }
    acc
}

/// `hay.find(needle).unwrap_or(0) as u32`.
pub fn column_of_exec(hay: &[char], needle: &[char]) -> (r: u32)
    ensures
        r == column_of(hay@, needle@),
{
    match first_occurrence_exec(hay, needle) {
        Some(k) => {
            let b = utf8_prefix_len(hay, k);
            b as u32
        },
        None => 0,
    }
}

/// The UTF-8 length of a whole char sequence.
pub fn utf8_len_exec(s: &[char]) -> (r: u128)
    ensures
        r == utf8_len(s@),
        r <= 4 * s@.len(),
        s@.len() <= usize::MAX,
{
    let r = utf8_prefix_len(s, s.len());
    assert(s@.take(s@.len() as int) =~= s@);
    r
}

/// Appends a whole char sequence.
pub fn extend_chars(dst: &mut Vec<char>, src: &[char])
    ensures
        final(dst)@ == old(dst)@ + src@,
{
    let ghost start = dst@;
    let mut i: usize = 0;
    while i < src.len()
        invariant
            i <= src@.len(),
            dst@ == start + src@.take(i as int),
        decreases src@.len() - i,
    {
        dst.push(src[i]);
        i = i + 1;
        assert(dst@ =~= start + src@.take(i as int));
    }
    assert(src@.take(src@.len() as int) =~= src@);
}

/// A copy of a char sequence.
pub fn copy_chars(src: &[char]) -> (r: Vec<char>)
    ensures
        r@ == src@,
{
    let mut r: Vec<char> = Vec::new();
    extend_chars(&mut r, src);
    assert(r@ =~= src@);
    r
}

/// `parts.join(sep)`.
pub fn join_exec(parts: &Vec<Vec<char>>, sep: &[char]) -> (r: Vec<char>)
    ensures
        r@ == join(views(parts@), sep@),
{
    let mut r: Vec<char> = Vec::new();
    let mut i: usize = 0;
    while i < parts.len()
        invariant
            i <= parts@.len(),
            r@ == join(views(parts@).take(i as int), sep@),
        decreases parts@.len() - i,
    {
        let ghost pv = views(parts@);
        if i > 0 {
            extend_chars(&mut r, sep);
        }
        extend_chars(&mut r, &parts[i]);
        proof {
            assert(pv.take(i + 1).drop_last() =~= pv.take(i as int));
            if i == 0 {
                assert(r@ =~= pv.take(1)[0]);
            }
        }
        i = i + 1;
    }
    assert(views(parts@).take(parts@.len() as int) =~= views(parts@));
    r
}

/// The number of occurrences of a char.
pub fn count_char_exec(s: &[char], c: char) -> (r: u64)
    ensures
        r == count_char(s@, c),
{
    let mut n: u64 = 0;
    let mut i: usize = 0;
    while i < s.len()
        invariant
            i <= s@.len(),
            n == count_char(s@.take(i as int), c),
            n <= i,
        decreases s@.len() - i,
    {
        assert(s@.take(i + 1).drop_last() =~= s@.take(i as int));
        if s[i] == c {
            n = n + 1;
        }
        i = i + 1;
    }
    assert(s@.take(s@.len() as int) =~= s@);
    n
}

/// `s.starts_with(p)`.
pub fn starts_with_exec(s: &[char], p: &[char]) -> (r: bool)
    ensures
        r == starts_with(s@, p@),
{
    if p.len() > s.len() {
        return false;
    }
    let r = occurs_at_exec(s, p, 0);
    assert(s@.subrange(0, p@.len() as int) =~= s@.take(p@.len() as int));
    r
}

/// `s.contains(c)`.
pub fn has_char_exec(s: &[char], c: char) -> (r: bool)
    ensures
        r == has_char(s@, c),
{
    let mut i: usize = 0;
    while i < s.len()
        invariant
            i <= s@.len(),
            forall|j: int| 0 <= j < i ==> s@[j] != c,
        decreases s@.len() - i,
    {
        if s[i] == c {
            return true;
        }
        i = i + 1;
    }
    false
}

/// `str::to_ascii_lowercase`.
pub fn ascii_lower_exec(s: &[char]) -> (r: Vec<char>)
    ensures
        r@ == ascii_lower(s@),
{
    let mut r: Vec<char> = Vec::new();
    let mut i: usize = 0;
    while i < s.len()
        invariant
            i <= s@.len(),
            r@ == ascii_lower(s@.take(i as int)),
        decreases s@.len() - i,
    {
        let c = s[i];
        let l = if 'A' <= c && c <= 'Z' {
            ((c as u32) + 32) as u8 as char
        } else {
            c
        };
        r.push(l);
        i = i + 1;
        assert(r@ =~= ascii_lower(s@.take(i as int)));
    }
    assert(s@.take(s@.len() as int) =~= s@);
    r
}

/// Whether two char sequences are equal.
pub fn chars_eq(a: &[char], b: &[char]) -> (r: bool)
    ensures
        r == (a@ == b@),
{
    if a.len() != b.len() {
        return false;
    }
    let r = starts_with_exec(a, b);
    assert(a@.take(b@.len() as int) =~= a@);
    r
}

} // verus!
