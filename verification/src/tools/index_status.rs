//! `index_status`: indexing progress and counts.
use vstd::prelude::*;

use crate::text::{chars_eq, chars_of, string_from_chars};

verus! {

/// Input of `index_status` (it takes none).
pub struct IndexStatusInput {}

/// The indexing status: the progress values the indexer stored, and counts
/// by language and by symbol kind.
pub struct IndexStatus {
    pub status: String,
    pub total_files: i64,
    pub stored_files: i64,
    pub indexed_files: i64,
    pub total_symbols: i64,
    pub fts_status: String,
    pub files_by_language: Vec<(String, i64)>,
    pub symbols_by_kind: Vec<(String, i64)>,
    pub errors: i64,
}

/// A stored text value, or the default when absent.
pub open spec fn stored_text(value: Option<Seq<char>>, default: Seq<char>) -> Seq<char> {
    match value {
        Some(v) => v,
        None => default,
    }
}

impl IndexStatus {
    /// The status from the stored progress values (`status`, `total_files`,
    /// `indexed_files`, `fts_status`) and the counts taken from the index:
    /// the status is `idle` and the FTS status `ready` when not stored,
    /// counts are 0 when not stored or not numbers, and no errors are reported.
    /// Each count table holds a key once, with the last count given for it.
    pub fn from_progress(
        status: Option<String>,
        total_files: Option<String>,
        indexed_files: Option<String>,
        fts_status: Option<String>,
        stored_files: i64,
        total_symbols: i64,
        files_by_language: Vec<(String, i64)>,
        symbols_by_kind: Vec<(String, i64)>,
    ) -> (r: IndexStatus)
        ensures
            r.status@ == stored_text(status.deep_view(), "idle"@),
            r.total_files == stored_count(total_files.deep_view()),
            r.indexed_files == stored_count(indexed_files.deep_view()),
            r.fts_status@ == stored_text(fts_status.deep_view(), "ready"@),
            r.stored_files == stored_files,
            r.total_symbols == total_symbols,
            row_views(r.files_by_language@) == merged_counts(row_views(files_by_language@)),
            row_views(r.symbols_by_kind@) == merged_counts(row_views(symbols_by_kind@)),
            r.errors == 0,
    {
        IndexStatus {
            status: match status {
                Some(s) => s,
                None => String::from_str("idle"),
            },
            total_files: stored_count_exec(total_files),
            stored_files,
            indexed_files: stored_count_exec(indexed_files),
            total_symbols,
            fts_status: match fts_status {
                Some(s) => s,
                None => String::from_str("ready"),
            },
            files_by_language: merge_counts(&files_by_language),
            symbols_by_kind: merge_counts(&symbols_by_kind),
            errors: 0,
        }
    }
}

/// The value of count rows: each key as text, with its count.
pub open spec fn row_views(v: Seq<(String, i64)>) -> Seq<(Seq<char>, i64)> {
    v.map_values(|p: (String, i64)| (p.0@, p.1))
}

/// The index of the last row with the given key.
pub open spec fn key_index(m: Seq<(Seq<char>, i64)>, k: Seq<char>) -> Option<int>
    decreases m.len(),
{
    if m.len() == 0 {
        None
    } else if m.last().0 == k {
        Some(m.len() - 1)
    } else {
        key_index(m.drop_last(), k)
    }
}

/// The last count given for a key.
pub open spec fn last_count(rows: Seq<(Seq<char>, i64)>, k: Seq<char>) -> Option<i64> {
    match key_index(rows, k) {
        Some(j) => Some(rows[j].1),
        None => None,
    }
}

/// Count rows as a table keyed by text: a key seen again takes the new
/// count in its place, a new key goes last.
pub open spec fn merged_counts(rows: Seq<(Seq<char>, i64)>) -> Seq<(Seq<char>, i64)>
    decreases rows.len(),
{
    if rows.len() == 0 {
        seq![]
    } else {
        let m = merged_counts(rows.drop_last());
        let row = rows.last();
        match key_index(m, row.0) {
            Some(j) => m.update(j, row),
            None => m.push(row),
        }
    }
}

/// Whether no key occurs twice.
pub open spec fn distinct_keys(m: Seq<(Seq<char>, i64)>) -> bool {
    forall|i: int, j: int| 0 <= i < j < m.len() ==> (#[trigger] m[i]).0 != (#[trigger] m[j]).0
}

proof fn lemma_key_index(m: Seq<(Seq<char>, i64)>, k: Seq<char>)
    ensures
        key_index(m, k) matches Some(j) ==> 0 <= j < m.len() && m[j].0 == k,
        key_index(m, k) is None ==> forall|j: int| 0 <= j < m.len() ==> (#[trigger] m[j]).0 != k,
    decreases m.len(),
{
    if m.len() > 0 {
        lemma_key_index(m.drop_last(), k);
        if m.last().0 != k {
            assert forall|j: int| 0 <= j < m.len() - 1 implies #[trigger] m[j] == m.drop_last()[j] by {}
        }
    }
}

proof fn lemma_key_index_distinct(m: Seq<(Seq<char>, i64)>, k: Seq<char>, j: int)
    requires
        distinct_keys(m),
        0 <= j < m.len(),
        m[j].0 == k,
    ensures
        key_index(m, k) == Some(j),
    decreases m.len(),
{
    if j < m.len() - 1 {
        assert(m.last() == m[m.len() - 1]);
        assert(m.drop_last()[j] == m[j]);
        lemma_key_index_distinct(m.drop_last(), k, j);
    }
}

/// A table of counts holds each key once; it holds exactly the keys of the
/// rows, each with the last count given for it.
pub proof fn law_counts_keyed_once(rows: Seq<(Seq<char>, i64)>)
    ensures
        distinct_keys(merged_counts(rows)),
        forall|k: Seq<char>| key_index(merged_counts(rows), k) is Some <==> #[trigger] key_index(rows, k) is Some,
        forall|j: int| 0 <= j < merged_counts(rows).len() ==> last_count(rows, (#[trigger] merged_counts(rows)[j]).0)
            == Some(merged_counts(rows)[j].1),
    decreases rows.len(),
{
    if rows.len() > 0 {
        let prev = rows.drop_last();
        law_counts_keyed_once(prev);
        let m = merged_counts(prev);
        let row = rows.last();
        let n = merged_counts(rows);
        lemma_key_index(m, row.0);
        assert forall|k: Seq<char>| key_index(n, k) is Some <==> #[trigger] key_index(rows, k) is Some by {
            lemma_key_index(m, k);
            lemma_key_index(n, k);
            if key_index(n, k) is Some {
                let j = key_index(n, k)->0;
                if k != row.0 {
                    assert(j < m.len() && n[j] == m[j]);
                    lemma_key_index_distinct(m, k, j);
                }
            }
            if key_index(rows, k) is Some && k != row.0 {
                assert(key_index(prev, k) is Some);
                let j = key_index(m, k);
                assert(j is Some);
                let jj = j->0;
                assert(n[jj].0 == k);
            }
            if k == row.0 {
                match key_index(m, row.0) {
                    Some(jj) => { assert(n[jj].0 == k); },
                    None => { assert(n[n.len() - 1].0 == k); },
                }
            }
            if key_index(n, k) is Some {
                let j = key_index(n, k)->0;
                assert(n[j].0 == k);
            }
        }
        assert(distinct_keys(n)) by {
            assert forall|i: int, j: int| 0 <= i < j < n.len() implies (#[trigger] n[i]).0 != (#[trigger] n[j]).0 by {
                match key_index(m, row.0) {
                    Some(t) => {
                        if i == t {
                            assert(m[j].0 != m[t].0);
                        } else if j == t {
                            assert(m[i].0 != m[t].0);
                        } else {
                            assert(m[i].0 != m[j].0);
                        }
                    },
                    None => {
                        if j == m.len() {
                            assert(m[i].0 != row.0);
                        } else {
                            assert(m[i].0 != m[j].0);
                        }
                    },
                }
            }
        }
        assert forall|j: int| 0 <= j < n.len() implies last_count(rows, (#[trigger] n[j]).0) == Some(n[j].1) by {
            if n[j].0 == row.0 {
                match key_index(m, row.0) {
                    Some(t) => {
                        if j != t {
                            assert(n[j] == m[j]);
                            assert(m[j].0 == m[t].0);
                            if j < t {
                                assert(m[j].0 != m[t].0);
                            } else {
                                assert(m[t].0 != m[j].0);
                            }
                        }
                    },
                    None => {
                        if j < m.len() {
                            assert(n[j] == m[j]);
                        }
                    },
                }
                assert(n[j] == row);
                assert(key_index(rows, row.0) == Some(rows.len() - 1));
            } else {
                let kk = n[j].0;
                assert(j < m.len() && n[j] == m[j]);
                assert(last_count(prev, m[j].0) == Some(m[j].1));
                assert(key_index(rows, kk) == key_index(prev, kk));
                lemma_key_index(prev, kk);
                let jj = key_index(prev, kk)->0;
                assert(rows[jj] == prev[jj]);
            }
        }
    }
}

/// The index of the last row with the given key.
fn find_key(r: &Vec<(String, i64)>, key: &Vec<char>) -> (found: Option<usize>)
    ensures
        found matches Some(t) ==> key_index(row_views(r@), key@) == Some(t as int),
        found is None ==> key_index(row_views(r@), key@) is None,
{
    let mut j: usize = r.len();
    assert(row_views(r@).take(j as int) =~= row_views(r@));
    while j > 0
        invariant
            j <= r@.len(),
            key_index(row_views(r@), key@) == key_index(row_views(r@).take(j as int), key@),
        decreases j,
    {
        let ghost m = row_views(r@).take(j as int);
        j = j - 1;
        assert(m.drop_last() =~= row_views(r@).take(j as int));
        if chars_eq(&chars_of(r[j].0.as_str()), key) {
            return Some(j);
        }
    }
    assert(row_views(r@).take(0) =~= Seq::<(Seq<char>, i64)>::empty());
    None
}

/// Keys as a table: each key once, with the last count given for it, in the
/// order in which keys first appear.
pub fn merge_counts(rows: &Vec<(String, i64)>) -> (r: Vec<(String, i64)>)
    ensures
        row_views(r@) == merged_counts(row_views(rows@)),
{
    let mut r: Vec<(String, i64)> = Vec::new();
    let mut i: usize = 0;
    while i < rows.len()
        invariant
            i <= rows@.len(),
            row_views(r@) == merged_counts(row_views(rows@).take(i as int)),
        decreases rows@.len() - i,
    {
        let key = chars_of(rows[i].0.as_str());
        let count = rows[i].1;
        let ghost rv = row_views(rows@);
        proof {
            assert(rv.take(i + 1).drop_last() =~= rv.take(i as int));
            assert(rv.take(i + 1).last() == (key@, count));
        }
        let found = find_key(&r, &key);
        proof {
            lemma_key_index(row_views(r@), key@);
        }
        match found {
            Some(t) => {
                r.set(t, (string_from_chars(&key), count));
            },
            None => {
                r.push((string_from_chars(&key), count));
            },
        }
        proof {
            let m = merged_counts(rv.take(i as int));
            match found {
                Some(t) => { assert(row_views(r@) =~= m.update(t as int, (key@, count))); },
                None => { assert(row_views(r@) =~= m.push((key@, count))); },
            }
        }
        i = i + 1;
    }
    assert(row_views(rows@).take(rows@.len() as int) =~= row_views(rows@));
    r
}

/// Whether a char is an ASCII decimal digit.
pub open spec fn is_digit(c: char) -> bool {
    '0' <= c <= '9'
}

/// The value of a run of decimal digits.
pub open spec fn digits_value(d: Seq<char>) -> int
    decreases d.len(),
{
    if d.len() == 0 {
        0
    } else {
        10 * digits_value(d.drop_last()) + (d.last() as int - '0' as int)
    }
}

/// Whether every char is a decimal digit.
pub open spec fn all_digits(d: Seq<char>) -> bool {
    forall|i: int| 0 <= i < d.len() ==> is_digit(d[i])
}

/// `str::parse::<i64>`: an optional `+` or `-`, then at least one decimal
/// digit and nothing else, with a value that fits in `i64`.
pub open spec fn parse_i64(s: Seq<char>) -> Option<i64> {
    let neg = s.len() > 0 && s[0] == '-';
    let digits = if s.len() > 0 && (s[0] == '-' || s[0] == '+') {
        s.skip(1)
    } else {
        s
    };
    let v = if neg {
        -digits_value(digits)
    } else {
        digits_value(digits)
    };
    if digits.len() == 0 || !all_digits(digits) || v < i64::MIN || v > i64::MAX {
        None
    } else {
        Some(v as i64)
    }
}

proof fn lemma_digits_value_nonneg(d: Seq<char>)
    requires
        all_digits(d),
    ensures
        digits_value(d) >= 0,
    decreases d.len(),
{
    if d.len() > 0 {
        lemma_digits_value_nonneg(d.drop_last());
    }
}

/// `str::parse::<i64>`.
pub fn parse_i64_exec(s: &str) -> (r: Option<i64>)
    ensures
        r == parse_i64(s@),
{
    let c = chars_of(s);
    let n = c.len();
    let neg = n > 0 && c[0] == '-';
    let start: usize = if n > 0 && (c[0] == '-' || c[0] == '+') { 1 } else { 0 };
    let ghost digits = c@.skip(start as int);
    if start == n {
        return None;
    }
    let cap: i128 = 0x8000_0000_0000_0001;
    let mut acc: i128 = 0;
    let mut i: usize = start;
    while i < n
        invariant
            start <= i <= n,
            n == c@.len(),
            c@ == s@,
            start == (if n > 0 && (c@[0] == '-' || c@[0] == '+') { 1usize } else { 0usize }),
            neg == (n > 0 && c@[0] == '-'),
            digits == c@.skip(start as int),
            all_digits(digits.take(i - start)),
            acc == (if digits_value(digits.take(i - start)) < cap { digits_value(digits.take(i - start)) } else { cap as int }),
            0 <= acc <= cap,
            cap == 0x8000_0000_0000_0001i128,
        decreases n - i,
    {
        let ch = c[i];
        proof {
            assert(digits.take(i - start + 1).drop_last() =~= digits.take(i - start));
            assert(digits.take(i - start + 1).last() == ch);
            lemma_digits_value_nonneg(digits.take(i - start));
        }
        if !('0' <= ch && ch <= '9') {
            assert(digits[i - start] == ch);
            assert(!all_digits(digits));
            return None;
        }
        let d = (ch as u32 - '0' as u32) as i128;
        assert(acc * 10 <= cap * 10) by (nonlinear_arith)
            requires
                acc <= cap,
                0 <= acc,
        ;
        let next = acc * 10 + d;
        proof {
            let v = digits_value(digits.take(i - start));
            let v2 = digits_value(digits.take(i - start + 1));
            assert(v2 == 10 * v + d);
            if v >= cap {
                assert(10 * v + d >= cap) by (nonlinear_arith)
                    requires
                        v >= cap,
                        cap > 0,
                        d >= 0,
                ;
                assert(next >= cap) by (nonlinear_arith)
                    requires
                        acc == cap,
                        next == acc * 10 + d,
                        cap > 0,
                        d >= 0,
                ;
            }
        }
        acc = if next < cap { next } else { cap };
        i = i + 1;
        assert(all_digits(digits.take(i - start)));
    }
    assert(digits.take(n - start) =~= digits);
    proof {
        lemma_digits_value_nonneg(digits);
        if start == 0 {
            assert(digits =~= s@);
        }
        assert(digits.len() > 0);
    }
    if neg {
        if acc > 0x8000_0000_0000_0000 {
            None
        } else {
            Some((0 - acc) as i64)
        }
    } else {
        if acc > 0x7fff_ffff_ffff_ffff {
            None
        } else {
            Some(acc as i64)
        }
    }
}

/// A stored count: 0 when absent or not a number.
pub open spec fn stored_count(value: Option<Seq<char>>) -> i64 {
    match value {
        Some(v) => match parse_i64(v) {
            Some(n) => n,
            None => 0,
        },
        None => 0,
    }
}

/// A stored count: 0 when absent or not a number.
pub fn stored_count_exec(value: Option<String>) -> (r: i64)
    ensures
        r == stored_count(value.deep_view()),
{
    match value {
        Some(v) => match parse_i64_exec(v.as_str()) {
            Some(n) => n,
            None => 0,
        },
        None => 0,
    }
}

/// The decimal digits of a number.
pub open spec fn decimal(n: nat) -> Seq<char>
    decreases n,
{
    if n < 10 {
        seq![(('0' as int) + n) as char]
    } else {
        decimal(n / 10).push((('0' as int) + n % 10) as char)
    }
}

/// `usize::to_string`: the decimal digits of a count.
pub fn render_count(n: usize) -> (r: String)
    ensures
        r@ == decimal(n as nat),
{
    let mut digits: Vec<char> = Vec::new();
    let mut m: usize = n;
    while m >= 10
        invariant
            decimal(n as nat) == decimal(m as nat) + digits@.reverse(),
        decreases m,
    {
        let d = m % 10;
        let ch = ((('0' as u32) + (d as u32)) as u8) as char;
        proof {
            assert(decimal(m as nat) == decimal((m / 10) as nat).push(ch));
            assert(digits@.push(ch).reverse() =~= seq![ch] + digits@.reverse());
            assert(decimal((m / 10) as nat).push(ch) + digits@.reverse() =~= decimal((m / 10) as nat) + (seq![ch] + digits@.reverse()));
        }
        digits.push(ch);
        m = m / 10;
    }
    let ch = ((('0' as u32) + (m as u32)) as u8) as char;
    assert(decimal(m as nat) == seq![ch]);
    digits.push(ch);
    let mut out: Vec<char> = Vec::new();
    let mut k: usize = digits.len();
    while k > 0
        invariant
            k <= digits@.len(),
            out@ == digits@.skip(k as int).reverse(),
        decreases k,
    {
        k = k - 1;
        out.push(digits[k]);
        assert(out@ =~= digits@.skip(k as int).reverse());
    }
    assert(digits@.skip(0) =~= digits@);
    assert(out@ =~= decimal(n as nat));
    string_from_chars(&out)
}

/// The digits of a number are decimal digits, at least one, whose value
/// is the number.
pub proof fn lemma_decimal_digits(n: nat)
    ensures
        decimal(n).len() > 0,
        all_digits(decimal(n)),
        digits_value(decimal(n)) == n,
    decreases n,
{
    let c = (('0' as int) + n % 10) as char;
    assert(c as int == ('0' as int) + n % 10);
    if n < 10 {
        assert(decimal(n) == seq![c]);
        assert(decimal(n).drop_last() =~= Seq::<char>::empty());
        assert(decimal(n).last() == c);
        assert(digits_value(Seq::<char>::empty()) == 0);
        assert(digits_value(decimal(n)) == 10 * digits_value(decimal(n).drop_last()) + (c as int - '0' as int));
    } else {
        lemma_decimal_digits(n / 10);
        let d = decimal(n / 10);
        assert(decimal(n) == d.push(c));
        assert(decimal(n).drop_last() =~= d);
        assert(n == 10 * (n / 10) + n % 10);
        assert(decimal(n).last() == c);
        assert(digits_value(decimal(n)) == 10 * digits_value(d) + (c as int - '0' as int));
        assert forall|i: int| 0 <= i < decimal(n).len() implies is_digit(#[trigger] decimal(n)[i]) by {
            if i < d.len() {
                assert(decimal(n)[i] == d[i]);
            }
        }
    }
}

/// A count the indexer stores (written as its decimal digits) reads back
/// as the same count.
pub proof fn law_count_reads_back(n: nat)
    requires
        n <= i64::MAX,
    ensures
        stored_count(Some(decimal(n))) == n,
{
    lemma_decimal_digits(n);
    let d = decimal(n);
    assert(is_digit(d[0]));
}

} // verus!
