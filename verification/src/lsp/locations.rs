//! Reading the locations in a language server's answer.
use vstd::prelude::*;

use crate::lsp::json::{as_str, as_u64, get, member, member_index, JsonValue};
use crate::text::chars_of;

verus! {

/// The file path of a URI, as `url::Url::parse` followed by
/// `Url::to_file_path` (read back lossily as text) gives it: the URL's
/// percent-decoded path segments. None when the text is not a URL, has no
/// path segments, or names a host other than `localhost`. The scheme itself
/// is not checked there.
pub uninterp spec fn uri_to_path(uri: Seq<char>) -> Option<Seq<char>>;

/// `url::Url::parse` then `Url::to_file_path`, read back with
/// `to_string_lossy`.
#[verifier::external_body]
pub(crate) fn file_path_of_uri(uri: &str) -> (r: Option<String>)
    ensures
        r.deep_view() == uri_to_path(uri@),
{
    match url::Url::parse(uri) {
        Ok(u) => match u.to_file_path() {
            Ok(p) => Some(p.to_string_lossy().into_owned()),
            Err(_) => None,
        },
        Err(_) => None,
    }
}

/// The `file://` URI of a path, as `url::Url::from_file_path` followed by
/// `to_string` gives it; none when the path is not absolute.
pub uninterp spec fn path_to_uri(path: Seq<char>) -> Option<Seq<char>>;

/// `url::Url::from_file_path`, then the URL as text.
#[verifier::external_body]
pub(crate) fn file_path_to_uri(path: &str) -> (r: Option<String>)
    ensures
        r.deep_view() == path_to_uri(path@),
{
    match url::Url::from_file_path(path) {
        Ok(u) => Some(u.to_string()),
        Err(_) => None,
    }
}

/// The URI a request names a document by: the `file://` URI of its path,
/// or the error `Cannot convert path to URI: ` and the path.
pub fn document_uri(path: &str) -> (r: Result<String, String>)
    ensures
        r is Ok <==> path_to_uri(path@) is Some,
        r matches Ok(u) ==> path_to_uri(path@) == Some(u@),
        r matches Err(m) ==> m@ == "Cannot convert path to URI: "@ + path@,
{
    match file_path_to_uri(path) {
        Some(u) => Ok(u),
        None => {
            let mut m = chars_of("Cannot convert path to URI: ");
            crate::text::extend_chars(&mut m, &chars_of(path));
            Err(crate::text::string_from_chars(&m))
        },
    }
}

/// A location read from an answer: file path, line, column.
pub type LocView = (Seq<char>, u32, u32);

/// The entries of an answer that may be locations: the items of an array,
/// the value itself if it is an object, nothing otherwise.
pub open spec fn location_entries(v: JsonValue) -> Seq<JsonValue> {
    match v {
        JsonValue::Array(items) => items@,
        JsonValue::Object(_) => seq![v],
        _ => seq![],
    }
}

/// A member, or the fallback member when the first is absent.
pub open spec fn get_or(v: JsonValue, key: Seq<char>, fallback: Seq<char>) -> Option<JsonValue> {
    if get(v, key) is Some {
        get(v, key)
    } else {
        get(v, fallback)
    }
}

/// The location an entry describes (`Location` or `LocationLink`): its
/// URI's file path and the start of its range; a missing or non-numeric
/// line or character reads as 0 (then cast to `u32`). None when the URI
/// or range is missing or not a file URL.
pub open spec fn entry_location(e: JsonValue) -> Option<LocView> {
    let uri = as_str(get_or(e, "uri"@, "targetUri"@));
    let range = get_or(e, "range"@, "targetRange"@);
    if uri is None || !(range matches Some(JsonValue::Object(_))) {
        None
    } else {
        let start = get(range->0, "start"@);
        if !(start matches Some(JsonValue::Object(_))) {
            None
        } else {
            let line = match as_u64(get(start->0, "line"@)) {
                Some(n) => n,
                None => 0,
            };
            let col = match as_u64(get(start->0, "character"@)) {
                Some(n) => n,
                None => 0,
            };
            match uri_to_path(uri->0) {
                Some(p) => Some((p, line as u32, col as u32)),
                None => None,
            }
        }
    }
}

/// The locations of a sequence of entries, in order.
pub open spec fn entry_locations(es: Seq<JsonValue>) -> Seq<LocView>
    decreases es.len(),
{
    if es.len() == 0 {
        seq![]
    } else {
        let prev = entry_locations(es.drop_last());
        match entry_location(es.last()) {
            Some(l) => prev.push(l),
            None => prev,
        }
    }
}

/// The locations in a `Location`, `LocationLink` or array answer.
pub open spec fn lsp_locations(v: JsonValue) -> Seq<LocView> {
    entry_locations(location_entries(v))
}

/// The value of an exec location.
pub open spec fn loc_view(l: (String, u32, u32)) -> LocView {
    (l.0@, l.1, l.2)
}

fn lookup<'a>(v: &'a JsonValue, key: &str) -> (r: Option<&'a JsonValue>)
    ensures
        r is None <==> get(*v, key@) is None,
        r matches Some(x) ==> get(*v, key@) == Some(*x),
{
    match v {
        JsonValue::Object(members) => match member_index(members, key) {
            Some(i) => Some(&members[i].1),
            None => None,
        },
        _ => None,
    }
}

fn lookup_or<'a>(v: &'a JsonValue, key: &str, fallback: &str) -> (r: Option<&'a JsonValue>)
    ensures
        r is None <==> get_or(*v, key@, fallback@) is None,
        r matches Some(x) ==> get_or(*v, key@, fallback@) == Some(*x),
{
    match lookup(v, key) {
        Some(x) => Some(x),
        None => lookup(v, fallback),
    }
}

fn number_or_zero(v: Option<&JsonValue>) -> (r: u64)
    ensures
        r == (match as_u64(match v {
            Some(x) => Some(*x),
            None => None,
        }) {
            Some(n) => n,
            None => 0,
        }),
{
    match v {
        Some(JsonValue::Number { as_u64: Some(n), .. }) => *n,
        _ => 0,
    }
}

/// The location an entry describes.
pub fn entry_location_exec(e: &JsonValue) -> (r: Option<(String, u32, u32)>)
    ensures
        r is None <==> entry_location(*e) is None,
        r matches Some(x) ==> entry_location(*e) == Some(loc_view(x)),
{
    let uri = match lookup_or(e, "uri", "targetUri") {
        Some(JsonValue::String(s)) => s,
        _ => {
            return None;
        },
    };
    let range = match lookup_or(e, "range", "targetRange") {
        Some(r) => match r {
            JsonValue::Object(_) => r,
            _ => {
                return None;
            },
        },
        None => {
            return None;
        },
    };
    let start = match lookup(range, "start") {
        Some(s) => match s {
            JsonValue::Object(_) => s,
            _ => {
                return None;
            },
        },
        None => {
            return None;
        },
    };
    let line = number_or_zero(lookup(start, "line"));
    let col = number_or_zero(lookup(start, "character"));
    match file_path_of_uri(uri.as_str()) {
        Some(p) => Some((p, line as u32, col as u32)),
        None => None,
    }
}

fn entries_locations_exec(items: &Vec<JsonValue>) -> (r: Vec<(String, u32, u32)>)
    ensures
        r@.map_values(|l: (String, u32, u32)| loc_view(l)) == entry_locations(items@),
{
    let mut out: Vec<(String, u32, u32)> = Vec::new();
    let mut i: usize = 0;
    assert(out@.map_values(|l: (String, u32, u32)| loc_view(l)) =~= entry_locations(items@.take(0)));
    while i < items.len()
        invariant
            i <= items@.len(),
            out@.map_values(|l: (String, u32, u32)| loc_view(l)) == entry_locations(items@.take(i as int)),
        decreases items@.len() - i,
    {
        assert(items@.take(i + 1).drop_last() =~= items@.take(i as int));
        assert(items@.take(i + 1).last() == items@[i as int]);
        let ghost before = out@;
        match entry_location_exec(&items[i]) {
            Some(loc) => {
                out.push(loc);
                assert(out@.map_values(|l: (String, u32, u32)| loc_view(l)) =~= before.map_values(|l: (String, u32, u32)| loc_view(l)).push(loc_view(loc)));
            },
            None => {},
        }
        i = i + 1;
    }
    assert(items@.take(items@.len() as int) =~= items@);
    out
}

/// Reads the locations of a `Location`, `LocationLink` or array answer into
/// (file path, line, column) triples.
pub fn parse_lsp_locations(v: &JsonValue) -> (r: Vec<(String, u32, u32)>)
    ensures
        r@.map_values(|l: (String, u32, u32)| loc_view(l)) == lsp_locations(*v),
{
    match v {
        JsonValue::Array(items) => entries_locations_exec(items),
        JsonValue::Object(_) => {
            let mut out: Vec<(String, u32, u32)> = Vec::new();
            assert(location_entries(*v) == seq![*v]);
            assert(seq![*v].drop_last() =~= Seq::<JsonValue>::empty());
            assert(seq![*v].last() == *v);
            assert(entry_locations(Seq::<JsonValue>::empty()) == Seq::<LocView>::empty());
            match entry_location_exec(v) {
                Some(loc) => {
                    out.push(loc);
                    assert(out@.map_values(|l: (String, u32, u32)| loc_view(l)) =~= seq![loc_view(loc)]);
                    assert(entry_locations(seq![*v]) =~= Seq::<LocView>::empty().push(loc_view(loc)));
                },
                None => {
                    assert(out@.map_values(|l: (String, u32, u32)| loc_view(l)) =~= Seq::<LocView>::empty());
                },
            }
            out
        },
        _ => {
            let out: Vec<(String, u32, u32)> = Vec::new();
            assert(out@.map_values(|l: (String, u32, u32)| loc_view(l)) =~= Seq::<LocView>::empty());
            out
        },
    }
}

} // verus!
