//! `go_to_definition`: where a symbol is defined, index first, refined
//! through a language server when one answers.
use vstd::prelude::*;

use crate::text::{chars_of, copy_string, first_occurrence, first_occurrence_exec, utf8_prefix_len, utf8_len};

verus! {

/// Input of `go_to_definition`.
pub struct GoToDefinitionInput {
    /// Symbol name to find the definition of
    pub symbol: String,
    /// Optional: narrow by language
    pub language: Option<String>,
    /// Optional: container/class name to disambiguate
    pub container: Option<String>,
}

/// One definition site.
pub struct DefinitionResult {
    pub name: String,
    pub kind: String,
    pub file: String,
    pub language: String,
    pub start_line: i64,
    pub start_col: i64,
    pub end_line: i64,
    pub end_col: i64,
    pub container: String,
    pub signature: String,
}

/// The value a `DefinitionResult` holds.
pub struct DefinitionView {
    pub name: Seq<char>,
    pub kind: Seq<char>,
    pub file: Seq<char>,
    pub language: Seq<char>,
    pub start_line: i64,
    pub start_col: i64,
    pub end_line: i64,
    pub end_col: i64,
    pub container: Seq<char>,
    pub signature: Seq<char>,
}

impl View for DefinitionResult {
    type V = DefinitionView;

    open spec fn view(&self) -> DefinitionView {
        DefinitionView {
            name: self.name@,
            kind: self.kind@,
            file: self.file@,
            language: self.language@,
            start_line: self.start_line,
            start_col: self.start_col,
            end_line: self.end_line,
            end_col: self.end_col,
            container: self.container@,
            signature: self.signature@,
        }
    }
}

/// The values of a list of definitions.
pub open spec fn definition_views(v: Seq<DefinitionResult>) -> Seq<DefinitionView> {
    v.map_values(|d: DefinitionResult| d@)
}

/// A location a language server reports: file path, 0-based line, column.
pub type Location = (String, u32, u32);

/// The value of a location.
pub open spec fn location_view(l: Location) -> (Seq<char>, u32, u32) {
    (l.0@, l.1, l.2)
}

/// The definition recorded for a location, carrying over the kind,
/// language, container and signature of `like`.
pub open spec fn located_definition(symbol: Seq<char>, like: DefinitionView, loc: (Seq<char>, u32, u32)) -> DefinitionView {
    DefinitionView {
        name: symbol,
        kind: like.kind,
        file: loc.0,
        language: like.language,
        start_line: loc.1 as i64,
        start_col: loc.2 as i64,
        end_line: loc.1 as i64,
        end_col: loc.2 as i64,
        container: like.container,
        signature: like.signature,
    }
}

/// Whether a file is among those of the definitions.
pub open spec fn has_file(defs: Seq<DefinitionView>, file: Seq<char>) -> bool {
    exists|k: int| 0 <= k < defs.len() && defs[k].file == file
}

/// The definitions for the locations whose file none of `defs` is in.
pub open spec fn new_locations(symbol: Seq<char>, defs: Seq<DefinitionView>, locs: Seq<(Seq<char>, u32, u32)>) -> Seq<DefinitionView>
    decreases locs.len(),
{
    if locs.len() == 0 {
        seq![]
    } else {
        let prev = new_locations(symbol, defs, locs.drop_last());
        if has_file(defs, locs.last().0) {
            prev
        } else {
            prev.push(located_definition(symbol, defs[0], locs.last()))
        }
    }
}

/// The index results with the language server's answers prepended: each
/// location in a file that no index result is in becomes a definition
/// like the first index result; with no answer, the index results as they are.
pub open spec fn merged_definitions(symbol: Seq<char>, defs: Seq<DefinitionView>, locs: Seq<(Seq<char>, u32, u32)>) -> Seq<DefinitionView> {
    if locs.len() == 0 {
        defs
    } else {
        new_locations(symbol, defs, locs) + defs
    }
}

fn strings_equal(a: &str, b: &str) -> (r: bool)
    ensures
        r == (a@ == b@),
{
    crate::text::chars_eq(&chars_of(a), &chars_of(b))
}

fn has_file_exec(defs: &Vec<DefinitionResult>, file: &str) -> (r: bool)
    ensures
        r == has_file(definition_views(defs@), file@),
{
    let mut k: usize = 0;
    while k < defs.len()
        invariant
            k <= defs@.len(),
            forall|j: int| 0 <= j < k ==> defs@[j].file@ != file@,
        decreases defs@.len() - k,
    {
        if strings_equal(defs[k].file.as_str(), file) {
            assert(definition_views(defs@)[k as int].file == file@);
            return true;
        }
        k = k + 1;
    }
    assert forall|j: int| 0 <= j < definition_views(defs@).len() implies definition_views(defs@)[j].file != file@ by {
        assert(definition_views(defs@)[j] == defs@[j]@);
    }
    false
}

/// Prepends the language server's definitions to the index results.
pub fn merge_lsp_definitions(results: Vec<DefinitionResult>, locs: Vec<Location>, symbol: &str) -> (r: Vec<DefinitionResult>)
    requires
        results@.len() > 0,
    ensures
        definition_views(r@) == merged_definitions(symbol@, definition_views(results@), locs@.map_values(|l: Location| location_view(l))),
{
    let ghost lv = locs@.map_values(|l: Location| location_view(l));
    if locs.len() == 0 {
        return results;
    }
    let ghost dv = definition_views(results@);
    let mut inserts: Vec<DefinitionResult> = Vec::new();
    let mut i: usize = 0;
    while i < locs.len()
        invariant
            i <= locs@.len(),
            results@.len() > 0,
            dv == definition_views(results@),
            lv == locs@.map_values(|l: Location| location_view(l)),
            definition_views(inserts@) == new_locations(symbol@, dv, lv.take(i as int)),
        decreases locs@.len() - i,
    {
        assert(lv.take(i + 1).drop_last() =~= lv.take(i as int));
        assert(lv.take(i + 1).last() == location_view(locs@[i as int]));
        let loc = &locs[i];
        if !has_file_exec(&results, loc.0.as_str()) {
            let first = &results[0];
            let d = DefinitionResult {
                name: copy_string(symbol),
                kind: copy_string(first.kind.as_str()),
                file: copy_string(loc.0.as_str()),
                language: copy_string(first.language.as_str()),
                start_line: loc.1 as i64,
                start_col: loc.2 as i64,
                end_line: loc.1 as i64,
                end_col: loc.2 as i64,
                container: copy_string(first.container.as_str()),
                signature: copy_string(first.signature.as_str()),
            };
            let ghost before = definition_views(inserts@);
            inserts.push(d);
            assert(definition_views(inserts@) =~= before.push(d@));
        }
        i = i + 1;
    }
    assert(lv.take(locs@.len() as int) =~= lv);
    let ghost iv = definition_views(inserts@);
    let mut out = inserts;
    let mut rest = results;
    out.append(&mut rest);
    assert(definition_views(out@) =~= iv + dv);
    out
}

/// The position at which the language server is asked about an anchor
/// line: the 0-based line (`line_no - 1`, not below 0) and the byte column
/// of the first occurrence of the symbol; none when the line lacks it.
pub open spec fn anchor_position(content: Seq<char>, symbol: Seq<char>, line_no: i64) -> Option<(u32, u32)> {
    match first_occurrence(content, symbol) {
        Some(k) => Some((
            (if line_no - 1 < i64::MIN { i64::MIN as int } else { line_no - 1 }) as u32,
            utf8_len(content.take(k)) as u32,
        )),
        None => None,
    }
}

/// The position at which the language server is asked about an anchor line.
pub fn anchor_position_exec(content: &str, symbol: &str, line_no: i64) -> (r: Option<(u32, u32)>)
    ensures
        r == anchor_position(content@, symbol@, line_no),
{
    let c = chars_of(content);
    let s = chars_of(symbol);
    match first_occurrence_exec(&c, &s) {
        Some(k) => {
            let b = utf8_prefix_len(&c, k);
            let line = if line_no == i64::MIN {
                i64::MIN
            } else {
                line_no - 1
            };
            Some((line as u32, b as u32))
        },
        None => None,
    }
}

/// The definition recorded for a location found from an anchor line.
pub open spec fn anchor_definition(symbol: Seq<char>, language: Seq<char>, loc: (Seq<char>, u32, u32)) -> DefinitionView {
    DefinitionView {
        name: symbol,
        kind: "definition"@,
        file: loc.0,
        language,
        start_line: loc.1 as i64,
        start_col: loc.2 as i64,
        end_line: loc.1 as i64,
        end_col: loc.2 as i64,
        container: seq![],
        signature: seq![],
    }
}

/// The definitions for the locations the language server reports from an
/// anchor line of the given language.
pub fn anchor_definitions(locs: Vec<Location>, symbol: &str, language: &str) -> (r: Vec<DefinitionResult>)
    ensures
        definition_views(r@) == locs@.map_values(|l: Location| anchor_definition(symbol@, language@, location_view(l))),
{
    let mut out: Vec<DefinitionResult> = Vec::new();
    let mut i: usize = 0;
    while i < locs.len()
        invariant
            i <= locs@.len(),
            definition_views(out@) == locs@.take(i as int).map_values(|l: Location| anchor_definition(symbol@, language@, location_view(l))),
        decreases locs@.len() - i,
    {
        let loc = &locs[i];
        let d = DefinitionResult {
            name: String::from_str(symbol),
            kind: String::from_str("definition"),
            file: copy_string(loc.0.as_str()),
            language: String::from_str(language),
            start_line: loc.1 as i64,
            start_col: loc.2 as i64,
            end_line: loc.1 as i64,
            end_col: loc.2 as i64,
            container: String::new(),
            signature: String::new(),
        };
        let ghost before = definition_views(out@);
        out.push(d);
        assert(definition_views(out@) =~= before.push(d@));
        assert(locs@.take(i + 1).map_values(|l: Location| anchor_definition(symbol@, language@, location_view(l))) =~= locs@.take(i as int).map_values(|l: Location| anchor_definition(symbol@, language@, location_view(l))).push(anchor_definition(symbol@, language@, location_view(locs@[i as int]))));
        i = i + 1;
    }
    assert(locs@.take(locs@.len() as int) =~= locs@);
    out
}

/// What the language server's reply at one anchor line decides: the
/// definitions at the locations it names, when it names any; otherwise
/// (no reply, or no location) the search goes on with the next anchor.
pub fn anchor_reply(reply: Option<Vec<Location>>, symbol: &str, language: &str) -> (r: Option<Vec<DefinitionResult>>)
    ensures
        r is Some <==> (reply matches Some(locs) && locs.len() > 0),
        r matches Some(d) ==> reply matches Some(locs) && definition_views(d@) == locs@.map_values(
            |l: Location| anchor_definition(symbol@, language@, location_view(l)),
        ),
{
    match reply {
        Some(locs) => if locs.len() > 0 {
            Some(anchor_definitions(locs, symbol, language))
        } else {
            None
        },
        None => None,
    }
}

} // verus!
