//! Listings of the discovered sources: the lines of the `list` command and
//! the JSON body of the sources endpoint.

use vstd::prelude::*;
use vstd::string::StringExecFns;

use crate::types::{Source, SourceView};

verus! {

/// The JSON error of `serde_json`, carried as is.
#[verifier::external_type_specification]
#[verifier::external_body]
pub struct ExJsonError(serde_json::Error);

/// The compact JSON text of an array of strings, as `serde_json` writes it.
pub uninterp spec fn json_string_array(names: Seq<Seq<char>>) -> Seq<char>;

/// `serde_json::to_string` on a vector of strings: the text is the compact
/// JSON array of the strings, which depends on them alone. The call
/// succeeds: it writes into a byte vector, and the only errors on its way
/// through a sequence of strings are those of the writer, of which a vector
/// has none.
#[verifier::external_body]
fn json_of_names(names: &Vec<String>) -> (json: Result<String, serde_json::Error>)
    ensures
        json is Ok,
        json matches Ok(text) ==> text@ == json_string_array(texts_of(names@)),
{
    serde_json::to_string(names)
}

/// The texts of a sequence of strings.
pub open spec fn texts_of(names: Seq<String>) -> Seq<Seq<char>> {
    Seq::new(names.len(), |i: int| names[i]@)
}

/// The names of `sources`, in order.
pub open spec fn names_of(sources: Seq<Source>) -> Seq<Seq<char>> {
    Seq::new(sources.len(), |i: int| sources[i].name@)
}

/// The names of the discovered sources, in the order of the snapshot.
pub fn source_names(sources: &Vec<Source>) -> (names: Vec<String>)
    ensures
        texts_of(names@) == names_of(sources@),
{
    let mut names: Vec<String> = Vec::new();
    let mut i: usize = 0;
    while i < sources.len()
        invariant
            i <= sources@.len(),
            names@.len() == i,
            forall|k: int| 0 <= k < i ==> (#[trigger] names@[k])@ == sources@[k].name@,
        decreases sources@.len() - i,
    {
        names.push(sources[i].name.clone());
        i += 1;
    }
    assert(texts_of(names@) =~= names_of(sources@));
    names
}

/// The body to answer with, given what the serialiser returned: its text,
/// or an empty array if it failed.
pub fn json_or_empty(json: Result<String, serde_json::Error>) -> (body: String)
    ensures
        body@ == (match json {
            Ok(text) => text@,
            Err(_) => "[]"@,
        }),
{
    match json {
        Ok(text) => text,
        Err(_) => String::from_str("[]"),
    }
}

/// The body of the sources endpoint: the JSON array of the source names in
/// the order of the snapshot.
pub fn sources_json(sources: &Vec<Source>) -> (body: String)
    ensures
        body@ == json_string_array(names_of(sources@)),
{
    let names = source_names(sources);
    json_or_empty(json_of_names(&names))
}

/// The line that lists one source: two spaces, the name and, where the
/// source has a URL, the URL in parentheses after a space.
pub open spec fn source_line_spec(source: SourceView) -> Seq<char> {
    "  "@ + source.name + match source.url {
        Some(url) => " ("@ + url + ")"@,
        None => Seq::empty(),
    }
}

/// The line that lists one source.
pub fn format_source_line(source: &Source) -> (line: String)
    ensures
        line@ == source_line_spec(source@),
{
    let line = String::from_str("  ").concat(source.name.as_str());
    match &source.url {
        Some(url) => {
            let line = line.concat(" (").concat(url.as_str()).concat(")");
            assert(line@ =~= source_line_spec(source@));
            line
        },
        None => {
            assert(line@ =~= source_line_spec(source@));
            line
        },
    }
}

/// What the `list` command prints once the search is over: one line that
/// says that nothing was found, or else a line per source in the order of
/// the snapshot and nothing besides.
pub open spec fn list_report_spec(sources: Seq<Source>) -> Seq<Seq<char>> {
    if sources.len() == 0 {
        seq!["No NDI sources found."@]
    } else {
        Seq::new(sources.len(), |i: int| source_line_spec(sources[i]@))
    }
}

/// What the `list` command prints once the search is over, line by line.
pub fn list_report(sources: &Vec<Source>) -> (lines: Vec<String>)
    ensures
        texts_of(lines@) == list_report_spec(sources@),
{
    let mut lines: Vec<String> = Vec::new();
    if sources.len() == 0 {
        lines.push(String::from_str("No NDI sources found."));
        assert(texts_of(lines@) =~= list_report_spec(sources@));
        return lines;
    }
    let mut i: usize = 0;
    while i < sources.len()
        invariant
            i <= sources@.len(),
            lines@.len() == i,
            forall|k: int| 0 <= k < i ==> (#[trigger] lines@[k])@ == source_line_spec(sources@[k]@),
        decreases sources@.len() - i,
    {
        lines.push(format_source_line(&sources[i]));
        i += 1;
    }
    assert(texts_of(lines@) =~= list_report_spec(sources@));
    lines
}

} // verus!
