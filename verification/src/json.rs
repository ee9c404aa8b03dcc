use vstd::prelude::*;

verus! {

#[verifier::external_type_specification]
#[verifier::external_body]
pub struct ExValue(serde_json::Value);

/// Whether a line of text is a well-formed JSON document, exactly as
/// `serde_json::from_str::<Value>` accepts it. Determined by the characters alone.
pub uninterp spec fn json_wf(s: Seq<char>) -> bool;

/// Whether the JSON document written in the line carries a non-null `error`
/// member at its top level. Meaningful only where `json_wf` holds; determined
/// by the characters alone.
pub uninterp spec fn json_has_error(s: Seq<char>) -> bool;

/// How a line of peer output decodes: not JSON at all, a JSON-RPC failure
/// (non-null `error` member, whose payload is carried), or a clean document.
pub enum DecodedLine {
    NotJson,
    ErrorField(serde_json::Value),
    Clean(serde_json::Value),
}

/// Relies on `serde_json::from_str::<Value>`, which succeeds exactly on the
/// lines that are well-formed JSON, and on `Value::get` / `Value::is_null` /
/// `Value::take` to look up the top-level `error` member of the parsed
/// document and move it out. All of these depend on the input characters alone.
#[verifier::external_body]
pub fn decode_line(s: &str) -> (r: DecodedLine)
    ensures
        (r is NotJson) <==> !json_wf(s@),
        json_wf(s@) ==> ((r is ErrorField) <==> json_has_error(s@)),
{
    match serde_json::from_str::<serde_json::Value>(s) {
        Err(_) => DecodedLine::NotJson,
        Ok(mut v) => match v.get_mut("error") {
            Some(e) if !e.is_null() => DecodedLine::ErrorField(e.take()),
            _ => DecodedLine::Clean(v),
        },
    }
}

/// How a line reads after `str::trim`: leading and trailing whitespace
/// removed. Determined by the characters alone.
pub uninterp spec fn trimmed_of(s: Seq<char>) -> Seq<char>;

/// Relies on `str::trim`: returns the line without its leading and trailing
/// whitespace.
#[verifier::external_body]
pub fn trim_line(s: &str) -> (r: &str)
    ensures
        r@ == trimmed_of(s@),
{
    s.trim()
}

} // verus!
