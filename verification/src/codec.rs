use vstd::prelude::*;
use serde_json::Value;
use crate::errors::ClientError;
use crate::json::{decode_line, json_has_error, json_wf, trim_line, trimmed_of, DecodedLine};
use crate::text::{dec_rep, u64_to_string};

verus! {

/// The opening of every request line: protocol tag, id and method name.
pub open spec fn request_head(id: u64, method: Seq<char>) -> Seq<char> {
    "{\"jsonrpc\":\"2.0\",\"id\":"@ + dec_rep(id as nat) + ",\"method\":\""@ + method + "\""@
}

/// One request, written as a single JSON line: protocol tag, id, method and
/// the params object where the request carries one. The method and params
/// texts stand as given; the caller writes them in JSON form.
pub open spec fn request_line(id: u64, method: Seq<char>, params: Option<Seq<char>>) -> Seq<char> {
    match params {
        Option::None => request_head(id, method) + "}"@,
        Option::Some(p) => request_head(id, method) + ",\"params\":"@ + p + "}"@,
    }
}

/// One notification, written as a single JSON line: as a request, but with no
/// id, since a notification never receives a response.
pub open spec fn notification_line(method: Seq<char>) -> Seq<char> {
    "{\"jsonrpc\":\"2.0\",\"method\":\""@ + method + "\"}"@
}

/// Writes one request as a single JSON line.
pub fn build_request_line(id: u64, method: &str, params: Option<&str>) -> (r: String)
    ensures
        params is None ==> r@ == request_line(id, method@, None),
        params matches Some(p) ==> r@ == request_line(id, method@, Some(p@)),
{
    let mut r = String::from_str("{\"jsonrpc\":\"2.0\",\"id\":");
    let digits = u64_to_string(id);
    r.append(digits.as_str());
    r.append(",\"method\":\"");
    r.append(method);
    r.append("\"");
    match params {
        None => {
            r.append("}");
            proof { assert(r@ =~= request_line(id, method@, None)); }
        },
        Some(p) => {
            r.append(",\"params\":");
            r.append(p);
            r.append("}");
            proof { assert(r@ =~= request_line(id, method@, Some(p@))); }
        },
    }
    r
}

/// Writes one notification as a single JSON line.
pub fn build_notification_line(method: &str) -> (r: String)
    ensures
        r@ == notification_line(method@),
{
    let mut r = String::from_str("{\"jsonrpc\":\"2.0\",\"method\":\"");
    r.append(method);
    r.append("\"}");
    proof { assert(r@ =~= notification_line(method@)); }
    r
}

/// A peer line on which a request/response exchange succeeds: some bytes were
/// read, the line is not blank, it parses as JSON, and the document carries no
/// JSON-RPC failure.
pub open spec fn good_peer_line(bytes_read: nat, line: Seq<char>) -> bool {
    &&& bytes_read > 0
    &&& trimmed_of(line).len() > 0
    &&& json_wf(trimmed_of(line))
    &&& !json_has_error(trimmed_of(line))
}

/// What `classify_response` returns for each kind of peer line, in the order
/// the outcomes are ruled out: stream closed, blank line, not JSON (the raw
/// line is preserved), JSON-RPC failure, success.
pub open spec fn classify_post(bytes_read: nat, line: Seq<char>, r: Result<Value, ClientError>) -> bool {
    &&& bytes_read == 0 ==> (r matches Err(e) && e is ConnectionClosed)
    &&& bytes_read > 0 && trimmed_of(line).len() == 0 ==> (r matches Err(e) && e is EmptyResponse)
    &&& bytes_read > 0 && trimmed_of(line).len() > 0 && !json_wf(trimmed_of(line))
        ==> (r matches Err(ClientError::ParseError(raw)) && raw@ == line)
    &&& bytes_read > 0 && trimmed_of(line).len() > 0 && json_wf(trimmed_of(line))
        && json_has_error(trimmed_of(line)) ==> (r matches Err(e) && e is ProtocolError)
    &&& good_peer_line(bytes_read, line) ==> r is Ok
}

/// Sorts one line of peer output into the five read/parse outcomes of the
/// transport: zero bytes read means the peer closed its stream; a blank line
/// is an empty response; a line that is not JSON is a parse failure carrying
/// the raw line; a JSON document with a non-null `error` member is a protocol
/// failure carrying that payload; anything else is the successful response.
pub fn classify_response(bytes_read: usize, line: &str) -> (r: Result<Value, ClientError>)
    ensures
        classify_post(bytes_read as nat, line@, r),
{
    if bytes_read == 0 {
        return Err(ClientError::ConnectionClosed);
    }
    let trimmed = trim_line(line);
    if trimmed.unicode_len() == 0 {
        return Err(ClientError::EmptyResponse);
    }
    match decode_line(trimmed) {
        DecodedLine::NotJson => Err(ClientError::ParseError(String::from_str(line))),
        DecodedLine::ErrorField(payload) => Err(ClientError::ProtocolError(payload)),
        DecodedLine::Clean(value) => Ok(value),
    }
}

} // verus!
