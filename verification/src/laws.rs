use vstd::prelude::*;
use serde_json::Value;
use crate::client::{issues_id, op_post, MCPClient};
use crate::codec::{classify_post, good_peer_line};
use crate::errors::ClientError;
use crate::registry::{connect_post, disconnect_post};

verus! {

/// Connecting the same name twice in succession, with no disconnect between,
/// is refused: when a first `connect` succeeded, a second one on the same name
/// yields `AlreadyConnected` and leaves the registry — and so the set of live
/// clients — exactly as the first call left it.
pub proof fn lemma_connect_twice(
    m0: Map<Seq<char>, MCPClient>,
    m1: Map<Seq<char>, MCPClient>,
    m2: Map<Seq<char>, MCPClient>,
    r1: Result<String, ClientError>,
    r2: Result<String, ClientError>,
    name: Seq<char>,
    c1: MCPClient,
    c2: MCPClient,
)
    requires
        connect_post(m0, m1, r1, name, c1),
        connect_post(m1, m2, r2, name, c2),
        r1 is Ok,
    ensures
        r2 matches Err(e) && e is AlreadyConnected,
        m2 == m1,
        m1[name] == c1,
{
    assert(!m0.contains_key(name));
    assert(m1 == m0.insert(name, c1));
    assert(m1.contains_key(name));
}

/// Connecting a free name and then disconnecting it undoes the binding
/// completely: the very client that was installed is handed back for
/// teardown, and the registry stands exactly as it began.
pub proof fn lemma_connect_disconnect_round_trip(
    m0: Map<Seq<char>, MCPClient>,
    m1: Map<Seq<char>, MCPClient>,
    m2: Map<Seq<char>, MCPClient>,
    r1: Result<String, ClientError>,
    r2: Result<(MCPClient, String), ClientError>,
    name: Seq<char>,
    client: MCPClient,
)
    requires
        connect_post(m0, m1, r1, name, client),
        disconnect_post(m1, m2, r2, name),
        r1 is Ok,
    ensures
        r2 matches Ok(p) && p.0 == client,
        m2 == m0,
{
    assert(!m0.contains_key(name));
    assert(m1 == m0.insert(name, client));
    assert(m2 =~= m0);
}

/// `disconnect` on a name that is not bound — never connected, or no longer —
/// yields `NotConnected` and changes nothing.
pub proof fn lemma_disconnect_unbound(
    m0: Map<Seq<char>, MCPClient>,
    m1: Map<Seq<char>, MCPClient>,
    r: Result<(MCPClient, String), ClientError>,
    name: Seq<char>,
)
    requires
        disconnect_post(m0, m1, r, name),
        !m0.contains_key(name),
    ensures
        r matches Err(e) && e is NotConnected,
        m1 == m0,
{
}

/// Two successive requests of one client carry consecutive ids: whatever
/// operations issued them, the second id is exactly one above the first.
pub proof fn lemma_ids_consecutive(
    c0: MCPClient,
    c1: MCPClient,
    c2: MCPClient,
    id1: u64,
    id2: u64,
)
    requires
        issues_id(c0, c1, id1),
        issues_id(c1, c2, id2),
    ensures
        id2 == id1 + 1,
{
}

/// Within one client, successive requests receive the ids `1, 2, 3, …` with
/// no gaps or repeats, regardless of which operation issued them: a run of
/// issued requests that starts from a fresh client (counter at 1) carries
/// exactly the ids `1` up to its length.
pub proof fn lemma_ids_dense(states: Seq<MCPClient>, ids: Seq<u64>)
    requires
        states.len() == ids.len() + 1,
        states[0].request_id_counter == 1,
        forall|i: int| 0 <= i < ids.len() ==> issues_id(states[i], states[i + 1], ids[i]),
    ensures
        forall|i: int| 0 <= i < ids.len() ==> ids[i] == i + 1,
    decreases ids.len(),
{
    if ids.len() > 0 {
        let n = ids.len() as int;
        lemma_ids_dense(states.drop_last(), ids.drop_last());
        assert forall|i: int| 0 <= i < n implies ids[i] == i + 1 by {
            if i < n - 1 {
                assert(ids.drop_last()[i] == i + 1);
            } else {
                lemma_counter_runs(states, ids);
                assert(issues_id(states[n - 1], states[n], ids[n - 1]));
            }
        }
    }
}

proof fn lemma_counter_runs(states: Seq<MCPClient>, ids: Seq<u64>)
    requires
        states.len() == ids.len() + 1,
        states[0].request_id_counter == 1,
        forall|i: int| 0 <= i < ids.len() ==> issues_id(states[i], states[i + 1], ids[i]),
    ensures
        forall|i: int| 0 <= i < states.len() ==> states[i].request_id_counter == 1 + i,
    decreases states.len(),
{
    if ids.len() > 0 {
        lemma_counter_runs(states.drop_last(), ids.drop_last());
        assert forall|i: int| 0 <= i < states.len() implies states[i].request_id_counter == 1
            + i by {
            if i < states.len() - 1 {
                assert(states.drop_last()[i].request_id_counter == 1 + i);
            } else {
                assert(states.drop_last()[i - 1].request_id_counter == i);
                assert(issues_id(states[i - 1], states[i], ids[i - 1]));
            }
        }
    }
}

/// A protocol operation succeeds exactly on a client whose handshake has
/// completed: anywhere else it yields `NotInitialized`, and on a ready client
/// it always hands out the request line.
pub proof fn lemma_op_needs_ready(
    pre: MCPClient,
    post: MCPClient,
    r: Result<String, ClientError>,
    method: Seq<char>,
    params: Option<Seq<char>>,
)
    requires
        op_post(pre, post, r, method, params),
    ensures
        r is Ok <==> pre.phase is Ready,
        !(pre.phase is Ready) ==> (r matches Err(e) && e is NotInitialized),
{
}

/// On a ready client and a well-behaved peer the whole exchange succeeds: the
/// request line is handed out, and the reply line classifies as the
/// successful response.
pub proof fn lemma_ready_exchange_succeeds(
    pre: MCPClient,
    post: MCPClient,
    r: Result<String, ClientError>,
    method: Seq<char>,
    params: Option<Seq<char>>,
    bytes_read: nat,
    line: Seq<char>,
    resp: Result<Value, ClientError>,
)
    requires
        op_post(pre, post, r, method, params),
        pre.phase is Ready,
        classify_post(bytes_read, line, resp),
        good_peer_line(bytes_read, line),
    ensures
        r is Ok,
        resp is Ok,
{
}

/// A peer that answers with a line that is not JSON makes the call fail with
/// `ParseError`, and the raw line is preserved in the failure.
pub proof fn lemma_non_json_reply(
    bytes_read: nat,
    line: Seq<char>,
    resp: Result<Value, ClientError>,
)
    requires
        classify_post(bytes_read, line, resp),
        bytes_read > 0,
        crate::json::trimmed_of(line).len() > 0,
        !crate::json::json_wf(crate::json::trimmed_of(line)),
    ensures
        resp matches Err(ClientError::ParseError(raw)) && raw@ == line,
{
}

/// A peer that closes its output stream before replying makes the call fail
/// with `ConnectionClosed`.
pub proof fn lemma_closed_stream(line: Seq<char>, resp: Result<Value, ClientError>)
    requires
        classify_post(0, line, resp),
    ensures
        resp matches Err(e) && e is ConnectionClosed,
{
}

} // verus!
