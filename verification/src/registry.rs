use vstd::prelude::*;
use crate::client::{op_post, MCPClient};
use crate::errors::ClientError;

verus! {

/// A name is bound in the list.
pub open spec fn has_name(names: Seq<String>, k: Seq<char>) -> bool {
    exists|i: int| 0 <= i < names.len() && names[i]@ == k
}

/// The position a bound name stands at. Unique under `ClientRegistry::wf`.
pub open spec fn name_index(names: Seq<String>, k: Seq<char>) -> int {
    choose|i: int| 0 <= i < names.len() && names[i]@ == k
}

/// The map a name list and a client list describe together.
pub open spec fn reg_map(names: Seq<String>, clients: Seq<MCPClient>) -> Map<Seq<char>, MCPClient> {
    Map::new(
        |k: Seq<char>| has_name(names, k),
        |k: Seq<char>| clients[name_index(names, k)],
    )
}

/// The acknowledgement `connect` returns.
pub open spec fn connected_ack(name: Seq<char>) -> Seq<char> {
    "Connected to MCP server: "@ + name
}

/// The acknowledgement `disconnect` returns.
pub open spec fn disconnected_ack(name: Seq<char>) -> Seq<char> {
    "Disconnected MCP server: "@ + name
}

/// What `connect` does: a bound name is refused with `AlreadyConnected` and
/// nothing changes — in particular no second client for the name ever comes
/// to exist — and a free name is bound to the given client, acknowledged.
pub open spec fn connect_post(
    pre: Map<Seq<char>, MCPClient>,
    post: Map<Seq<char>, MCPClient>,
    r: Result<String, ClientError>,
    name: Seq<char>,
    client: MCPClient,
) -> bool {
    &&& pre.contains_key(name) ==> (r matches Err(e) && e is AlreadyConnected) && post == pre
    &&& !pre.contains_key(name) ==> (r matches Ok(ack) && ack@ == connected_ack(name)) && post
        == pre.insert(name, client)
}

/// What `disconnect` does: an unbound name — one never connected, or already
/// disconnected — is refused with `NotConnected` and nothing changes; a bound
/// name is removed and its client handed back for teardown, acknowledged.
pub open spec fn disconnect_post(
    pre: Map<Seq<char>, MCPClient>,
    post: Map<Seq<char>, MCPClient>,
    r: Result<(MCPClient, String), ClientError>,
    name: Seq<char>,
) -> bool {
    &&& !pre.contains_key(name) ==> (r matches Err(e) && e is NotConnected) && post == pre
    &&& pre.contains_key(name) ==> (r matches Ok(p) && p.0 == pre[name] && p.1@
        == disconnected_ack(name)) && post == pre.remove(name)
}

/// What each routed protocol operation does: an unbound name is refused with
/// `NotConnected` and nothing changes; on a bound name the named client serves
/// the operation (`op_post`) and the map holds its advanced state.
pub open spec fn registry_op_post(
    pre: Map<Seq<char>, MCPClient>,
    post: Map<Seq<char>, MCPClient>,
    r: Result<String, ClientError>,
    name: Seq<char>,
    method: Seq<char>,
    params: Option<Seq<char>>,
) -> bool {
    &&& !pre.contains_key(name) ==> (r matches Err(e) && e is NotConnected) && post == pre
    &&& pre.contains_key(name) ==> post.contains_key(name) && op_post(
        pre[name],
        post[name],
        r,
        method,
        params,
    ) && post == pre.insert(name, post[name])
}

/// The named-client registry: at most one live client per server name. All
/// lookups and mutations go through it; the host serializes calls into it
/// behind one exclusive lock, so no two operations overlap.
pub struct ClientRegistry {
    pub names: Vec<String>,
    pub clients: Vec<MCPClient>,
}

impl View for ClientRegistry {
    type V = Map<Seq<char>, MCPClient>;

    open spec fn view(&self) -> Map<Seq<char>, MCPClient> {
        reg_map(self.names@, self.clients@)
    }
}

proof fn lemma_entry(names: Seq<String>, clients: Seq<MCPClient>, i: int)
    requires
        names.len() == clients.len(),
        forall|a: int, b: int| 0 <= a < b < names.len() ==> names[a]@ != names[b]@,
        0 <= i < names.len(),
    ensures
        reg_map(names, clients).contains_key(names[i]@),
        name_index(names, names[i]@) == i,
        reg_map(names, clients)[names[i]@] == clients[i],
{
    assert(has_name(names, names[i]@));
    let j = name_index(names, names[i]@);
    assert(0 <= j < names.len() && names[j]@ == names[i]@);
    if j < i {
        assert(names[j]@ != names[i]@);
    } else if i < j {
        assert(names[i]@ != names[j]@);
    }
}

proof fn lemma_push_view(names: Seq<String>, clients: Seq<MCPClient>, key: String, client: MCPClient)
    requires
        names.len() == clients.len(),
        forall|a: int, b: int| 0 <= a < b < names.len() ==> names[a]@ != names[b]@,
        !has_name(names, key@),
    ensures
        forall|a: int, b: int| 0 <= a < b < names.push(key).len() ==> names.push(key)[a]@
            != names.push(key)[b]@,
        reg_map(names.push(key), clients.push(client)) == reg_map(names, clients).insert(
            key@,
            client,
        ),
{
    let names2 = names.push(key);
    let clients2 = clients.push(client);
    let n = names.len() as int;
    assert forall|a: int, b: int| 0 <= a < b < names2.len() implies names2[a]@ != names2[b]@ by {
        if b < n {
            assert(names[a]@ != names[b]@);
        } else {
            assert(names2[b]@ == key@);
            assert(names2[a] == names[a]);
            assert(!(names[a]@ == key@)) by {
                if names[a]@ == key@ {
                    assert(has_name(names, key@));
                }
            }
        }
    }
    let m1 = reg_map(names2, clients2);
    let m2 = reg_map(names, clients).insert(key@, client);
    assert forall|k: Seq<char>| m1.contains_key(k) == m2.contains_key(k) by {
        if has_name(names2, k) {
            let i = choose|i: int| 0 <= i < names2.len() && names2[i]@ == k;
            if i < n {
                assert(has_name(names, k));
            } else {
                assert(k == key@);
            }
        }
        if has_name(names, k) {
            let i = choose|i: int| 0 <= i < names.len() && names[i]@ == k;
            assert(names2[i]@ == k);
            assert(has_name(names2, k));
        }
        assert(names2[n]@ == key@);
        assert(has_name(names2, key@));
    }
    assert forall|k: Seq<char>| m1.contains_key(k) implies m1[k] == m2[k] by {
        if k == key@ {
            lemma_entry(names2, clients2, n);
            assert(m1[k] == clients2[n]);
        } else {
            let i = choose|i: int| 0 <= i < names.len() && names[i]@ == k;
            lemma_entry(names, clients, i);
            lemma_entry(names2, clients2, i);
            assert(m1[k] == clients2[i]);
            assert(m2[k] == clients[i]);
        }
    }
    assert(m1 =~= m2);
}

proof fn lemma_remove_view(names: Seq<String>, clients: Seq<MCPClient>, i: int)
    requires
        names.len() == clients.len(),
        forall|a: int, b: int| 0 <= a < b < names.len() ==> names[a]@ != names[b]@,
        0 <= i < names.len(),
    ensures
        forall|a: int, b: int| 0 <= a < b < names.remove(i).len() ==> names.remove(i)[a]@
            != names.remove(i)[b]@,
        reg_map(names.remove(i), clients.remove(i)) == reg_map(names, clients).remove(names[i]@),
{
    let names2 = names.remove(i);
    let clients2 = clients.remove(i);
    let n = names.len() as int;
    assert forall|a: int, b: int| 0 <= a < b < names2.len() implies names2[a]@ != names2[b]@ by {
        let a0: int = if a < i { a } else { a + 1 };
        let b0: int = if b < i { b } else { b + 1 };
        assert(names2[a] == names[a0]);
        assert(names2[b] == names[b0]);
        assert(names[a0]@ != names[b0]@);
    }
    let m1 = reg_map(names2, clients2);
    let m2 = reg_map(names, clients).remove(names[i]@);
    assert forall|k: Seq<char>| m1.contains_key(k) == m2.contains_key(k) by {
        if has_name(names2, k) {
            let a = choose|a: int| 0 <= a < names2.len() && names2[a]@ == k;
            let a0: int = if a < i { a } else { a + 1 };
            assert(names2[a] == names[a0]);
            assert(has_name(names, k));
            if a0 < i {
                assert(names[a0]@ != names[i]@);
            } else {
                assert(names[i]@ != names[a0]@);
            }
        }
        if has_name(names, k) && k != names[i]@ {
            let a0 = choose|a0: int| 0 <= a0 < names.len() && names[a0]@ == k;
            let a: int = if a0 < i { a0 } else { a0 - 1 };
            assert(a0 != i);
            assert(names2[a] == names[a0]);
            assert(has_name(names2, k));
        }
    }
    assert forall|k: Seq<char>| m1.contains_key(k) implies m1[k] == m2[k] by {
        let a = name_index(names2, k);
        assert(0 <= a < names2.len() && names2[a]@ == k);
        let a0: int = if a < i { a } else { a + 1 };
        assert(names2[a] == names[a0]);
        assert(clients2[a] == clients[a0]);
        lemma_entry(names2, clients2, a);
        lemma_entry(names, clients, a0);
        assert(m1[k] == clients2[a]);
        assert(m2[k] == clients[a0]);
    }
    assert(m1 =~= m2);
}

proof fn lemma_update_view(names: Seq<String>, clients: Seq<MCPClient>, i: int, c: MCPClient)
    requires
        names.len() == clients.len(),
        forall|a: int, b: int| 0 <= a < b < names.len() ==> names[a]@ != names[b]@,
        0 <= i < names.len(),
    ensures
        reg_map(names, clients.update(i, c)) == reg_map(names, clients).insert(names[i]@, c),
{
    let clients2 = clients.update(i, c);
    let m1 = reg_map(names, clients2);
    let m2 = reg_map(names, clients).insert(names[i]@, c);
    assert forall|k: Seq<char>| m1.contains_key(k) == m2.contains_key(k) by {
        assert(has_name(names, names[i]@));
    }
    assert forall|k: Seq<char>| m1.contains_key(k) implies m1[k] == m2[k] by {
        let a = name_index(names, k);
        assert(0 <= a < names.len() && names[a]@ == k);
        lemma_entry(names, clients, a);
        lemma_entry(names, clients2, a);
        if a == i {
            assert(k == names[i]@);
            assert(m1[k] == clients2[i]);
        } else {
            if a < i {
                assert(names[a]@ != names[i]@);
            } else {
                assert(names[i]@ != names[a]@);
            }
            assert(m1[k] == clients2[a]);
            assert(m2[k] == clients[a]);
        }
    }
    assert(m1 =~= m2);
}

impl ClientRegistry {
    /// Names are bound at most once, and every name has its client.
    pub open spec fn wf(self) -> bool {
        &&& self.names@.len() == self.clients@.len()
        &&& forall|a: int, b: int| 0 <= a < b < self.names@.len() ==> self.names@[a]@
            != self.names@[b]@
    }

    /// An empty registry: no server is connected.
    pub fn new() -> (r: Self)
        ensures
            r.wf(),
            r@ == Map::<Seq<char>, MCPClient>::empty(),
    {
        let r = ClientRegistry { names: Vec::new(), clients: Vec::new() };
        proof {
            assert(r@ =~= Map::<Seq<char>, MCPClient>::empty());
        }
        r
    }

    fn find(&self, key: &String) -> (r: Option<usize>)
        requires
            self.wf(),
        ensures
            match r {
                Some(i) => i < self.names@.len() && self.names@[i as int]@ == key@,
                None => !has_name(self.names@, key@),
            },
    {
        let n = self.names.len();
        let mut i: usize = 0;
        while i < n
            invariant
                n == self.names@.len(),
                i <= n,
                forall|j: int| 0 <= j < i ==> self.names@[j]@ != key@,
            decreases n - i,
        {
            if self.names[i].eq(key) {
                return Some(i);
            }
            i = i + 1;
        }
        None
    }

    /// Whether a name is bound to a live client.
    pub fn contains(&self, name: &str) -> (r: bool)
        requires
            self.wf(),
        ensures
            r == self@.contains_key(name@),
    {
        let key = String::from_str(name);
        match self.find(&key) {
            Some(i) => {
                proof {
                    assert(has_name(self.names@, name@));
                }
                true
            },
            None => false,
        }
    }

    /// Binds a free name to a client that completed its handshake, or refuses
    /// a bound one with `AlreadyConnected`, spawning nothing and changing
    /// nothing. Either a fully usable client is installed or the registry is
    /// left exactly as it was.
    pub fn connect(&mut self, name: &str, client: MCPClient) -> (r: Result<String, ClientError>)
        requires
            old(self).wf(),
        ensures
            final(self).wf(),
            connect_post(old(self)@, final(self)@, r, name@, client),
    {
        let key = String::from_str(name);
        match self.find(&key) {
            Some(i) => {
                proof {
                    assert(has_name(self.names@, name@));
                }
                Err(ClientError::AlreadyConnected)
            },
            None => {
                proof {
                    lemma_push_view(self.names@, self.clients@, key, client);
                }
                self.names.push(key);
                self.clients.push(client);
                let mut ack = String::from_str("Connected to MCP server: ");
                ack.append(name);
                Ok(ack)
            },
        }
    }

    /// Unbinds a name and hands its client back so the host can drive the
    /// teardown (best-effort `shutdown` exchange, then the unconditional
    /// kill), or refuses an unbound name with `NotConnected`.
    pub fn disconnect(&mut self, name: &str) -> (r: Result<(MCPClient, String), ClientError>)
        requires
            old(self).wf(),
        ensures
            final(self).wf(),
            disconnect_post(old(self)@, final(self)@, r, name@),
    {
        let key = String::from_str(name);
        match self.find(&key) {
            None => Err(ClientError::NotConnected),
            Some(i) => {
                proof {
                    lemma_entry(self.names@, self.clients@, i as int);
                    lemma_remove_view(self.names@, self.clients@, i as int);
                }
                let c = self.clients[i];
                self.names.remove(i);
                self.clients.remove(i);
                let mut ack = String::from_str("Disconnected MCP server: ");
                ack.append(name);
                Ok((c, ack))
            },
        }
    }

    /// Routes `tools/list` to the named client.
    pub fn list_tools(&mut self, name: &str) -> (r: Result<String, ClientError>)
        requires
            old(self).wf(),
            old(self)@.contains_key(name@) && old(self)@[name@].phase is Ready ==> old(
                self,
            )@[name@].can_issue(),
        ensures
            final(self).wf(),
            registry_op_post(old(self)@, final(self)@, r, name@, "tools/list"@, None),
    {
        let key = String::from_str(name);
        match self.find(&key) {
            None => Err(ClientError::NotConnected),
            Some(i) => {
                proof {
                    lemma_entry(self.names@, self.clients@, i as int);
                }
                let mut c = self.clients[i];
                let r = c.list_tools();
                proof {
                    lemma_update_view(self.names@, self.clients@, i as int, c);
                    lemma_entry(self.names@, self.clients@.update(i as int, c), i as int);
                }
                self.clients[i] = c;
                r
            },
        }
    }

    /// Routes `tools/call` for one tool and its arguments (already written in
    /// JSON form) to the named client.
    pub fn call_tool(&mut self, name: &str, tool: &str, arguments_json: &str) -> (r: Result<
        String,
        ClientError,
    >)
        requires
            old(self).wf(),
            old(self)@.contains_key(name@) && old(self)@[name@].phase is Ready ==> old(
                self,
            )@[name@].can_issue(),
        ensures
            final(self).wf(),
            registry_op_post(
                old(self)@,
                final(self)@,
                r,
                name@,
                "tools/call"@,
                Some(crate::client::call_tool_params(tool@, arguments_json@)),
            ),
    {
        let key = String::from_str(name);
        match self.find(&key) {
            None => Err(ClientError::NotConnected),
            Some(i) => {
                proof {
                    lemma_entry(self.names@, self.clients@, i as int);
                }
                let mut c = self.clients[i];
                let r = c.call_tool(tool, arguments_json);
                proof {
                    lemma_update_view(self.names@, self.clients@, i as int, c);
                    lemma_entry(self.names@, self.clients@.update(i as int, c), i as int);
                }
                self.clients[i] = c;
                r
            },
        }
    }

    /// Routes `resources/list` to the named client.
    pub fn list_resources(&mut self, name: &str) -> (r: Result<String, ClientError>)
        requires
            old(self).wf(),
            old(self)@.contains_key(name@) && old(self)@[name@].phase is Ready ==> old(
                self,
            )@[name@].can_issue(),
        ensures
            final(self).wf(),
            registry_op_post(old(self)@, final(self)@, r, name@, "resources/list"@, None),
    {
        let key = String::from_str(name);
        match self.find(&key) {
            None => Err(ClientError::NotConnected),
            Some(i) => {
                proof {
                    lemma_entry(self.names@, self.clients@, i as int);
                }
                let mut c = self.clients[i];
                let r = c.list_resources();
                proof {
                    lemma_update_view(self.names@, self.clients@, i as int, c);
                    lemma_entry(self.names@, self.clients@.update(i as int, c), i as int);
                }
                self.clients[i] = c;
                r
            },
        }
    }

    /// Routes `resources/read` for one resource to the named client.
    pub fn read_resource(&mut self, name: &str, uri: &str) -> (r: Result<String, ClientError>)
        requires
            old(self).wf(),
            old(self)@.contains_key(name@) && old(self)@[name@].phase is Ready ==> old(
                self,
            )@[name@].can_issue(),
        ensures
            final(self).wf(),
            registry_op_post(
                old(self)@,
                final(self)@,
                r,
                name@,
                "resources/read"@,
                Some(crate::client::read_resource_params(uri@)),
            ),
    {
        let key = String::from_str(name);
        match self.find(&key) {
            None => Err(ClientError::NotConnected),
            Some(i) => {
                proof {
                    lemma_entry(self.names@, self.clients@, i as int);
                }
                let mut c = self.clients[i];
                let r = c.read_resource(uri);
                proof {
                    lemma_update_view(self.names@, self.clients@, i as int, c);
                    lemma_entry(self.names@, self.clients@.update(i as int, c), i as int);
                }
                self.clients[i] = c;
                r
            },
        }
    }

    /// A snapshot of the connected names. Order carries no meaning.
    pub fn list_connected(&self) -> (r: Vec<String>)
        requires
            self.wf(),
        ensures
            r@.len() == self.names@.len(),
            forall|i: int| 0 <= i < r@.len() ==> r@[i]@ == self.names@[i]@ && self@.contains_key(
                r@[i]@,
            ),
            forall|k: Seq<char>| self@.contains_key(k) ==> exists|i: int|
                0 <= i < r@.len() && r@[i]@ == k,
    {
        let mut r: Vec<String> = Vec::new();
        let n = self.names.len();
        let mut i: usize = 0;
        while i < n
            invariant
                n == self.names@.len(),
                self.wf(),
                i <= n,
                r@.len() == i,
                forall|j: int| 0 <= j < i ==> r@[j]@ == self.names@[j]@,
            decreases n - i,
        {
            r.push(self.names[i].clone());
            i = i + 1;
        }
        proof {
            assert forall|j: int| 0 <= j < r@.len() implies r@[j]@ == self.names@[j]@
                && self@.contains_key(r@[j]@) by {
                lemma_entry(self.names@, self.clients@, j);
            }
            assert forall|k: Seq<char>| self@.contains_key(k) implies exists|j: int|
                0 <= j < r@.len() && r@[j]@ == k by {
                let a = choose|a: int| 0 <= a < self.names@.len() && self.names@[a]@ == k;
                assert(r@[a]@ == k);
            }
        }
        r
    }
}

} // verus!
