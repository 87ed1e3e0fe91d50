//! The registry of the HTTP servers a program creates: each server's
//! identifier, port, routes and whether it is listening, with the rules by
//! which servers are created, given routes, started, stopped and listed.
//! The sockets and request queues themselves are the handle `H` of each
//! entry, which the registry carries without looking inside.
use vstd::prelude::*;
use vstd::string::StringExecFns;
use crate::text::{decimal, push_decimal, str_eq};
use crate::unicode::{to_uppercase, unicode_uppercase};

verus! {

/// One server: its identifier, port, routes (method and path), whether it
/// listens, and the handle of its running parts.
pub struct ServerEntry<H> {
    pub id: String,
    pub port: u16,
    pub routes: Vec<(String, String)>,
    pub listening: bool,
    pub handle: H,
}

pub struct SServer {
    pub id: Seq<char>,
    pub port: u16,
    pub routes: Seq<(Seq<char>, Seq<char>)>,
    pub listening: bool,
}

impl<H> View for ServerEntry<H> {
    type V = SServer;

    open spec fn view(&self) -> SServer {
        SServer {
            id: self.id@,
            port: self.port,
            routes: self.routes@.map_values(|r: (String, String)| (r.0@, r.1@)),
            listening: self.listening,
        }
    }
}

/// The servers of a program.
pub struct ServerRegistry<H> {
    pub servers: Vec<ServerEntry<H>>,
}

pub open spec fn servers_view<H>(v: Seq<ServerEntry<H>>) -> Seq<SServer> {
    v.map_values(|e: ServerEntry<H>| e@)
}

impl<H> View for ServerRegistry<H> {
    type V = Seq<SServer>;

    open spec fn view(&self) -> Seq<SServer> {
        servers_view(self.servers@)
    }
}

/// The handles of the servers, in order.
pub open spec fn handles<H>(v: Seq<ServerEntry<H>>) -> Seq<H> {
    v.map_values(|e: ServerEntry<H>| e.handle)
}

/// No two servers share an identifier or a port.
pub open spec fn servers_wf(s: Seq<SServer>) -> bool {
    &&& forall|i: int, j: int| 0 <= i < j < s.len() ==> (#[trigger] s[i]).id != (#[trigger] s[j]).id
    &&& forall|i: int, j: int| 0 <= i < j < s.len() ==> (#[trigger] s[i]).port != (#[trigger] s[j]).port
}

/// Some server has this identifier.
pub open spec fn has_server(s: Seq<SServer>, id: Seq<char>) -> bool {
    exists|i: int| 0 <= i < s.len() && (#[trigger] s[i]).id == id
}

/// Where the server with this identifier stands.
pub open spec fn server_position(s: Seq<SServer>, id: Seq<char>) -> int {
    choose|i: int| 0 <= i < s.len() && (#[trigger] s[i]).id == id
}

/// Some server has this port.
pub open spec fn port_taken(s: Seq<SServer>, port: u16) -> bool {
    exists|i: int| 0 <= i < s.len() && (#[trigger] s[i]).port == port
}

/// The servers after a new server is created on `port` under `id`: it
/// replaces a server with the same identifier, or comes last.
pub open spec fn created(s: Seq<SServer>, id: Seq<char>, port: u16) -> Seq<SServer> {
    let fresh = SServer { id, port, routes: Seq::empty(), listening: false };
    if has_server(s, id) {
        s.update(server_position(s, id), fresh)
    } else {
        s.push(fresh)
    }
}

/// At most one server per port: once a server is created on a port, the
/// port is taken, so creating another server on it fails and leaves the
/// servers as they are (see `create`), whatever identifier the new server
/// would have had.
pub proof fn lemma_port_taken_after_create(s: Seq<SServer>, id: Seq<char>, port: u16)
    requires
        servers_wf(s),
    ensures
        port_taken(created(s, id, port), port),
{
    let t = created(s, id, port);
    if has_server(s, id) {
        let i = server_position(s, id);
        assert(t[i].port == port);
    } else {
        assert(t[s.len() as int].port == port);
    }
}

pub open spec fn not_found_message(id: Seq<char>) -> Seq<char> {
    "Server '"@ + id + "' not found"@
}

pub open spec fn port_in_use_message(port: u16) -> Seq<char> {
    "A server on port "@ + decimal(port as nat) + " already exists"@
}

pub open spec fn already_listening_message(id: Seq<char>) -> Seq<char> {
    "Server '"@ + id + "' is already listening"@
}

/// How a server is listed: `id (port: p, listening: true|false)`.
pub open spec fn server_line(s: SServer) -> Seq<char> {
    s.id + " (port: "@ + decimal(s.port as nat) + ", listening: "@ + (if s.listening { "true"@ } else { "false"@ })
        + ")"@
}

fn not_found(id: &str) -> (r: String)
    ensures
        r@ == not_found_message(id@),
{
    let mut m = String::from_str("Server '");
    m.append(id);
    m.append("' not found");
    m
}

proof fn lemma_position(s: Seq<SServer>, id: Seq<char>, i: int)
    requires
        servers_wf(s),
        0 <= i < s.len(),
        s[i].id == id,
    ensures
        has_server(s, id),
        server_position(s, id) == i,
{
    let p = server_position(s, id);
    if p != i {
        if p < i {
            assert(s[p].id != s[i].id);
        } else {
            assert(s[i].id != s[p].id);
        }
    }
}

impl<H> ServerRegistry<H> {
    /// No servers.
    pub fn new() -> (r: Self)
        ensures
            r@ == Seq::<SServer>::empty(),
    {
        ServerRegistry { servers: Vec::new() }
    }

    /// Where the server with this identifier stands, if there is one.
    fn find(&self, id: &str) -> (r: Option<usize>)
        requires
            servers_wf(self@),
        ensures
            match r {
                Some(i) => i < self@.len() && has_server(self@, id@) && server_position(self@, id@) == i,
                None => !has_server(self@, id@),
            },
    {
        let mut i: usize = 0;
        while i < self.servers.len()
            invariant
                i <= self.servers.len(),
                servers_wf(self@),
                forall|k: int| 0 <= k < i ==> (#[trigger] self@[k]).id != id@,
            decreases self.servers.len() - i,
        {
            assert(self@[i as int] == self.servers@[i as int]@);
            if str_eq(self.servers[i].id.as_str(), id) {
                proof {
                    lemma_position(self@, id@, i as int);
                }
                return Some(i);
            }
            i = i + 1;
        }
        None
    }

    /// Creates a server on a port under an identifier. Fails when some
    /// server already has the port; a server with the same identifier is
    /// replaced.
    pub fn create(&mut self, id: String, port: u16, handle: H) -> (r: Result<(), String>)
        requires
            servers_wf(old(self)@),
        ensures
            servers_wf(final(self)@),
            match r {
                Err(m) => port_taken(old(self)@, port) && m@ == port_in_use_message(port)
                    && final(self).servers@ == old(self).servers@,
                Ok(_) => !port_taken(old(self)@, port) && final(self)@ == created(old(self)@, id@, port) && handles(final(self).servers@) == if has_server(old(self)@, id@) {
                    handles(old(self).servers@).update(server_position(old(self)@, id@), handle)
                } else {
                    handles(old(self).servers@).push(handle)
                },
            },
    {
        let ghost before = self@;
        let mut k: usize = 0;
        while k < self.servers.len()
            invariant
                k <= self.servers.len(),
                self@ == before,
                servers_wf(before),
                forall|j: int| 0 <= j < k ==> (#[trigger] before[j]).port != port,
            decreases self.servers.len() - k,
        {
            assert(before[k as int] == self.servers@[k as int]@);
            if self.servers[k].port == port {
                let mut m = String::from_str("A server on port ");
                push_decimal(&mut m, port as usize);
                m.append(" already exists");
                return Err(m);
            }
            k = k + 1;
        }
        let entry = ServerEntry { id, port, routes: Vec::new(), listening: false, handle };
        let ghost fresh = entry@;
        assert(entry@.routes =~= Seq::<(Seq<char>, Seq<char>)>::empty());
        match self.find(entry.id.as_str()) {
            Some(i) => {
                let ghost hs = handles(self.servers@);
                self.servers.set(i, entry);
                assert(self@ =~= before.update(i as int, fresh));
                assert(handles(self.servers@) =~= hs.update(i as int, handle));
                assert forall|a: int, b: int| 0 <= a < b < self@.len() implies (#[trigger] self@[a]).id != (#[trigger] self@[b]).id by {
                    if a == i as int {
                        assert(before[b].id != before[i as int].id);
                    } else if b == i as int {
                        assert(before[a].id != before[i as int].id);
                    }
                }
                assert forall|a: int, b: int| 0 <= a < b < self@.len() implies (#[trigger] self@[a]).port != (#[trigger] self@[b]).port by {
                    if a == i as int {
                        assert(before[b].port != port);
                    } else if b == i as int {
                        assert(before[a].port != port);
                    }
                }
            },
            None => {
                let ghost hs = handles(self.servers@);
                self.servers.push(entry);
                assert(self@ =~= before.push(fresh));
                assert(handles(self.servers@) =~= hs.push(handle));
                assert forall|a: int, b: int| 0 <= a < b < self@.len() implies (#[trigger] self@[a]).id != (#[trigger] self@[b]).id by {
                    if b == before.len() {
                        assert(before[a].id != fresh.id);
                    }
                }
                assert forall|a: int, b: int| 0 <= a < b < self@.len() implies (#[trigger] self@[a]).port != (#[trigger] self@[b]).port by {
                    if b == before.len() {
                        assert(before[a].port != port);
                    }
                }
            },
        }
        Ok(())
    }

    /// Adds a route (its method in upper case, and its path) to a server.
    pub fn route(&mut self, id: &str, method: &str, path: String) -> (r: Result<(), String>)
        requires
            servers_wf(old(self)@),
        ensures
            servers_wf(final(self)@),
            match r {
                Err(m) => !has_server(old(self)@, id@) && m@ == not_found_message(id@)
                    && final(self).servers@ == old(self).servers@,
                Ok(_) => has_server(old(self)@, id@) && handles(final(self).servers@) == handles(old(self).servers@) && {
                    let i = server_position(old(self)@, id@);
                    let s = old(self)@[i];
                    final(self)@ == old(self)@.update(
                        i,
                        SServer { routes: s.routes.push((unicode_uppercase(method@), path@)), ..s },
                    )
                },
            },
    {
        let ghost before = self@;
        match self.find(id) {
            None => Err(not_found(id)),
            Some(i) => {
                let m = to_uppercase(method);
                let ghost hs = handles(self.servers@);
                let mut entry = self.servers.remove(i);
                let ghost old_routes = entry@.routes;
                entry.routes.push((m, path));
                assert(entry@.routes =~= old_routes.push((unicode_uppercase(method@), path@)));
                self.servers.insert(i, entry);
                assert(self@ =~= before.update(i as int, entry@));
                assert(handles(self.servers@) =~= hs);
                Ok(())
            },
        }
    }

    /// Marks a server as listening and gives its port. Fails when there is
    /// no such server or it already listens.
    pub fn start_listening(&mut self, id: &str) -> (r: Result<u16, String>)
        requires
            servers_wf(old(self)@),
        ensures
            servers_wf(final(self)@),
            match r {
                Err(m) => final(self).servers@ == old(self).servers@ && if has_server(old(self)@, id@) {
                    old(self)@[server_position(old(self)@, id@)].listening && m@ == already_listening_message(id@)
                } else {
                    m@ == not_found_message(id@)
                },
                Ok(port) => has_server(old(self)@, id@) && handles(final(self).servers@) == handles(old(self).servers@) && {
                    let i = server_position(old(self)@, id@);
                    let s = old(self)@[i];
                    &&& !s.listening
                    &&& port == s.port
                    &&& final(self)@ == old(self)@.update(i, SServer { listening: true, ..s })
                },
            },
    {
        let ghost before = self@;
        match self.find(id) {
            None => Err(not_found(id)),
            Some(i) => {
                assert(before[i as int] == self.servers@[i as int]@);
                if self.servers[i].listening {
                    let mut m = String::from_str("Server '");
                    m.append(id);
                    m.append("' is already listening");
                    return Err(m);
                }
                let ghost hs = handles(self.servers@);
                let mut entry = self.servers.remove(i);
                entry.listening = true;
                let port = entry.port;
                self.servers.insert(i, entry);
                assert(self@ =~= before.update(i as int, entry@));
                assert(handles(self.servers@) =~= hs);
                Ok(port)
            },
        }
    }

    /// The handle of a server.
    pub fn handle(&self, id: &str) -> (r: Result<&H, String>)
        requires
            servers_wf(self@),
        ensures
            match r {
                Err(m) => !has_server(self@, id@) && m@ == not_found_message(id@),
                Ok(h) => has_server(self@, id@) && *h == self.servers@[server_position(self@, id@)].handle,
            },
    {
        match self.find(id) {
            None => Err(not_found(id)),
            Some(i) => Ok(&self.servers[i].handle),
        }
    }

    /// Removes a server and gives back its entry.
    pub fn stop(&mut self, id: &str) -> (r: Result<ServerEntry<H>, String>)
        requires
            servers_wf(old(self)@),
        ensures
            servers_wf(final(self)@),
            match r {
                Err(m) => !has_server(old(self)@, id@) && m@ == not_found_message(id@)
                    && final(self).servers@ == old(self).servers@,
                Ok(e) => has_server(old(self)@, id@) && {
                    let i = server_position(old(self)@, id@);
                    &&& e@ == old(self)@[i]
                    &&& e.handle == old(self).servers@[i].handle
                    &&& final(self)@ == old(self)@.remove(i)
                    &&& handles(final(self).servers@) == handles(old(self).servers@).remove(i)
                },
            },
    {
        let ghost before = self@;
        match self.find(id) {
            None => Err(not_found(id)),
            Some(i) => {
                let ghost hs = handles(self.servers@);
                let e = self.servers.remove(i);
                assert(self@ =~= before.remove(i as int));
                assert(handles(self.servers@) =~= hs.remove(i as int));
                assert forall|a: int, b: int| 0 <= a < b < self@.len() implies (#[trigger] self@[a]).id != (#[trigger] self@[b]).id by {
                    let a2 = if a < i { a } else { a + 1 };
                    let b2 = if b < i { b } else { b + 1 };
                    assert(before[a2].id != before[b2].id);
                }
                assert forall|a: int, b: int| 0 <= a < b < self@.len() implies (#[trigger] self@[a]).port != (#[trigger] self@[b]).port by {
                    let a2 = if a < i { a } else { a + 1 };
                    let b2 = if b < i { b } else { b + 1 };
                    assert(before[a2].port != before[b2].port);
                }
                Ok(e)
            },
        }
    }

    /// One line per server: its identifier, port and whether it listens.
    pub fn list(&self) -> (r: Vec<String>)
        ensures
            r@.map_values(|t: String| t@) == self@.map_values(|s: SServer| server_line(s)),
    {
        let ghost all = self@.map_values(|s: SServer| server_line(s));
        let mut r: Vec<String> = Vec::new();
        let mut i: usize = 0;
        assert(r@.map_values(|t: String| t@) =~= all.take(0));
        while i < self.servers.len()
            invariant
                i <= self.servers.len(),
                all == self@.map_values(|s: SServer| server_line(s)),
                r@.map_values(|t: String| t@) == all.take(i as int),
            decreases self.servers.len() - i,
        {
            let s = &self.servers[i];
            assert(self@[i as int] == s@);
            let mut t = s.id.clone();
            t.append(" (port: ");
            push_decimal(&mut t, s.port as usize);
            t.append(", listening: ");
            if s.listening {
                t.append("true");
            } else {
                t.append("false");
            }
            t.append(")");
            assert(t@ == all[i as int]);
            let ghost before = r@.map_values(|q: String| q@);
            r.push(t);
            assert(r@.map_values(|q: String| q@) =~= before.push(all[i as int]));
            assert(all.take(i + 1) =~= all.take(i as int).push(all[i as int]));
            i = i + 1;
        }
        assert(all.take(self.servers.len() as int) =~= all);
        r
    }
}

} // verus!
