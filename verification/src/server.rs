//! The reactor's connection table.
//!
//! The reactor owns a mapping from connection identifier to [`Connection`],
//! and a monotonically increasing identifier counter seeded above the
//! reserved listener identifier. An identifier is allocated once per accepted
//! connection and never reused while the process lives, so no two
//! simultaneously live connections share one. A connection is present in the
//! table iff it is not yet fully closed; removal happens exactly when a
//! handled event leaves it closed.
//!
//! The reactor's I/O shell takes a connection out of the table to handle an
//! event for it (events for one connection are handled strictly
//! sequentially), drives it through the pump steps of [`crate::conn`], and
//! hands it back; [`TlsServer::finish_conn_event`] then keeps it or drops it.

use vstd::prelude::*;
use std::collections::HashMap;
use crate::conn::{Connection, ReadOutcome, WriteOutcome, finish_step, read_step, write_step};

verus! {

broadcast use vstd::std_specs::hash::group_hash_axioms;

/// The poller token reserved for the listening socket.
pub const LISTENER_TOKEN: u64 = 0;

/// The first identifier handed to an accepted connection; above the
/// reserved listener identifier.
pub const FIRST_CONNECTION_TOKEN: u64 = 2;

/// The connection table and the identifier counter, owned exclusively by
/// the reactor loop.
pub struct TlsServer {
    /// Live connections, keyed by their identifier.
    pub connections: HashMap<u64, Connection>,
    /// The next identifier to hand out; never decreases.
    pub next_id: u64,
}

/// How the table settles after an event was handled for `token`: a closed
/// connection is dropped (the sole destructor trigger), any other goes back
/// in under its identifier.
pub open spec fn settle(m: Map<u64, Connection>, token: u64, c: Connection) -> Map<
    u64,
    Connection,
> {
    if c.closed {
        m
    } else {
        m.insert(token, c)
    }
}

impl TlsServer {
    /// The table invariant: every key lies strictly between the listener
    /// identifier and the counter, and each entry is a well-formed
    /// connection stored under its own identifier.
    pub open spec fn wf(self) -> bool {
        &&& FIRST_CONNECTION_TOKEN <= self.next_id
        &&& forall|t: u64| #[trigger]
            self.connections@.contains_key(t) ==> LISTENER_TOKEN < t < self.next_id
        &&& forall|t: u64| #[trigger]
            self.connections@.contains_key(t) ==> self.connections@[t].id == t
                && self.connections@[t].wf()
    }

    /// A fresh server: no connections, counter at its seed.
    pub fn new() -> (s: TlsServer)
        ensures
            s.wf(),
            s.connections@ == Map::<u64, Connection>::empty(),
            s.next_id == FIRST_CONNECTION_TOKEN,
    {
        TlsServer { connections: HashMap::new(), next_id: FIRST_CONNECTION_TOKEN }
    }

    /// Record one accepted connection: allocate a fresh identifier, insert
    /// an open connection under it, and return it for poller registration.
    /// `None` only when the identifier space is exhausted.
    pub fn accept(&mut self) -> (token: Option<u64>)
        ensures
            match token {
                Some(t) => {
                    &&& t == old(self).next_id
                    &&& final(self).next_id == old(self).next_id + 1
                    &&& final(self).connections@ == old(self).connections@.insert(
                        t,
                        Connection { id: t, closing: false, closed: false },
                    )
                    &&& old(self).wf() ==> final(self).wf() && !old(
                        self,
                    ).connections@.contains_key(t)
                },
                None => old(self).next_id == u64::MAX && final(self).next_id == old(self).next_id
                    && final(self).connections@ == old(self).connections@,
            },
    {
        if self.next_id == u64::MAX {
            return None;
        }
        let token = self.next_id;
        self.next_id = self.next_id + 1;
        let c = Connection::new(token);
        self.connections.insert(token, c);
        Some(token)
    }

    /// Take the connection for an event's identifier out of the table, to
    /// be driven through the pumps; an unknown identifier is a no-op.
    pub fn take_conn(&mut self, token: u64) -> (c: Option<Connection>)
        ensures
            final(self).next_id == old(self).next_id,
            match c {
                Some(cc) => {
                    &&& old(self).connections@.contains_key(token)
                    &&& cc == old(self).connections@[token]
                    &&& final(self).connections@ == old(self).connections@.remove(token)
                },
                None => {
                    &&& !old(self).connections@.contains_key(token)
                    &&& final(self).connections@ == old(self).connections@
                },
            },
            old(self).wf() ==> final(self).wf() && (match c {
                Some(cc) => cc.wf() && cc.id == token && LISTENER_TOKEN < token < old(
                    self,
                ).next_id,
                None => true,
            }),
    {
        let r = self.connections.remove(&token);
        proof {
            if r is None {
                assert(old(self).connections@.remove(token) =~= old(self).connections@);
            }
        }
        r
    }

    /// Put a connection back after its event was handled, unless the event
    /// left it closed: a closed connection is dropped, which releases its
    /// resources. Removal from the table is the sole destructor trigger.
    pub fn finish_conn_event(&mut self, token: u64, c: Connection)
        ensures
            final(self).next_id == old(self).next_id,
            final(self).connections@ == settle(old(self).connections@, token, c),
            old(self).wf() && c.wf() && c.id == token && LISTENER_TOKEN < token < old(self).next_id
                ==> final(self).wf(),
    {
        if !c.is_closed() {
            self.connections.insert(token, c);
        }
    }

    /// Whether an identifier currently has a live connection.
    pub fn contains(&self, token: u64) -> (b: bool)
        ensures
            b == self.connections@.contains_key(token),
    {
        self.connections.contains_key(&token)
    }

    /// The number of live connections.
    pub fn len(&self) -> (n: usize)
        ensures
            n == self.connections@.len(),
    {
        self.connections.len()
    }
}

/// Identifiers are unique for the process lifetime while connections are
/// live: distinct table entries carry distinct identifiers, and the next
/// identifier to be handed out is not in use.
pub proof fn lemma_identifiers_unique(s: TlsServer)
    requires
        s.wf(),
    ensures
        !s.connections@.contains_key(s.next_id),
        forall|a: u64, b: u64|
            s.connections@.contains_key(a) && s.connections@.contains_key(b) && a != b
                ==> #[trigger] s.connections@[a].id != #[trigger] s.connections@[b].id,
{
}

/// Every live connection of a well-formed server satisfies the lifecycle
/// invariant: `closed` implies `closing`, at every observation point.
pub proof fn lemma_live_connections_are_lifecycle_sound(s: TlsServer, t: u64)
    requires
        s.wf(),
        s.connections@.contains_key(t),
    ensures
        s.connections@[t].closed ==> s.connections@[t].closing,
{
}

/// A tick whose read and write pumps both would-block leaves an open
/// connection exactly as it was, still in the table under its identifier.
pub proof fn lemma_would_block_tick_keeps_connection(
    m: Map<u64, Connection>,
    token: u64,
    c: Connection,
    wants_write: bool,
)
    requires
        c.wf(),
        !c.closing,
    ensures
        ({
            let end = finish_step(
                write_step(read_step(c, ReadOutcome::WouldBlock), WriteOutcome::WouldBlock),
                wants_write,
            );
            &&& end == c
            &&& settle(m, token, end).contains_key(token)
            &&& settle(m, token, end)[token] == c
        }),
{
    let end = finish_step(
        write_step(read_step(c, ReadOutcome::WouldBlock), WriteOutcome::WouldBlock),
        wants_write,
    );
    assert(read_step(c, ReadOutcome::WouldBlock) == c);
    assert(write_step(c, WriteOutcome::WouldBlock) == c);
    assert(end == c);
    assert(settle(m, token, end) == m.insert(token, c));
}

/// Once `closing` is true, the entry leaves the table only after the TLS
/// session reports no further write-pending bytes; and it never leaves the
/// table before `closing` was requested.
pub proof fn lemma_removal_needs_flushed_output(
    m: Map<u64, Connection>,
    token: u64,
    c: Connection,
    wants_write: bool,
)
    requires
        !m.contains_key(token),
        !c.closed,
    ensures
        !settle(m, token, finish_step(c, wants_write)).contains_key(token) <==> c.closing
            && !wants_write,
{
}

/// The private key preferred at startup: the first PKCS8-encoded key when
/// one is present, otherwise the first legacy RSA-encoded key; none only
/// when the key file yielded neither.
pub fn select_private_key(mut pkcs8: Vec<Vec<u8>>, mut rsa: Vec<Vec<u8>>) -> (key: Option<Vec<u8>>)
    ensures
        key is Some <==> pkcs8@.len() > 0 || rsa@.len() > 0,
        match key {
            Some(k) => if pkcs8@.len() > 0 {
                k@ == pkcs8@[0]@
            } else {
                rsa@.len() > 0 && k@ == rsa@[0]@
            },
            None => true,
        },
{
    if pkcs8.len() > 0 {
        Some(pkcs8.remove(0))
    } else if rsa.len() > 0 {
        Some(rsa.remove(0))
    } else {
        None
    }
}

} // verus!
