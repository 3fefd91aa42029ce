//! The per-connection state machine.
//!
//! A connection owns two lifecycle flags. `closing` means a close has been
//! requested (peer EOF, an I/O or protocol failure, or a response fully
//! queued) but the TLS session may still hold buffered bytes to flush.
//! `closed` is terminal: the transport has been shut down. The transition is
//! monotone: `Open -> Closing -> Closed`, never back.
//!
//! The reactor thread drives the connection by performing the socket and TLS
//! calls itself and reporting each outcome here as a plain value; every
//! decision (which flag to set, whether to shut down or to re-arm the
//! poller registration, and with which interest set) is made and verified in
//! this module.

use vstd::prelude::*;

verus! {

/// Outcome of one attempt to read ciphertext from the transport into the
/// TLS session. `Bytes(0)` means the peer half-closed the transport.
#[derive(Clone, Copy, PartialEq, Eq, Structural, Debug)]
pub enum ReadOutcome {
    /// No data available right now; not an error.
    WouldBlock,
    /// Any transport failure other than would-block.
    Failed,
    /// The number of ciphertext bytes read; zero is peer EOF.
    Bytes(usize),
}

/// Outcome of one attempt to write buffered ciphertext to the transport.
#[derive(Clone, Copy, PartialEq, Eq, Structural, Debug)]
pub enum WriteOutcome {
    /// No buffer space right now; not an error.
    WouldBlock,
    /// Any transport failure other than would-block.
    Failed,
    /// The number of ciphertext bytes written; partial writes are expected.
    Written(usize),
}

/// The readiness interest a connection asks the poller for.
#[derive(Clone, Copy, PartialEq, Eq, Structural, Debug)]
pub enum Interest {
    Read,
    Write,
    Both,
}

/// What the reactor must do with the transport after an event was handled.
#[derive(Clone, Copy, PartialEq, Eq, Structural, Debug)]
pub enum EndAction {
    /// Shut the transport down; the connection is now closed.
    Shutdown,
    /// Re-register with the poller (one-shot semantics require this on
    /// every event) for the given interest set.
    Reregister(Interest),
}

/// One accepted, TLS-wrapped peer stream: its identifier and lifecycle
/// flags. The socket and the TLS session live with the reactor's I/O shell,
/// which reports their outcomes to the methods below.
#[derive(Clone, Copy, PartialEq, Eq, Structural, Debug)]
pub struct Connection {
    /// Immutable identifier, assigned at acceptance, unique while live.
    pub id: u64,
    /// A close has been requested; buffered TLS output may remain.
    pub closing: bool,
    /// Terminal: the transport has been shut down.
    pub closed: bool,
}

impl Connection {
    /// The lifecycle invariant: a closed connection was first closing.
    pub open spec fn wf(self) -> bool {
        self.closed ==> self.closing
    }
}

/// How the read pump changes a connection, given the transport's outcome:
/// would-block changes nothing; a failure or a zero-byte read (peer EOF)
/// requests a close; a successful read changes nothing by itself.
pub open spec fn read_step(c: Connection, r: ReadOutcome) -> Connection {
    match r {
        ReadOutcome::WouldBlock => c,
        ReadOutcome::Failed => Connection { closing: true, ..c },
        ReadOutcome::Bytes(n) => if n == 0 {
            Connection { closing: true, ..c }
        } else {
            c
        },
    }
}

/// Whether a read outcome yields new ciphertext that must be processed.
pub open spec fn read_yields_data(r: ReadOutcome) -> bool {
    match r {
        ReadOutcome::Bytes(n) => n > 0,
        _ => false,
    }
}

/// How processing buffered TLS records changes a connection: a protocol
/// failure (malformed TLS data) requests a close; success changes nothing.
pub open spec fn process_step(c: Connection, ok: bool) -> Connection {
    if ok {
        c
    } else {
        Connection { closing: true, ..c }
    }
}

/// How the write pump changes a connection: only a failure other than
/// would-block requests a close; partial writes are left to the TLS
/// session's own buffering.
pub open spec fn write_step(c: Connection, r: WriteOutcome) -> Connection {
    match r {
        WriteOutcome::Failed => Connection { closing: true, ..c },
        _ => c,
    }
}

/// How dispatching a response changes a connection: the server serves one
/// request per connection, so a queued response always requests a close.
pub open spec fn dispatch_step(c: Connection) -> Connection {
    Connection { closing: true, ..c }
}

/// How a handled event ends: if a close was requested and the TLS session
/// has no more bytes to flush, the connection becomes closed; otherwise it
/// is unchanged.
pub open spec fn finish_step(c: Connection, wants_write: bool) -> Connection {
    if c.closing && !wants_write {
        Connection { closed: true, ..c }
    } else {
        c
    }
}

/// The interest set an open connection asks for, from the TLS session's
/// advertised needs; at least one direction is always requested.
pub open spec fn interest_for(wants_read: bool, wants_write: bool) -> Interest {
    if wants_read && wants_write {
        Interest::Both
    } else if wants_write {
        Interest::Write
    } else {
        Interest::Read
    }
}

impl Connection {
    /// A fresh connection: open, with the identifier it will keep for life.
    pub fn new(id: u64) -> (c: Connection)
        ensures
            c == (Connection { id: id, closing: false, closed: false }),
    {
        Connection { id, closing: false, closed: false }
    }

    /// Apply the outcome of reading ciphertext from the transport, and say
    /// whether newly read records must now be processed.
    pub fn apply_read_outcome(&mut self, r: &ReadOutcome) -> (proceed: bool)
        ensures
            *final(self) == read_step(*old(self), *r),
            proceed == read_yields_data(*r),
    {
        match r {
            ReadOutcome::WouldBlock => false,
            ReadOutcome::Failed => {
                self.closing = true;
                false
            },
            ReadOutcome::Bytes(n) => {
                if *n == 0 {
                    self.closing = true;
                    false
                } else {
                    true
                }
            },
        }
    }

    /// Apply the outcome of processing buffered TLS records.
    pub fn apply_process_outcome(&mut self, ok: bool)
        ensures
            *final(self) == process_step(*old(self), ok),
    {
        if !ok {
            self.closing = true;
        }
    }

    /// Apply the outcome of writing buffered ciphertext to the transport.
    pub fn apply_write_outcome(&mut self, r: &WriteOutcome)
        ensures
            *final(self) == write_step(*old(self), *r),
    {
        match r {
            WriteOutcome::Failed => {
                self.closing = true;
            },
            _ => {},
        }
    }

    /// Record that a response has been queued into the TLS session; the
    /// single-request policy then requires a graceful close.
    pub fn mark_response_queued(&mut self)
        ensures
            *final(self) == dispatch_step(*old(self)),
    {
        self.closing = true;
    }

    /// End one handled event: decide between transport shutdown and
    /// re-registration, from the TLS session's advertised needs.
    pub fn finish_ready(&mut self, wants_read: bool, wants_write: bool) -> (act: EndAction)
        ensures
            *final(self) == finish_step(*old(self), wants_write),
            act == if old(self).closing && !wants_write {
                EndAction::Shutdown
            } else {
                EndAction::Reregister(interest_for(wants_read, wants_write))
            },
    {
        if self.closing && !wants_write {
            self.closed = true;
            EndAction::Shutdown
        } else {
            EndAction::Reregister(Self::event_set(wants_read, wants_write))
        }
    }

    /// The interest set to register with, from the TLS session's needs.
    pub fn event_set(wants_read: bool, wants_write: bool) -> (i: Interest)
        ensures
            i == interest_for(wants_read, wants_write),
    {
        if wants_read && wants_write {
            Interest::Both
        } else if wants_write {
            Interest::Write
        } else {
            Interest::Read
        }
    }

    /// Whether the transport has been shut down; the reactor removes the
    /// connection from its table exactly when this holds.
    pub fn is_closed(&self) -> (b: bool)
        ensures
            b == self.closed,
    {
        self.closed
    }

    /// Whether a close has been requested.
    pub fn is_closing(&self) -> (b: bool)
        ensures
            b == self.closing,
    {
        self.closing
    }

    /// The identifier assigned at acceptance.
    pub fn token(&self) -> (t: u64)
        ensures
            t == self.id,
    {
        self.id
    }
}

/// A would-block outcome from the read pump or the write pump changes
/// nothing: in particular it never requests a close.
pub proof fn lemma_would_block_is_harmless(c: Connection)
    ensures
        read_step(c, ReadOutcome::WouldBlock) == c,
        write_step(c, WriteOutcome::WouldBlock) == c,
{
}

/// A zero-byte read (peer EOF) requests a close within the same pump
/// invocation, and the identifier survives.
pub proof fn lemma_eof_requests_close(c: Connection)
    ensures
        read_step(c, ReadOutcome::Bytes(0)).closing,
        read_step(c, ReadOutcome::Bytes(0)).id == c.id,
{
}

/// A queued response requests a close, and the close completes as soon as
/// the TLS session reports its output flushed: no connection stays open
/// past one request/response cycle.
pub proof fn lemma_response_requests_close(c: Connection)
    ensures
        dispatch_step(c).closing,
        finish_step(dispatch_step(c), false).closed,
{
}

/// Every step preserves the lifecycle invariant `closed ==> closing`.
pub proof fn lemma_steps_preserve_wf(
    c: Connection,
    r: ReadOutcome,
    ok: bool,
    w: WriteOutcome,
    wants_write: bool,
)
    requires
        c.wf(),
    ensures
        read_step(c, r).wf(),
        process_step(c, ok).wf(),
        write_step(c, w).wf(),
        dispatch_step(c).wf(),
        finish_step(c, wants_write).wf(),
{
}

/// No resurrection: once a close is requested it stays requested, once the
/// transport is shut down it stays shut down, and the identifier never
/// changes, whatever outcomes follow.
pub proof fn lemma_lifecycle_is_monotone(
    c: Connection,
    r: ReadOutcome,
    ok: bool,
    w: WriteOutcome,
    wants_write: bool,
)
    ensures
        c.closing ==> read_step(c, r).closing && process_step(c, ok).closing && write_step(
            c,
            w,
        ).closing && dispatch_step(c).closing && finish_step(c, wants_write).closing,
        c.closed ==> read_step(c, r).closed && process_step(c, ok).closed && write_step(
            c,
            w,
        ).closed && dispatch_step(c).closed && finish_step(c, wants_write).closed,
        read_step(c, r).id == c.id && process_step(c, ok).id == c.id && write_step(c, w).id == c.id
            && dispatch_step(c).id == c.id && finish_step(c, wants_write).id == c.id,
{
}

/// A live connection becomes closed only while the TLS session reports no
/// further bytes to flush, and only after a close was requested: buffered
/// output is always drained before transport shutdown.
pub proof fn lemma_shutdown_needs_flushed_session(c: Connection, wants_write: bool)
    requires
        !c.closed,
    ensures
        finish_step(c, wants_write).closed ==> !wants_write && c.closing,
{
}

/// While `closing` with buffered output still pending, an event ends in
/// re-registration, not shutdown: the next writable readiness event resumes
/// flushing before the transport can be shut down.
pub proof fn lemma_pending_output_defers_shutdown(c: Connection)
    ensures
        finish_step(c, true) == c,
{
}

} // verus!
