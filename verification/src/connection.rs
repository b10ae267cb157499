//! The managed transport endpoint between a service process and the broker.
//!
//! A `Connection` models the liveness side of one logical session: its state
//! (`Connecting`, `Ready`, `Draining`, `Closed`) and the bounded exponential
//! backoff applied between reconnect attempts. The actual socket work is the
//! host's: it drives this state machine with the events it observes
//! (connected, connect failed, transport lost) and obeys the delays and
//! re-announce obligations the machine returns.

use vstd::prelude::*;

use crate::envelope::Envelope;

verus! {

/// Liveness state of a connection.
#[derive(Clone, Copy, Debug, PartialEq, Eq, Structural)]
pub enum ConnState {
    /// Not yet (or no longer) attached to the broker; reconnect in progress.
    Connecting,
    /// Attached; envelopes may be sent and received.
    Ready,
    /// Shutting down: finishing in-flight work, accepting no new requests.
    Draining,
    /// Terminal: the session is over and will not be revived.
    Closed,
}

/// The reconnect delay after `attempt` consecutive failures: `base`
/// milliseconds doubled per failure, never above `cap`.
pub open spec fn backoff_spec(base: u64, cap: u64, attempt: u32) -> u64
    decreases attempt,
{
    if attempt == 0 {
        if base <= cap {
            base
        } else {
            cap
        }
    } else {
        let p = backoff_spec(base, cap, (attempt - 1) as u32);
        if p <= cap / 2 {
            (2 * p) as u64
        } else {
            cap
        }
    }
}

/// The backoff delay never exceeds its configured bound.
pub proof fn lemma_backoff_bounded(base: u64, cap: u64, attempt: u32)
    ensures
        backoff_spec(base, cap, attempt) <= cap,
    decreases attempt,
{
    if attempt > 0 {
        lemma_backoff_bounded(base, cap, (attempt - 1) as u32);
    }
}

/// One logical session between a process and the broker.
#[derive(Clone, Debug)]
pub struct Connection {
    /// Identity of this endpoint, as the broker knows it.
    pub conn_id: u64,
    /// Current liveness state.
    pub state: ConnState,
    /// Consecutive failed reconnect attempts since the last success.
    pub attempts: u32,
    /// Initial reconnect delay, in milliseconds.
    pub backoff_base: u64,
    /// Upper bound on the reconnect delay, in milliseconds.
    pub backoff_cap: u64,
    /// Envelopes enqueued for the transport to flush, oldest first.
    pub outbox: Vec<Envelope>,
}

impl Connection {
    /// Opens a new session record: connecting, with no failures yet.
    pub fn new(conn_id: u64, backoff_base: u64, backoff_cap: u64) -> (c: Connection)
        ensures
            c.conn_id == conn_id,
            c.state is Connecting,
            c.attempts == 0,
            c.backoff_base == backoff_base,
            c.backoff_cap == backoff_cap,
            c.outbox@ == Seq::<Envelope>::empty(),
    {
        Connection {
            conn_id,
            state: ConnState::Connecting,
            attempts: 0,
            backoff_base,
            backoff_cap,
            outbox: Vec::new(),
        }
    }

    /// Enqueues one envelope for sending, without blocking: appended to the
    /// outbox when the session is ready, handed back untouched when it is
    /// not, so the caller can fail the request rather than lose the envelope
    /// silently.
    pub fn send(&mut self, env: Envelope) -> (r: Result<(), Envelope>)
        ensures
            final(self).conn_id == old(self).conn_id,
            final(self).state == old(self).state,
            final(self).attempts == old(self).attempts,
            final(self).backoff_base == old(self).backoff_base,
            final(self).backoff_cap == old(self).backoff_cap,
            old(self).state is Ready ==> r is Ok && final(self).outbox@ == old(self).outbox@.push(
                env,
            ),
            !(old(self).state is Ready) ==> r == Err::<(), Envelope>(env) && final(self).outbox@
                == old(self).outbox@,
    {
        if matches!(self.state, ConnState::Ready) {
            self.outbox.push(env);
            Ok(())
        } else {
            Err(env)
        }
    }

    /// Hands the queued envelopes to the transport, oldest first, leaving the
    /// outbox empty.
    pub fn take_outbox(&mut self) -> (sent: Vec<Envelope>)
        ensures
            sent@ == old(self).outbox@,
            final(self).outbox@ == Seq::<Envelope>::empty(),
            final(self).conn_id == old(self).conn_id,
            final(self).state == old(self).state,
            final(self).attempts == old(self).attempts,
            final(self).backoff_base == old(self).backoff_base,
            final(self).backoff_cap == old(self).backoff_cap,
    {
        let mut sent: Vec<Envelope> = Vec::new();
        core::mem::swap(&mut sent, &mut self.outbox);
        sent
    }

    /// Whether envelopes may currently be enqueued on this session.
    pub fn can_send(&self) -> (r: bool)
        ensures
            r == (self.state is Ready),
    {
        matches!(self.state, ConnState::Ready)
    }

    /// The transport attached. Resets the failure count. Returns whether the
    /// owner must now re-announce its service registration: required after
    /// every (re)connect of a handler-side session, since the broker's
    /// registration record did not survive the gap.
    pub fn on_connected(&mut self) -> (reannounce: bool)
        requires
            old(self).state is Connecting,
        ensures
            final(self).state is Ready,
            final(self).attempts == 0,
            final(self).conn_id == old(self).conn_id,
            final(self).backoff_base == old(self).backoff_base,
            final(self).backoff_cap == old(self).backoff_cap,
            final(self).outbox == old(self).outbox,
            reannounce,
    {
        self.state = ConnState::Ready;
        self.attempts = 0;
        true
    }

    /// A connect attempt failed. Counts the failure and returns how long the
    /// owner must wait before the next attempt: bounded exponential backoff
    /// in the number of consecutive failures so far.
    pub fn on_connect_failed(&mut self) -> (delay: u64)
        requires
            old(self).state is Connecting,
            old(self).attempts < u32::MAX,
        ensures
            final(self).state is Connecting,
            final(self).attempts == old(self).attempts + 1,
            final(self).conn_id == old(self).conn_id,
            final(self).backoff_base == old(self).backoff_base,
            final(self).backoff_cap == old(self).backoff_cap,
            final(self).outbox == old(self).outbox,
            delay == backoff_spec(old(self).backoff_base, old(self).backoff_cap, old(self).attempts),
            delay <= old(self).backoff_cap,
    {
        let mut d: u64 = if self.backoff_base <= self.backoff_cap {
            self.backoff_base
        } else {
            self.backoff_cap
        };
        let mut i: u32 = 0;
        while i < self.attempts
            invariant
                i <= self.attempts,
                d == backoff_spec(self.backoff_base, self.backoff_cap, i),
            decreases self.attempts - i,
        {
            d = if d <= self.backoff_cap / 2 {
                2 * d
            } else {
                self.backoff_cap
            };
            i = i + 1;
        }
        proof {
            lemma_backoff_bounded(self.backoff_base, self.backoff_cap, self.attempts);
        }
        self.attempts = self.attempts + 1;
        d
    }

    /// The transport dropped out from under a live session. The session goes
    /// back to connecting and the backoff schedule restarts from the base
    /// delay.
    pub fn on_transport_lost(&mut self)
        requires
            old(self).state is Ready || old(self).state is Draining,
        ensures
            final(self).state is Connecting,
            final(self).attempts == 0,
            final(self).conn_id == old(self).conn_id,
            final(self).backoff_base == old(self).backoff_base,
            final(self).backoff_cap == old(self).backoff_cap,
            final(self).outbox == old(self).outbox,
    {
        self.state = ConnState::Connecting;
        self.attempts = 0;
    }

    /// Begins an orderly shutdown: in-flight work may finish, nothing new is
    /// accepted.
    pub fn begin_drain(&mut self)
        requires
            old(self).state is Ready,
        ensures
            final(self).state is Draining,
            final(self).conn_id == old(self).conn_id,
            final(self).attempts == old(self).attempts,
            final(self).backoff_base == old(self).backoff_base,
            final(self).backoff_cap == old(self).backoff_cap,
            final(self).outbox == old(self).outbox,
    {
        self.state = ConnState::Draining;
    }

    /// Ends the session for good.
    pub fn close(&mut self)
        ensures
            final(self).state is Closed,
            final(self).conn_id == old(self).conn_id,
            final(self).attempts == old(self).attempts,
            final(self).backoff_base == old(self).backoff_base,
            final(self).backoff_cap == old(self).backoff_cap,
            final(self).outbox == old(self).outbox,
    {
        self.state = ConnState::Closed;
    }
}

} // verus!
