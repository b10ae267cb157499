//! The server side of an exchange: the dispatch table and the dispatcher's
//! decision logic.
//!
//! A service declares at startup which message types it handles; the table is
//! append-only during startup and read-only afterwards. For each inbound
//! request the dispatcher either resolves the message type to the registered
//! handler, or — for an unregistered type — synthesizes a `Bug` reply at once,
//! without invoking anything, so the caller still receives a terminal outcome.
//!
//! Handlers themselves run in the host's execution contexts; the host hands
//! each handler's `NetResult` back to [`complete`], which builds the reply
//! envelope with the correlation id preserved unchanged.

use vstd::prelude::*;
use vstd::string::StringExecFns;

use crate::envelope::Envelope;
use crate::error::ErrCode;
use crate::error::NetError;
use crate::error::NetResult;

verus! {

/// First-match lookup of a message type in a registration sequence.
pub open spec fn lookup_spec(entries: Seq<(u64, usize)>, t: u64) -> Option<usize>
    decreases entries.len(),
{
    if entries.len() == 0 {
        None
    } else if entries[0].0 == t {
        Some(entries[0].1)
    } else {
        lookup_spec(entries.drop_first(), t)
    }
}

/// Appending an entry leaves every earlier registration's lookup result
/// unchanged, and fills exactly the one gap it registers.
pub proof fn lemma_lookup_push(entries: Seq<(u64, usize)>, p: (u64, usize), t: u64)
    ensures
        lookup_spec(entries.push(p), t) == if lookup_spec(entries, t) is Some {
            lookup_spec(entries, t)
        } else if p.0 == t {
            Some(p.1)
        } else {
            None
        },
    decreases entries.len(),
{
    if entries.len() == 0 {
        assert(entries.push(p).drop_first() =~= entries);
    } else {
        assert(entries.push(p).drop_first() =~= entries.drop_first().push(p));
        lemma_lookup_push(entries.drop_first(), p, t);
    }
}

/// A service's registry of the message types it handles, each mapped to a
/// handler slot chosen by the owning service.
#[derive(Clone, Debug)]
pub struct DispatchTable {
    entries: Vec<(u64, usize)>,
}

/// What the dispatcher does with one inbound request.
#[derive(Clone, Debug)]
pub enum DispatchDecision {
    /// Invoke the handler registered in this slot with the decoded request.
    Invoke { handler: usize },
    /// Unregistered message type: return this reply immediately, invoking no
    /// handler.
    Reject { reply: Envelope },
}

impl DispatchTable {
    /// The registrations, in registration order.
    pub closed spec fn view(self) -> Seq<(u64, usize)> {
        self.entries@
    }

    /// Whether a handler is registered for message type `t`.
    pub open spec fn handles(self, t: u64) -> bool {
        lookup_spec(self@, t) is Some
    }

    /// An empty table: handles nothing.
    pub fn new() -> (table: DispatchTable)
        ensures
            table@ == Seq::<(u64, usize)>::empty(),
    {
        DispatchTable { entries: Vec::new() }
    }

    /// Registers `handler` for message type `t`. Rejects a duplicate
    /// registration: the first handler for a type wins and the table is
    /// unchanged.
    pub fn register(&mut self, t: u64, handler: usize) -> (ok: bool)
        ensures
            ok == !old(self).handles(t),
            ok ==> final(self)@ == old(self)@.push((t, handler)),
            !ok ==> final(self)@ == old(self)@,
            final(self).handles(t),
            ok ==> lookup_spec(final(self)@, t) == Some(handler),
    {
        if self.lookup(t).is_some() {
            false
        } else {
            proof {
                lemma_lookup_push(self.entries@, (t, handler), t);
            }
            self.entries.push((t, handler));
            true
        }
    }

    /// Looks up the handler slot registered for message type `t`.
    pub fn lookup(&self, t: u64) -> (r: Option<usize>)
        ensures
            r == lookup_spec(self@, t),
    {
        proof {
            assert(self.entries@.skip(0) =~= self.entries@);
        }
        let mut i: usize = 0;
        while i < self.entries.len()
            invariant
                i <= self.entries.len(),
                lookup_spec(self.entries@, t) == lookup_spec(
                    self.entries@.skip(i as int),
                    t,
                ),
            decreases self.entries.len() - i,
        {
            proof {
                assert(self.entries@.skip(i as int).drop_first() =~= self.entries@.skip(
                    i + 1,
                ));
            }
            if self.entries[i].0 == t {
                return Some(self.entries[i].1);
            }
            i = i + 1;
        }
        None
    }

    /// Decides one inbound request: resolve the message type to its handler,
    /// or — if no handler is registered — synthesize the `Bug` reply that the
    /// caller receives instead, correlation id preserved, with no handler
    /// invoked.
    pub fn decide(&self, req: &Envelope) -> (d: DispatchDecision)
        requires
            req.req_wf(),
        ensures
            self.handles(req.message_type) ==> (d matches DispatchDecision::Invoke { handler }
                && Some(handler) == lookup_spec(self@, req.message_type)),
            !self.handles(req.message_type) ==> (d matches DispatchDecision::Reject { reply }
                && reply.reply_wf()
                && reply.correlation_id == req.correlation_id
                && reply.message_type == req.message_type
                && (reply.error matches Some(err) && err.code == ErrCode::Bug)),
    {
        match self.lookup(req.message_type) {
            Some(handler) => DispatchDecision::Invoke { handler },
            None => DispatchDecision::Reject {
                reply: req.synthesized_failure(
                    ErrCode::Bug,
                    String::from_str("no handler registered for message type"),
                ),
            },
        }
    }
}

/// Builds the reply envelope for a handled request from the handler's result:
/// the correlation id and message type are echoed unchanged, a success becomes
/// the reply payload, and a handler failure is carried as the reply's error,
/// untouched. A failure raised inside a handler is the host's to catch and
/// hand in here as `Err` with code [`ErrCode::Bug`], so one failing request
/// never tears down the connection.
pub fn complete(req: &Envelope, result: NetResult<Vec<u8>>) -> (reply: Envelope)
    requires
        req.req_wf(),
    ensures
        reply.reply_wf(),
        reply.correlation_id == req.correlation_id,
        reply.message_type == req.message_type,
        result matches Ok(p) ==> reply.payload == Some(p) && reply.error is None,
        result matches Err(e) ==> reply.error == Some(e) && reply.payload is None,
{
    match result {
        Ok(payload) => Envelope::reply_ok(req.correlation_id, req.message_type, payload),
        Err(e) => Envelope::reply_err(req.correlation_id, req.message_type, e),
    }
}

} // verus!
