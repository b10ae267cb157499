//! The routing broker: accepts registrations from handler-side connections,
//! accepts requests from caller-side connections, selects a target replica
//! per request, and routes each reply back to the original caller by its
//! correlation id.
//!
//! Per pending request the broker moves through `accepted → dispatched →
//! replied`, or expires the request on its deadline. The core consistency
//! invariant is [`Broker::wf`]: at most one pending request exists per
//! correlation id, which is what makes reply routing on a multiplexed
//! transport unambiguous.

use vstd::prelude::*;
use vstd::string::StringExecFns;

use crate::envelope::Envelope;
use crate::error::ErrCode;
use crate::error::NetError;
use crate::routing::rr_select_spec;
use crate::routing::select_replica;
use crate::routing::select_spec;
use crate::routing::rr_select;

verus! {

/// One live registration: a handler-side connection willing to receive the
/// listed message types on behalf of a named service. Registrations sharing a
/// message type form that type's replica set.
#[derive(Clone, Debug)]
pub struct Registration {
    /// Stable service name the connection announced itself under.
    pub service: String,
    /// The handler-side connection holding this registration.
    pub conn_id: u64,
    /// Message types this connection can handle.
    pub message_types: Vec<u64>,
}

/// Broker-side bookkeeping for one outstanding request.
#[derive(Clone, Copy, Debug)]
pub struct PendingRequest {
    /// The request's correlation id; the key for reply routing.
    pub correlation_id: u64,
    /// The caller-side connection awaiting the reply.
    pub caller_conn: u64,
    /// The replica the request was dispatched to.
    pub target_conn: u64,
    /// Instant at which the broker gives up and synthesizes a timeout reply.
    pub deadline: u64,
    /// Message type of the request, echoed on a synthesized reply.
    pub message_type: u64,
}

/// How many pending requests in `s` carry correlation id `cid`.
pub open spec fn count_cid(s: Seq<PendingRequest>, cid: u64) -> nat
    decreases s.len(),
{
    if s.len() == 0 {
        0
    } else {
        (if s[0].correlation_id == cid {
            1 as nat
        } else {
            0
        }) + count_cid(s.drop_first(), cid)
    }
}

/// At most one pending request per correlation id: the invariant that makes
/// reply routing unambiguous.
pub open spec fn at_most_one_cid(s: Seq<PendingRequest>) -> bool {
    forall|cid: u64| #[trigger] count_cid(s, cid) <= 1
}

/// The first pending request in `s` with correlation id `cid`, if any.
pub open spec fn find_pending(s: Seq<PendingRequest>, cid: u64) -> Option<PendingRequest>
    decreases s.len(),
{
    if s.len() == 0 {
        None
    } else if s[0].correlation_id == cid {
        Some(s[0])
    } else {
        find_pending(s.drop_first(), cid)
    }
}

/// Whether some pending request in `s` carries correlation id `cid`.
pub open spec fn pends_in(s: Seq<PendingRequest>, cid: u64) -> bool {
    find_pending(s, cid) is Some
}

/// `s` with every pending request for `cid` removed.
pub open spec fn without_cid(s: Seq<PendingRequest>, cid: u64) -> Seq<PendingRequest>
    decreases s.len(),
{
    if s.len() == 0 {
        s
    } else if s[0].correlation_id == cid {
        without_cid(s.drop_first(), cid)
    } else {
        seq![s[0]] + without_cid(s.drop_first(), cid)
    }
}

/// The pending requests of `s` whose deadline has not yet passed at `now`,
/// in order.
pub open spec fn live_after(s: Seq<PendingRequest>, now: u64) -> Seq<PendingRequest>
    decreases s.len(),
{
    if s.len() == 0 {
        s
    } else if s[0].deadline <= now {
        live_after(s.drop_first(), now)
    } else {
        seq![s[0]] + live_after(s.drop_first(), now)
    }
}

/// The pending requests of `s` whose deadline has passed at `now`, in order.
pub open spec fn expired_at(s: Seq<PendingRequest>, now: u64) -> Seq<PendingRequest>
    decreases s.len(),
{
    if s.len() == 0 {
        s
    } else if s[0].deadline <= now {
        seq![s[0]] + expired_at(s.drop_first(), now)
    } else {
        expired_at(s.drop_first(), now)
    }
}

/// A found pending request carries the id it was found by and belongs to the
/// table; a lookup succeeds exactly when the id's count is positive.
pub proof fn lemma_find_count(s: Seq<PendingRequest>, cid: u64)
    ensures
        pends_in(s, cid) <==> count_cid(s, cid) > 0,
        find_pending(s, cid) matches Some(p) ==> p.correlation_id == cid && s.contains(p),
    decreases s.len(),
{
    if s.len() > 0 {
        lemma_find_count(s.drop_first(), cid);
        if s[0].correlation_id != cid {
            if let Some(p) = find_pending(s.drop_first(), cid) {
                assert(s.drop_first().contains(p));
                let i = choose|i: int|
                    0 <= i < s.drop_first().len() && s.drop_first()[i] == p;
                assert(s[i + 1] == p);
            }
        }
    }
}

/// A member of the table is counted under its own correlation id.
pub proof fn lemma_contains_count(s: Seq<PendingRequest>, p: PendingRequest)
    requires
        s.contains(p),
    ensures
        count_cid(s, p.correlation_id) >= 1,
    decreases s.len(),
{
    if s[0] != p {
        let i = choose|i: int| 0 <= i < s.len() && s[i] == p;
        assert(s.drop_first()[i - 1] == p);
        lemma_contains_count(s.drop_first(), p);
    }
}

/// Appending one pending request raises exactly its own id's count by one.
pub proof fn lemma_count_push(s: Seq<PendingRequest>, p: PendingRequest, cid: u64)
    ensures
        count_cid(s.push(p), cid) == count_cid(s, cid) + (if p.correlation_id == cid {
            1 as nat
        } else {
            0
        }),
    decreases s.len(),
{
    if s.len() == 0 {
        assert(s.push(p).drop_first() =~= s);
    } else {
        assert(s.push(p).drop_first() =~= s.drop_first().push(p));
        lemma_count_push(s.drop_first(), p, cid);
    }
}

/// Removing a correlation id removes it completely and leaves every other
/// id's count untouched.
pub proof fn lemma_without_count(s: Seq<PendingRequest>, cid: u64, other: u64)
    ensures
        count_cid(without_cid(s, cid), cid) == 0,
        other != cid ==> count_cid(without_cid(s, cid), other) == count_cid(s, other),
    decreases s.len(),
{
    if s.len() > 0 {
        lemma_without_count(s.drop_first(), cid, other);
        if s[0].correlation_id != cid {
            assert((seq![s[0]] + without_cid(s.drop_first(), cid)).drop_first() =~= without_cid(
                s.drop_first(),
                cid,
            ));
        }
    }
}

/// Removing one correlation id does not disturb the lookup of any other:
/// concurrent pending requests are resolved independently.
pub proof fn lemma_without_find_other(s: Seq<PendingRequest>, cid: u64, other: u64)
    requires
        other != cid,
    ensures
        find_pending(without_cid(s, cid), other) == find_pending(s, other),
    decreases s.len(),
{
    if s.len() > 0 {
        lemma_without_find_other(s.drop_first(), cid, other);
        if s[0].correlation_id != cid {
            assert((seq![s[0]] + without_cid(s.drop_first(), cid)).drop_first() =~= without_cid(
                s.drop_first(),
                cid,
            ));
        }
    }
}

/// A reply consumes its pending request: after the removal that reply
/// delivery performs, the correlation id is no longer pending, so every later
/// delivery bearing it is stale.
pub proof fn lemma_reply_consumes(s: Seq<PendingRequest>, cid: u64)
    ensures
        !pends_in(without_cid(s, cid), cid),
{
    lemma_without_count(s, cid, cid);
    lemma_find_count(without_cid(s, cid), cid);
}

/// Correlation integrity: while the table holds at most one pending request
/// per id, looking up any member's correlation id yields exactly that member
/// — a reply can only ever reach the caller that sent the matching request.
pub proof fn lemma_correlation_integrity(s: Seq<PendingRequest>, p: PendingRequest)
    requires
        at_most_one_cid(s),
        s.contains(p),
    ensures
        find_pending(s, p.correlation_id) == Some(p),
    decreases s.len(),
{
    if s[0].correlation_id == p.correlation_id {
        if s[0] != p {
            let i = choose|i: int| 0 <= i < s.len() && s[i] == p;
            assert(s.drop_first()[i - 1] == p);
            lemma_contains_count(s.drop_first(), p);
            assert(count_cid(s, p.correlation_id) >= 2);
        }
    } else {
        let i = choose|i: int| 0 <= i < s.len() && s[i] == p;
        assert(s.drop_first()[i - 1] == p);
        assert(forall|cid: u64| #[trigger] count_cid(s.drop_first(), cid) <= count_cid(s, cid));
        lemma_correlation_integrity(s.drop_first(), p);
    }
}

/// Expiry only ever lowers a correlation id's count: the live remainder of
/// the table still holds at most one pending request per id.
pub proof fn lemma_live_count(s: Seq<PendingRequest>, now: u64, cid: u64)
    ensures
        count_cid(live_after(s, now), cid) <= count_cid(s, cid),
    decreases s.len(),
{
    if s.len() > 0 {
        lemma_live_count(s.drop_first(), now, cid);
        if s[0].deadline > now {
            assert((seq![s[0]] + live_after(s.drop_first(), now)).drop_first() =~= live_after(
                s.drop_first(),
                now,
            ));
        }
    }
}

/// Once a pending request's deadline has passed, expiry removes it: any reply
/// arriving afterwards finds nothing to resolve and is dropped.
pub proof fn lemma_late_reply_dropped(s: Seq<PendingRequest>, now: u64, cid: u64)
    requires
        at_most_one_cid(s),
        find_pending(s, cid) matches Some(p) && p.deadline <= now,
    ensures
        !pends_in(live_after(s, now), cid),
    decreases s.len(),
{
    lemma_find_count(s, cid);
    let p = find_pending(s, cid)->0;
    if s[0].correlation_id == cid {
        assert(count_cid(s, cid) <= 1);
        lemma_contains_count_zero(s.drop_first(), cid);
        lemma_live_count_zero(s.drop_first(), now, cid);
        lemma_find_count(live_after(s.drop_first(), now), cid);
    } else {
        assert(forall|c: u64| #[trigger] count_cid(s.drop_first(), c) <= count_cid(s, c));
        lemma_late_reply_dropped(s.drop_first(), now, cid);
        if s[0].deadline > now {
            assert((seq![s[0]] + live_after(s.drop_first(), now)).drop_first() =~= live_after(
                s.drop_first(),
                now,
            ));
        }
    }
}

/// An id counted zero times is not pending.
proof fn lemma_contains_count_zero(s: Seq<PendingRequest>, cid: u64)
    requires
        count_cid(s, cid) == 0,
    ensures
        !pends_in(s, cid),
{
    lemma_find_count(s, cid);
}

/// Expiry introduces no occurrence of an id that was absent.
proof fn lemma_live_count_zero(s: Seq<PendingRequest>, now: u64, cid: u64)
    requires
        count_cid(s, cid) == 0,
    ensures
        count_cid(live_after(s, now), cid) == 0,
{
    lemma_live_count(s, now, cid);
}

/// Removing an id that never occurs changes nothing.
pub proof fn lemma_without_identity(s: Seq<PendingRequest>, cid: u64)
    requires
        count_cid(s, cid) == 0,
    ensures
        without_cid(s, cid) == s,
    decreases s.len(),
{
    if s.len() > 0 {
        lemma_without_identity(s.drop_first(), cid);
        assert(seq![s[0]] + s.drop_first() =~= s);
    }
}

/// While at most one pending request bears `cid`, removing the first match
/// in place removes every match: physical removal agrees with the
/// mathematical filter.
pub proof fn lemma_remove_first_is_without(s: Seq<PendingRequest>, i: int, cid: u64)
    requires
        at_most_one_cid(s),
        0 <= i < s.len(),
        s[i].correlation_id == cid,
        forall|j: int| 0 <= j < i ==> s[j].correlation_id != cid,
    ensures
        without_cid(s, cid) == s.subrange(0, i) + s.subrange(i + 1, s.len() as int),
    decreases s.len(),
{
    if i == 0 {
        assert(count_cid(s, cid) <= 1);
        lemma_without_identity(s.drop_first(), cid);
        assert(s.drop_first() =~= s.subrange(1, s.len() as int));
        assert(s.subrange(0, 0) + s.subrange(1, s.len() as int) =~= s.subrange(
            1,
            s.len() as int,
        ));
    } else {
        assert(forall|c: u64| #[trigger] count_cid(s.drop_first(), c) <= count_cid(s, c));
        assert(s.drop_first()[i - 1] == s[i]);
        assert(forall|j: int|
            0 <= j < i - 1 ==> #[trigger] s.drop_first()[j].correlation_id
                != cid) by {
            assert(forall|j: int| 0 <= j < i - 1 ==> s.drop_first()[j] == s[j + 1]);
        }
        lemma_remove_first_is_without(s.drop_first(), i - 1, cid);
        assert(seq![s[0]] + (s.drop_first().subrange(0, i - 1) + s.drop_first().subrange(
            i,
            s.drop_first().len() as int,
        )) =~= s.subrange(0, i) + s.subrange(i + 1, s.len() as int));
    }
}

/// At shutdown every pending request counts as expired and none stays live.
pub proof fn lemma_drain_all(s: Seq<PendingRequest>)
    ensures
        live_after(s, u64::MAX) =~= Seq::<PendingRequest>::empty(),
        expired_at(s, u64::MAX) =~= s,
    decreases s.len(),
{
    if s.len() > 0 {
        lemma_drain_all(s.drop_first());
        assert(seq![s[0]] + s.drop_first() =~= s);
    }
}

/// The registrations of `regs` that do not belong to connection `conn_id`.
pub open spec fn without_conn(regs: Seq<Registration>, conn_id: u64) -> Seq<Registration>
    decreases regs.len(),
{
    if regs.len() == 0 {
        regs
    } else if regs[0].conn_id == conn_id {
        without_conn(regs.drop_first(), conn_id)
    } else {
        seq![regs[0]] + without_conn(regs.drop_first(), conn_id)
    }
}

/// The replica set for message type `t`: the connections of every
/// registration listing `t`, in registration order.
pub open spec fn replicas_spec(regs: Seq<Registration>, t: u64) -> Seq<u64>
    decreases regs.len(),
{
    if regs.len() == 0 {
        Seq::empty()
    } else if regs[0].message_types@.contains(t) {
        seq![regs[0].conn_id] + replicas_spec(regs.drop_first(), t)
    } else {
        replicas_spec(regs.drop_first(), t)
    }
}

/// The forwarding action the broker hands back for an accepted request.
#[derive(Clone, Debug)]
pub struct DispatchAction {
    /// The replica connection chosen to handle the request.
    pub target_conn: u64,
    /// The envelope to forward there, unchanged from the caller's.
    pub env: Envelope,
}

/// Where a reply envelope goes.
#[derive(Clone, Debug)]
pub enum ReplyRouting {
    /// Forward the reply to the caller-side connection that sent the matching
    /// request.
    Deliver { caller_conn: u64, env: Envelope },
    /// No pending request bears this correlation id (already replied or
    /// expired): drop the reply, never misroute it.
    Stale,
}

/// Whether `pair` is the timeout notice the broker synthesizes for the
/// expired pending request `p`: addressed to its caller, echoing its
/// correlation id and message type, carrying a `Timeout` error and no
/// payload.
pub open spec fn timeout_notice_for(pair: (u64, Envelope), p: PendingRequest) -> bool {
    &&& pair.0 == p.caller_conn
    &&& pair.1.reply_wf()
    &&& pair.1.correlation_id == p.correlation_id
    &&& pair.1.message_type == p.message_type
    &&& pair.1.payload is None
    &&& pair.1.error matches Some(e) && e.code == ErrCode::Timeout
}

/// The routing broker's state: the live registrations, the pending-request
/// table, the round-robin cursor for unkeyed requests, and the configured
/// per-request deadline.
#[derive(Clone, Debug)]
pub struct Broker {
    /// Live service registrations, in announcement order.
    pub registrations: Vec<Registration>,
    /// One entry per outstanding request.
    pub pending: Vec<PendingRequest>,
    /// Cursor stepping through replicas for unkeyed requests.
    pub rr_counter: u64,
    /// How long after acceptance a request may await its reply, in the
    /// host's clock units.
    pub timeout: u64,
}

impl Broker {
    /// The core consistency invariant: at most one pending request per
    /// correlation id.
    pub open spec fn wf(self) -> bool {
        at_most_one_cid(self.pending@)
    }

    /// Whether a pending request with this correlation id is outstanding.
    pub open spec fn pends(self, cid: u64) -> bool {
        pends_in(self.pending@, cid)
    }

    /// A broker with no registrations and nothing outstanding.
    pub fn new(timeout: u64) -> (b: Broker)
        ensures
            b.registrations@ == Seq::<Registration>::empty(),
            b.pending@ == Seq::<PendingRequest>::empty(),
            b.rr_counter == 0,
            b.timeout == timeout,
            b.wf(),
    {
        Broker { registrations: Vec::new(), pending: Vec::new(), rr_counter: 0, timeout }
    }

    /// Accepts a handler-side announcement: any earlier registration of the
    /// same connection is replaced (a reconnected connection re-announces),
    /// and the new registration is eligible for target selection immediately.
    /// Pending requests are untouched.
    pub fn register(&mut self, service: String, conn_id: u64, message_types: Vec<u64>)
        ensures
            final(self).registrations@ == without_conn(old(self).registrations@, conn_id).push(
                Registration { service, conn_id, message_types },
            ),
            final(self).pending == old(self).pending,
            final(self).rr_counter == old(self).rr_counter,
            final(self).timeout == old(self).timeout,
            old(self).wf() ==> final(self).wf(),
    {
        self.remove_conn(conn_id);
        self.registrations.push(Registration { service, conn_id, message_types });
    }

    /// Drops every registration of a closed or failed connection. Pending
    /// requests already dispatched to it are not retried — they are left to
    /// expire on schedule, which avoids duplicate side effects from resending
    /// non-idempotent requests.
    pub fn unregister(&mut self, conn_id: u64)
        ensures
            final(self).registrations@ == without_conn(old(self).registrations@, conn_id),
            final(self).pending == old(self).pending,
            final(self).rr_counter == old(self).rr_counter,
            final(self).timeout == old(self).timeout,
            old(self).wf() ==> final(self).wf(),
    {
        self.remove_conn(conn_id);
    }

    /// Removes every registration of `conn_id`, leaving the rest in order.
    fn remove_conn(&mut self, conn_id: u64)
        ensures
            final(self).registrations@ == without_conn(old(self).registrations@, conn_id),
            final(self).pending == old(self).pending,
            final(self).rr_counter == old(self).rr_counter,
            final(self).timeout == old(self).timeout,
    {
        let ghost s = self.registrations@;
        let mut i: usize = 0;
        proof {
            assert(s.skip(0) =~= s);
            assert(s.subrange(0, 0) =~= Seq::<Registration>::empty());
        }
        while i < self.registrations.len()
            invariant
                i <= self.registrations.len(),
                without_conn(s, conn_id) == self.registrations@.subrange(0, i as int)
                    + without_conn(self.registrations@.skip(i as int), conn_id),
                self.pending == old(self).pending,
                self.rr_counter == old(self).rr_counter,
                self.timeout == old(self).timeout,
            decreases self.registrations.len() - i,
        {
            let ghost cur = self.registrations@;
            proof {
                assert(cur.skip(i as int).drop_first() =~= cur.skip(i + 1));
            }
            if self.registrations[i].conn_id == conn_id {
                self.registrations.remove(i);
                proof {
                    assert(self.registrations@.subrange(0, i as int) =~= cur.subrange(
                        0,
                        i as int,
                    ));
                    assert(self.registrations@.skip(i as int) =~= cur.skip(i + 1));
                }
            } else {
                proof {
                    assert(cur.subrange(0, i + 1) =~= cur.subrange(0, i as int).push(
                        cur[i as int],
                    ));
                    assert(cur.subrange(0, i as int).push(cur[i as int]) + without_conn(
                        cur.skip(i + 1),
                        conn_id,
                    ) =~= cur.subrange(0, i as int) + (seq![cur[i as int]] + without_conn(
                        cur.skip(i + 1),
                        conn_id,
                    )));
                }
                i = i + 1;
            }
        }
        proof {
            let r = self.registrations@;
            assert(r.skip(i as int) =~= Seq::<Registration>::empty());
            assert(r.subrange(0, i as int) =~= r);
            assert(r + without_conn(Seq::<Registration>::empty(), conn_id) =~= r);
        }
    }

    /// The current replica set for message type `t`, in registration order.
    pub fn replicas_for(&self, t: u64) -> (r: Vec<u64>)
        ensures
            r@ == replicas_spec(self.registrations@, t),
    {
        let ghost s = self.registrations@;
        let mut out: Vec<u64> = Vec::new();
        let mut i: usize = 0;
        proof {
            assert(s.skip(0) =~= s);
        }
        while i < self.registrations.len()
            invariant
                i <= self.registrations.len(),
                s == self.registrations@,
                replicas_spec(s, t) == out@ + replicas_spec(s.skip(i as int), t),
            decreases self.registrations.len() - i,
        {
            proof {
                assert(s.skip(i as int).drop_first() =~= s.skip(i + 1));
            }
            if contains_u64(&self.registrations[i].message_types, t) {
                out.push(self.registrations[i].conn_id);
                proof {
                    assert(out@ + replicas_spec(s.skip(i + 1), t) =~= replicas_spec(s, t));
                }
            }
            i = i + 1;
        }
        proof {
            assert(out@ + replicas_spec(s.skip(s.len() as int), t) =~= out@);
        }
        out
    }

    /// Removes and returns the pending request bearing `cid`, if one is
    /// outstanding.
    fn take_pending(&mut self, cid: u64) -> (removed: Option<PendingRequest>)
        requires
            old(self).wf(),
        ensures
            removed == find_pending(old(self).pending@, cid),
            removed is Some ==> final(self).pending@ == without_cid(old(self).pending@, cid),
            removed is None ==> final(self).pending == old(self).pending,
            final(self).registrations == old(self).registrations,
            final(self).rr_counter == old(self).rr_counter,
            final(self).timeout == old(self).timeout,
            final(self).wf(),
    {
        let ghost s = self.pending@;
        let mut i: usize = 0;
        proof {
            assert(s.skip(0) =~= s);
        }
        while i < self.pending.len()
            invariant
                i <= self.pending.len(),
                s == self.pending@,
                old(self).wf(),
                self.pending == old(self).pending,
                self.registrations == old(self).registrations,
                self.rr_counter == old(self).rr_counter,
                self.timeout == old(self).timeout,
                forall|j: int| 0 <= j < i ==> s[j].correlation_id != cid,
                find_pending(s.skip(i as int), cid) == find_pending(s, cid),
            decreases self.pending.len() - i,
        {
            proof {
                assert(s.skip(i as int).drop_first() =~= s.skip(i + 1));
            }
            if self.pending[i].correlation_id == cid {
                let p = self.pending.remove(i);
                proof {
                    assert(s.skip(i as int)[0] == s[i as int]);
                    lemma_remove_first_is_without(s, i as int, cid);
                    assert(self.pending@ =~= s.subrange(0, i as int) + s.subrange(
                        i + 1,
                        s.len() as int,
                    ));
                    assert forall|c: u64| #[trigger] count_cid(self.pending@, c) <= 1 by {
                        lemma_without_count(s, cid, c);
                    }
                }
                return Some(p);
            }
            i = i + 1;
        }
        proof {
            assert(s.skip(i as int) =~= Seq::<PendingRequest>::empty());
        }
        None
    }

    /// Accepts one request from a caller-side connection. Selects the target
    /// replica — by route-key hash for a keyed request, round-robin for an
    /// unkeyed one — records the pending request with its deadline, and
    /// returns the forwarding action. Fails immediately with `NoShard`, and
    /// creates no pending request, when no registration handles the message
    /// type; fails with `Bug` when the correlation id is already in flight.
    pub fn accept_request(&mut self, caller_conn: u64, req: Envelope, now: u64) -> (r: Result<
        DispatchAction,
        NetError,
    >)
        requires
            old(self).wf(),
            req.req_wf(),
            now <= u64::MAX - old(self).timeout,
        ensures
            final(self).wf(),
            final(self).registrations == old(self).registrations,
            final(self).timeout == old(self).timeout,
            old(self).pends(req.correlation_id) ==> (r matches Err(e) && e.code == ErrCode::Bug
                && *final(self) == *old(self)),
            (!old(self).pends(req.correlation_id) && replicas_spec(
                old(self).registrations@,
                req.message_type,
            ).len() == 0) ==> (r matches Err(e) && e.code == ErrCode::NoShard && *final(self)
                == *old(self)),
            (!old(self).pends(req.correlation_id) && replicas_spec(
                old(self).registrations@,
                req.message_type,
            ).len() > 0) ==> (r matches Ok(a) && accepted(*old(self), *final(self), caller_conn, req, now, a)),
    {
        let cid = req.correlation_id;
        let probe = self.find_caller(cid);
        if probe.is_some() {
            return Err(
                NetError::new(
                    ErrCode::Bug,
                    String::from_str("correlation id already in flight"),
                ),
            );
        }
        let replicas = self.replicas_for(req.message_type);
        if replicas.len() == 0 {
            return Err(
                NetError::new(
                    ErrCode::NoShard,
                    String::from_str("no live registration handles the message type"),
                ),
            );
        }
        let target: u64 = match &req.route_key {
            Some(k) => {
                proof {
                    crate::routing::lemma_select_in_set(replicas@, k@);
                }
                select_replica(&replicas, k).unwrap()
            },
            None => {
                let t = rr_select(&replicas, self.rr_counter).unwrap();
                self.rr_counter = if self.rr_counter == u64::MAX {
                    0
                } else {
                    self.rr_counter + 1
                };
                t
            },
        };
        let entry = PendingRequest {
            correlation_id: cid,
            caller_conn,
            target_conn: target,
            deadline: now + self.timeout,
            message_type: req.message_type,
        };
        proof {
            lemma_find_count(old(self).pending@, cid);
            assert forall|c: u64| #[trigger] count_cid(old(self).pending@.push(entry), c)
                <= 1 by {
                lemma_count_push(old(self).pending@, entry, c);
            }
        }
        self.pending.push(entry);
        Ok(DispatchAction { target_conn: target, env: req })
    }

    /// Looks up which caller-side connection awaits the reply for `cid`.
    fn find_caller(&self, cid: u64) -> (r: Option<u64>)
        ensures
            r is Some <==> pends_in(self.pending@, cid),
            r matches Some(c) ==> Some(c) == match find_pending(self.pending@, cid) {
                Some(p) => Some(p.caller_conn),
                None => None::<u64>,
            },
    {
        let ghost s = self.pending@;
        let mut i: usize = 0;
        proof {
            assert(s.skip(0) =~= s);
        }
        while i < self.pending.len()
            invariant
                i <= self.pending.len(),
                s == self.pending@,
                find_pending(s.skip(i as int), cid) == find_pending(s, cid),
            decreases self.pending.len() - i,
        {
            proof {
                assert(s.skip(i as int).drop_first() =~= s.skip(i + 1));
            }
            if self.pending[i].correlation_id == cid {
                proof {
                    assert(s.skip(i as int)[0] == s[i as int]);
                }
                return Some(self.pending[i].caller_conn);
            }
            i = i + 1;
        }
        proof {
            assert(s.skip(i as int) =~= Seq::<PendingRequest>::empty());
        }
        None
    }

    /// Routes one reply envelope: if its correlation id is outstanding, the
    /// pending request is discarded and the reply — unchanged — is forwarded
    /// to the caller-side connection that sent the matching request. A reply
    /// with an unknown correlation id (already replied, or expired) is
    /// dropped, never misrouted. Either way the id is no longer outstanding
    /// afterwards: at most one reply is ever delivered per request.
    pub fn on_reply(&mut self, reply: Envelope) -> (r: ReplyRouting)
        requires
            old(self).wf(),
            reply.reply_wf(),
        ensures
            final(self).wf(),
            final(self).registrations == old(self).registrations,
            final(self).rr_counter == old(self).rr_counter,
            final(self).timeout == old(self).timeout,
            old(self).pends(reply.correlation_id) ==> (r matches ReplyRouting::Deliver {
                caller_conn,
                env,
            } && Some(caller_conn) == match find_pending(
                old(self).pending@,
                reply.correlation_id,
            ) {
                Some(p) => Some(p.caller_conn),
                None => None::<u64>,
            } && env == reply && final(self).pending@ == without_cid(
                old(self).pending@,
                reply.correlation_id,
            )),
            !old(self).pends(reply.correlation_id) ==> r is Stale && *final(self) == *old(self),
            !final(self).pends(reply.correlation_id),
    {
        let cid = reply.correlation_id;
        match self.take_pending(cid) {
            Some(p) => {
                proof {
                    lemma_reply_consumes(old(self).pending@, cid);
                }
                ReplyRouting::Deliver { caller_conn: p.caller_conn, env: reply }
            },
            None => {
                proof {
                    lemma_find_count(old(self).pending@, cid);
                }
                ReplyRouting::Stale
            },
        }
    }

    /// Expires every pending request whose deadline has passed at `now`: each
    /// is discarded and a synthesized `Timeout` reply, addressed to its
    /// caller, is returned for the host to deliver. Any reply arriving later
    /// for one of these ids finds nothing outstanding and is dropped.
    pub fn expire(&mut self, now: u64) -> (notices: Vec<(u64, Envelope)>)
        requires
            old(self).wf(),
        ensures
            final(self).wf(),
            final(self).registrations == old(self).registrations,
            final(self).rr_counter == old(self).rr_counter,
            final(self).timeout == old(self).timeout,
            final(self).pending@ == live_after(old(self).pending@, now),
            notices@.len() == expired_at(old(self).pending@, now).len(),
            forall|i: int|
                0 <= i < notices@.len() ==> timeout_notice_for(
                    #[trigger] notices@[i],
                    expired_at(old(self).pending@, now)[i],
                ),
    {
        let ghost s = self.pending@;
        let mut notices: Vec<(u64, Envelope)> = Vec::new();
        let ghost mut gone: Seq<PendingRequest> = Seq::empty();
        let mut i: usize = 0;
        proof {
            assert(s.skip(0) =~= s);
            assert(s.subrange(0, 0) =~= Seq::<PendingRequest>::empty());
        }
        while i < self.pending.len()
            invariant
                i <= self.pending.len(),
                live_after(s, now) == self.pending@.subrange(0, i as int) + live_after(
                    self.pending@.skip(i as int),
                    now,
                ),
                expired_at(s, now) == gone + expired_at(self.pending@.skip(i as int), now),
                notices@.len() == gone.len(),
                forall|j: int|
                    0 <= j < notices@.len() ==> timeout_notice_for(
                        #[trigger] notices@[j],
                        gone[j],
                    ),
                forall|c: u64| #[trigger] count_cid(self.pending@, c) <= count_cid(s, c),
                self.registrations == old(self).registrations,
                self.rr_counter == old(self).rr_counter,
                self.timeout == old(self).timeout,
                at_most_one_cid(s),
            decreases self.pending.len() - i,
        {
            let ghost cur = self.pending@;
            proof {
                assert(cur.skip(i as int).drop_first() =~= cur.skip(i + 1));
                assert(cur.skip(i as int)[0] == cur[i as int]);
            }
            if self.pending[i].deadline <= now {
                let p = self.pending[i];
                let env = Envelope::reply_err(
                    p.correlation_id,
                    p.message_type,
                    NetError::new(
                        ErrCode::Timeout,
                        String::from_str("request deadline elapsed before a reply arrived"),
                    ),
                );
                notices.push((p.caller_conn, env));
                self.pending.remove(i);
                proof {
                    gone = gone.push(p);
                    assert(self.pending@.subrange(0, i as int) =~= cur.subrange(0, i as int));
                    assert(self.pending@.skip(i as int) =~= cur.skip(i + 1));
                    assert(gone + expired_at(cur.skip(i + 1), now) =~= expired_at(s, now));
                    assert forall|c: u64| #[trigger] count_cid(self.pending@, c) <= count_cid(
                        s,
                        c,
                    ) by {
                        lemma_count_remove(cur, i as int, c);
                    }
                }
            } else {
                proof {
                    assert(cur.subrange(0, i + 1) =~= cur.subrange(0, i as int).push(
                        cur[i as int],
                    ));
                    assert(cur.subrange(0, i as int).push(cur[i as int]) + live_after(
                        cur.skip(i + 1),
                        now,
                    ) =~= cur.subrange(0, i as int) + (seq![cur[i as int]] + live_after(
                        cur.skip(i + 1),
                        now,
                    )));
                }
                i = i + 1;
            }
        }
        proof {
            let r = self.pending@;
            assert(r.skip(i as int) =~= Seq::<PendingRequest>::empty());
            assert(r.subrange(0, i as int) =~= r);
            assert(r + live_after(Seq::<PendingRequest>::empty(), now) =~= r);
            assert(gone + expired_at(Seq::<PendingRequest>::empty(), now) =~= gone);
        }
        notices
    }

    /// Tears the broker down: every pending request still outstanding is
    /// drained to a synthesized `Timeout` reply rather than dropped silently.
    pub fn drain(&mut self) -> (notices: Vec<(u64, Envelope)>)
        requires
            old(self).wf(),
        ensures
            final(self).wf(),
            final(self).registrations == old(self).registrations,
            final(self).rr_counter == old(self).rr_counter,
            final(self).timeout == old(self).timeout,
            final(self).pending@ == Seq::<PendingRequest>::empty(),
            notices@.len() == old(self).pending@.len(),
            forall|i: int|
                0 <= i < notices@.len() ==> timeout_notice_for(
                    #[trigger] notices@[i],
                    old(self).pending@[i],
                ),
    {
        proof {
            lemma_drain_all(old(self).pending@);
        }
        self.expire(u64::MAX)
    }
}

/// Removing any one entry never raises a correlation id's count.
pub proof fn lemma_count_remove(s: Seq<PendingRequest>, i: int, cid: u64)
    requires
        0 <= i < s.len(),
    ensures
        count_cid(s.remove(i), cid) <= count_cid(s, cid),
    decreases s.len(),
{
    if i == 0 {
        assert(s.remove(0) =~= s.drop_first());
    } else {
        assert(s.remove(i).drop_first() =~= s.drop_first().remove(i - 1));
        lemma_count_remove(s.drop_first(), i - 1, cid);
    }
}

/// Whether the broker accepted `req` from `caller_conn` at `now` and moved
/// from state `pre` to state `post` returning action `a`: the chosen target
/// comes from the replica set (by key hash when keyed, round-robin when not),
/// the envelope is forwarded unchanged, and exactly one pending request was
/// recorded, due to expire one timeout interval later.
pub open spec fn accepted(
    pre: Broker,
    post: Broker,
    caller_conn: u64,
    req: Envelope,
    now: u64,
    a: DispatchAction,
) -> bool {
    let replicas = replicas_spec(pre.registrations@, req.message_type);
    let target = if req.is_keyed() {
        select_spec(replicas, (req.route_key->0)@)
    } else {
        rr_select_spec(replicas, pre.rr_counter)
    };
    &&& Some(a.target_conn) == target
    &&& a.env == req
    &&& post.pending@ == pre.pending@.push(
        PendingRequest {
            correlation_id: req.correlation_id,
            caller_conn,
            target_conn: a.target_conn,
            deadline: (now + pre.timeout) as u64,
            message_type: req.message_type,
        },
    )
    &&& post.rr_counter == if req.is_keyed() {
        pre.rr_counter
    } else if pre.rr_counter == u64::MAX {
        0u64
    } else {
        (pre.rr_counter + 1) as u64
    }
}

/// Keyed stickiness at the broker: while the registration set is unchanged,
/// any two accepted keyed requests of one message type with equal route keys
/// are dispatched to the same replica, whoever sent them and whenever they
/// arrive.
pub proof fn lemma_broker_keyed_stickiness(
    pre1: Broker,
    post1: Broker,
    pre2: Broker,
    post2: Broker,
    caller1: u64,
    caller2: u64,
    req1: Envelope,
    req2: Envelope,
    now1: u64,
    now2: u64,
    a1: DispatchAction,
    a2: DispatchAction,
)
    requires
        pre1.registrations@ == pre2.registrations@,
        req1.message_type == req2.message_type,
        req1.is_keyed(),
        req2.is_keyed(),
        (req1.route_key->0)@ == (req2.route_key->0)@,
        accepted(pre1, post1, caller1, req1, now1, a1),
        accepted(pre2, post2, caller2, req2, now2, a2),
    ensures
        a1.target_conn == a2.target_conn,
{
    crate::routing::lemma_keyed_stickiness(
        replicas_spec(pre1.registrations@, req1.message_type),
        (req1.route_key->0)@,
        (req2.route_key->0)@,
    );
}

/// Whether `v` holds `x`.
fn contains_u64(v: &Vec<u64>, x: u64) -> (b: bool)
    ensures
        b == v@.contains(x),
{
    let mut i: usize = 0;
    while i < v.len()
        invariant
            i <= v.len(),
            forall|j: int| 0 <= j < i ==> v@[j] != x,
        decreases v.len() - i,
    {
        if v[i] == x {
            return true;
        }
        i = i + 1;
    }
    false
}

} // verus!
