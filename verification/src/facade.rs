//! The client routing facade: the call-and-block API a caller uses to issue
//! one routed request and receive exactly one typed outcome.
//!
//! [`Facade::begin`] derives the envelope for a request — fresh correlation
//! id, route key, payload — and records the pending call with its client-side
//! deadline. The host sends the envelope, parks the calling context, and later
//! feeds whichever event arrives first — a reply envelope, the deadline
//! passing, the connection dropping — into the matching `resolve_*` operation.
//! Exactly one event resolves the call; every later event for the same
//! correlation id is stale and changes nothing. Correlation ids are drawn from
//! a monotone counter and never reused.

use vstd::pervasive::unreached;
use vstd::prelude::*;
use vstd::string::StringExecFns;

use crate::envelope::Envelope;
use crate::error::ErrCode;
use crate::error::NetError;
use crate::error::NetResult;

verus! {

/// Caller-side bookkeeping for one outstanding `route` call.
#[derive(Clone, Copy, Debug)]
pub struct PendingCall {
    /// The call's correlation id.
    pub correlation_id: u64,
    /// Instant after which the caller gives up and reports a timeout.
    pub deadline: u64,
}

/// How many pending calls in `s` carry correlation id `cid`.
pub open spec fn count_call(s: Seq<PendingCall>, cid: u64) -> nat
    decreases s.len(),
{
    if s.len() == 0 {
        0
    } else {
        (if s[0].correlation_id == cid {
            1 as nat
        } else {
            0
        }) + count_call(s.drop_first(), cid)
    }
}

/// The first pending call in `s` with correlation id `cid`, if any.
pub open spec fn find_call(s: Seq<PendingCall>, cid: u64) -> Option<PendingCall>
    decreases s.len(),
{
    if s.len() == 0 {
        None
    } else if s[0].correlation_id == cid {
        Some(s[0])
    } else {
        find_call(s.drop_first(), cid)
    }
}

/// Whether some pending call in `s` carries correlation id `cid`.
pub open spec fn call_pends_in(s: Seq<PendingCall>, cid: u64) -> bool {
    find_call(s, cid) is Some
}

/// `s` with every pending call for `cid` removed.
pub open spec fn without_call(s: Seq<PendingCall>, cid: u64) -> Seq<PendingCall>
    decreases s.len(),
{
    if s.len() == 0 {
        s
    } else if s[0].correlation_id == cid {
        without_call(s.drop_first(), cid)
    } else {
        seq![s[0]] + without_call(s.drop_first(), cid)
    }
}

/// A lookup succeeds exactly when the id's count is positive, and what it
/// finds carries that id.
pub proof fn lemma_find_count_call(s: Seq<PendingCall>, cid: u64)
    ensures
        call_pends_in(s, cid) <==> count_call(s, cid) > 0,
        find_call(s, cid) matches Some(p) ==> p.correlation_id == cid,
    decreases s.len(),
{
    if s.len() > 0 {
        lemma_find_count_call(s.drop_first(), cid);
    }
}

/// An id that occurs nowhere is counted zero times.
pub proof fn lemma_count_call_zero(s: Seq<PendingCall>, cid: u64)
    requires
        forall|i: int| 0 <= i < s.len() ==> (#[trigger] s[i]).correlation_id != cid,
    ensures
        count_call(s, cid) == 0,
    decreases s.len(),
{
    if s.len() > 0 {
        assert(forall|i: int|
            0 <= i < s.drop_first().len() ==> #[trigger] s.drop_first()[i] == s[i + 1]);
        lemma_count_call_zero(s.drop_first(), cid);
    }
}

/// Appending one pending call raises exactly its own id's count by one.
pub proof fn lemma_count_call_push(s: Seq<PendingCall>, p: PendingCall, cid: u64)
    ensures
        count_call(s.push(p), cid) == count_call(s, cid) + (if p.correlation_id == cid {
            1 as nat
        } else {
            0
        }),
    decreases s.len(),
{
    if s.len() == 0 {
        assert(s.push(p).drop_first() =~= s);
    } else {
        assert(s.push(p).drop_first() =~= s.drop_first().push(p));
        lemma_count_call_push(s.drop_first(), p, cid);
    }
}

/// Resolving a call removes its id completely and leaves every other id's
/// count untouched.
pub proof fn lemma_without_call_count(s: Seq<PendingCall>, cid: u64, other: u64)
    ensures
        count_call(without_call(s, cid), cid) == 0,
        other != cid ==> count_call(without_call(s, cid), other) == count_call(s, other),
    decreases s.len(),
{
    if s.len() > 0 {
        lemma_without_call_count(s.drop_first(), cid, other);
        if s[0].correlation_id != cid {
            assert((seq![s[0]] + without_call(s.drop_first(), cid)).drop_first() =~= without_call(
                s.drop_first(),
                cid,
            ));
        }
    }
}

/// At-most-one reply: once any event has resolved a correlation id — which
/// removes it from the pending table — the id is no longer pending, so every
/// later reply, timeout or disconnect bearing it is stale by the resolvers'
/// contracts and resolves nothing a second time.
pub proof fn lemma_at_most_one_resolution(s: Seq<PendingCall>, cid: u64)
    ensures
        !call_pends_in(without_call(s, cid), cid),
{
    lemma_without_call_count(s, cid, cid);
    lemma_find_count_call(without_call(s, cid), cid);
}

/// Resolving one call does not disturb any other: concurrent `route` calls on
/// distinct correlation ids proceed independently.
pub proof fn lemma_resolution_independent(s: Seq<PendingCall>, cid: u64, other: u64)
    requires
        other != cid,
    ensures
        find_call(without_call(s, cid), other) == find_call(s, other),
    decreases s.len(),
{
    if s.len() > 0 {
        lemma_resolution_independent(s.drop_first(), cid, other);
        if s[0].correlation_id != cid {
            assert((seq![s[0]] + without_call(s.drop_first(), cid)).drop_first() =~= without_call(
                s.drop_first(),
                cid,
            ));
        }
    }
}

/// Removing an id that never occurs changes nothing.
proof fn lemma_without_call_identity(s: Seq<PendingCall>, cid: u64)
    requires
        count_call(s, cid) == 0,
    ensures
        without_call(s, cid) == s,
    decreases s.len(),
{
    if s.len() > 0 {
        lemma_without_call_identity(s.drop_first(), cid);
        assert(seq![s[0]] + s.drop_first() =~= s);
    }
}

/// While at most one pending call bears `cid`, removing the first match in
/// place removes every match.
proof fn lemma_remove_first_call(s: Seq<PendingCall>, i: int, cid: u64)
    requires
        forall|c: u64| #[trigger] count_call(s, c) <= 1,
        0 <= i < s.len(),
        s[i].correlation_id == cid,
        forall|j: int| 0 <= j < i ==> s[j].correlation_id != cid,
    ensures
        without_call(s, cid) == s.subrange(0, i) + s.subrange(i + 1, s.len() as int),
    decreases s.len(),
{
    if i == 0 {
        assert(count_call(s, cid) <= 1);
        lemma_without_call_identity(s.drop_first(), cid);
        assert(s.drop_first() =~= s.subrange(1, s.len() as int));
        assert(s.subrange(0, 0) + s.subrange(1, s.len() as int) =~= s.subrange(
            1,
            s.len() as int,
        ));
    } else {
        assert(forall|c: u64| #[trigger] count_call(s.drop_first(), c) <= count_call(s, c));
        assert(s.drop_first()[i - 1] == s[i]);
        assert(forall|j: int|
            0 <= j < i - 1 ==> #[trigger] s.drop_first()[j].correlation_id != cid) by {
            assert(forall|j: int| 0 <= j < i - 1 ==> s.drop_first()[j] == s[j + 1]);
        }
        lemma_remove_first_call(s.drop_first(), i - 1, cid);
        assert(seq![s[0]] + (s.drop_first().subrange(0, i - 1) + s.drop_first().subrange(
            i,
            s.drop_first().len() as int,
        )) =~= s.subrange(0, i) + s.subrange(i + 1, s.len() as int));
    }
}

/// The terminal effect of one event on one `route` call.
#[derive(Debug)]
pub enum Resolution {
    /// The call completed with this outcome: the decoded reply, the handler's
    /// error carried through unchanged, or an infrastructure error (timeout,
    /// disconnect). Exactly one `Resolved` is ever produced per call.
    Resolved(NetResult<Vec<u8>>),
    /// The event matched no outstanding call — a duplicate or late delivery,
    /// a timeout probe that was not due, an already-resolved id — and changed
    /// nothing.
    Stale,
}

/// The caller-side state of the routing facade: the correlation-id counter,
/// the outstanding calls, and the configured client-side timeout.
#[derive(Clone, Debug)]
pub struct Facade {
    /// Source of fresh correlation ids: every id below it is spent and never
    /// reused.
    pub next_correlation: u64,
    /// One entry per `route` call awaiting its outcome.
    pub pending: Vec<PendingCall>,
    /// How long a call waits for its reply before reporting `Timeout`, in the
    /// host's clock units.
    pub timeout: u64,
}

impl Facade {
    /// Facade invariant: every outstanding id was drawn from the counter (so
    /// the next id is fresh), and at most one call is outstanding per id.
    pub open spec fn wf(self) -> bool {
        &&& forall|i: int|
            0 <= i < self.pending@.len() ==> (#[trigger] self.pending@[i]).correlation_id
                < self.next_correlation
        &&& forall|cid: u64| #[trigger] count_call(self.pending@, cid) <= 1
    }

    /// Whether a call with this correlation id is outstanding.
    pub open spec fn pends(self, cid: u64) -> bool {
        call_pends_in(self.pending@, cid)
    }

    /// A facade with no calls in flight.
    pub fn new(timeout: u64) -> (f: Facade)
        ensures
            f.next_correlation == 0,
            f.pending@ == Seq::<PendingCall>::empty(),
            f.timeout == timeout,
            f.wf(),
    {
        Facade { next_correlation: 0, pending: Vec::new(), timeout }
    }

    /// Fresh correlation ids stay fresh: while the facade is well-formed, the
    /// id the next call will draw is never already outstanding, so an id is
    /// never reused while a pending call could still be resolved by it.
    pub proof fn lemma_fresh_correlation_id(self)
        requires
            self.wf(),
        ensures
            !self.pends(self.next_correlation),
    {
        lemma_count_call_zero(self.pending@, self.next_correlation);
        lemma_find_count_call(self.pending@, self.next_correlation);
    }

    /// Starts one routed call: draws a fresh correlation id, records the
    /// pending call with its client-side deadline, and returns the request
    /// envelope for the host to send. The calling context then blocks until
    /// one `resolve_*` event produces its outcome.
    pub fn begin(
        &mut self,
        message_type: u64,
        route_key: Option<Vec<u8>>,
        payload: Vec<u8>,
        now: u64,
    ) -> (env: Envelope)
        requires
            old(self).wf(),
            old(self).next_correlation < u64::MAX,
            now <= u64::MAX - old(self).timeout,
        ensures
            final(self).wf(),
            env.req_wf(),
            env.correlation_id == old(self).next_correlation,
            env.message_type == message_type,
            env.route_key == route_key,
            env.payload == Some(payload),
            !old(self).pends(env.correlation_id),
            final(self).pending@ == old(self).pending@.push(
                PendingCall {
                    correlation_id: old(self).next_correlation,
                    deadline: (now + old(self).timeout) as u64,
                },
            ),
            final(self).next_correlation == old(self).next_correlation + 1,
            final(self).timeout == old(self).timeout,
    {
        let cid = self.next_correlation;
        let entry = PendingCall { correlation_id: cid, deadline: now + self.timeout };
        proof {
            self.lemma_fresh_correlation_id();
            lemma_count_call_zero(self.pending@, cid);
            assert forall|c: u64| #[trigger] count_call(self.pending@.push(entry), c) <= 1 by {
                lemma_count_call_push(self.pending@, entry, c);
            }
            assert(forall|i: int|
                0 <= i < self.pending@.push(entry).len() ==> (#[trigger] self.pending@.push(
                    entry,
                )[i]).correlation_id < cid + 1);
        }
        self.pending.push(entry);
        self.next_correlation = self.next_correlation + 1;
        Envelope::request(cid, message_type, route_key, payload)
    }

    /// Removes and returns the pending call bearing `cid`, if one is
    /// outstanding.
    fn take_call(&mut self, cid: u64) -> (removed: Option<PendingCall>)
        requires
            old(self).wf(),
        ensures
            removed == find_call(old(self).pending@, cid),
            removed is Some ==> final(self).pending@ == without_call(old(self).pending@, cid),
            removed is None ==> final(self).pending == old(self).pending,
            final(self).next_correlation == old(self).next_correlation,
            final(self).timeout == old(self).timeout,
            final(self).wf(),
    {
        let ghost s = self.pending@;
        let mut i: usize = 0;
        proof {
            assert(s.skip(0) =~= s);
        }
        while i < self.pending.len()
            invariant
                i <= self.pending.len(),
                s == self.pending@,
                old(self).wf(),
                self.pending == old(self).pending,
                self.next_correlation == old(self).next_correlation,
                self.timeout == old(self).timeout,
                forall|j: int| 0 <= j < i ==> s[j].correlation_id != cid,
                find_call(s.skip(i as int), cid) == find_call(s, cid),
            decreases self.pending.len() - i,
        {
            proof {
                assert(s.skip(i as int).drop_first() =~= s.skip(i + 1));
            }
            if self.pending[i].correlation_id == cid {
                let p = self.pending.remove(i);
                proof {
                    assert(s.skip(i as int)[0] == s[i as int]);
                    lemma_remove_first_call(s, i as int, cid);
                    assert(self.pending@ =~= s.subrange(0, i as int) + s.subrange(
                        i + 1,
                        s.len() as int,
                    ));
                    assert forall|c: u64| #[trigger] count_call(self.pending@, c) <= 1 by {
                        lemma_without_call_count(s, cid, c);
                    }
                    assert forall|j: int|
                        0 <= j < self.pending@.len() implies (
                    #[trigger] self.pending@[j]).correlation_id
                        < self.next_correlation by {
                        if j < i {
                            assert(self.pending@[j] == s[j]);
                        } else {
                            assert(self.pending@[j] == s[j + 1]);
                        }
                    }
                }
                return Some(p);
            }
            i = i + 1;
        }
        proof {
            assert(s.skip(i as int) =~= Seq::<PendingCall>::empty());
        }
        None
    }

    /// Applies an inbound reply envelope. If its correlation id matches an
    /// outstanding call, that call resolves — exactly once — and the id is no
    /// longer pending: an on-time reply resolves to the carried payload or to
    /// the handler's error unchanged; a reply arriving past the call's
    /// deadline resolves to `Timeout` and the late payload is discarded. A
    /// reply matching no outstanding call is stale and changes nothing.
    pub fn resolve_reply(&mut self, reply: Envelope, now: u64) -> (r: Resolution)
        requires
            old(self).wf(),
            reply.reply_wf(),
        ensures
            final(self).wf(),
            final(self).next_correlation == old(self).next_correlation,
            final(self).timeout == old(self).timeout,
            !old(self).pends(reply.correlation_id) ==> r is Stale && *final(self) == *old(self),
            old(self).pends(reply.correlation_id) ==> final(self).pending@ == without_call(
                old(self).pending@,
                reply.correlation_id,
            ) && !final(self).pends(reply.correlation_id),
            (old(self).pends(reply.correlation_id) && now <= find_call(
                old(self).pending@,
                reply.correlation_id,
            )->0.deadline) ==> r == match reply.payload {
                Some(p) => Resolution::Resolved(Ok(p)),
                None => match reply.error {
                    Some(e) => Resolution::Resolved(Err(e)),
                    None => Resolution::Stale,
                },
            },
            (old(self).pends(reply.correlation_id) && now > find_call(
                old(self).pending@,
                reply.correlation_id,
            )->0.deadline) ==> (r matches Resolution::Resolved(res) && res matches Err(e)
                && e.code == ErrCode::Timeout),
    {
        let cid = reply.correlation_id;
        match self.take_call(cid) {
            None => {
                proof {
                    lemma_find_count_call(old(self).pending@, cid);
                }
                Resolution::Stale
            },
            Some(entry) => {
                proof {
                    lemma_at_most_one_resolution(old(self).pending@, cid);
                }
                if now <= entry.deadline {
                    match reply.payload {
                        Some(p) => Resolution::Resolved(Ok(p)),
                        None => match reply.error {
                            Some(e) => Resolution::Resolved(Err(e)),
                            None => unreached(),
                        },
                    }
                } else {
                    Resolution::Resolved(
                        Err(
                            NetError::new(
                                ErrCode::Timeout,
                                String::from_str("reply arrived after the deadline"),
                            ),
                        ),
                    )
                }
            },
        }
    }

    /// Applies the client-side deadline. A call whose deadline has passed
    /// resolves to `Timeout` — even if a broker-side reply is still on its
    /// way; that late reply will then be stale. A probe for an id that is not
    /// outstanding, or whose deadline has not yet passed, is stale and
    /// changes nothing.
    pub fn resolve_timeout(&mut self, cid: u64, now: u64) -> (r: Resolution)
        requires
            old(self).wf(),
        ensures
            final(self).wf(),
            final(self).next_correlation == old(self).next_correlation,
            final(self).timeout == old(self).timeout,
            (!old(self).pends(cid) || now <= find_call(old(self).pending@, cid)->0.deadline)
                ==> r is Stale && *final(self) == *old(self),
            (old(self).pends(cid) && now > find_call(old(self).pending@, cid)->0.deadline) ==> (
            r matches Resolution::Resolved(res) && res matches Err(e) && e.code
                == ErrCode::Timeout && final(self).pending@ == without_call(
                old(self).pending@,
                cid,
            ) && !final(self).pends(cid)),
    {
        let due = match self.find_deadline(cid) {
            Some(deadline) => now > deadline,
            None => false,
        };
        if !due {
            return Resolution::Stale;
        }
        let _taken = self.take_call(cid);
        proof {
            lemma_at_most_one_resolution(old(self).pending@, cid);
        }
        Resolution::Resolved(
            Err(
                NetError::new(
                    ErrCode::Timeout,
                    String::from_str("no reply within the deadline"),
                ),
            ),
        )
    }

    /// The local connection was lost while calls were outstanding. Redelivery
    /// is not guaranteed across a reconnect, so an outstanding call resolves
    /// to `Disconnected` rather than hanging forever; an id that is not
    /// outstanding is stale.
    pub fn resolve_disconnect(&mut self, cid: u64) -> (r: Resolution)
        requires
            old(self).wf(),
        ensures
            final(self).wf(),
            final(self).next_correlation == old(self).next_correlation,
            final(self).timeout == old(self).timeout,
            !old(self).pends(cid) ==> r is Stale && *final(self) == *old(self),
            old(self).pends(cid) ==> (r matches Resolution::Resolved(res) && res matches Err(e)
                && e.code == ErrCode::Disconnected && final(self).pending@ == without_call(
                old(self).pending@,
                cid,
            ) && !final(self).pends(cid)),
    {
        match self.take_call(cid) {
            None => {
                proof {
                    lemma_find_count_call(old(self).pending@, cid);
                }
                Resolution::Stale
            },
            Some(_entry) => {
                proof {
                    lemma_at_most_one_resolution(old(self).pending@, cid);
                }
                Resolution::Resolved(
                    Err(
                        NetError::new(
                            ErrCode::Disconnected,
                            String::from_str("connection to the broker was lost"),
                        ),
                    ),
                )
            },
        }
    }

    /// Looks up the deadline of the outstanding call bearing `cid`.
    fn find_deadline(&self, cid: u64) -> (r: Option<u64>)
        ensures
            r == match find_call(self.pending@, cid) {
                Some(p) => Some(p.deadline),
                None => None::<u64>,
            },
    {
        let ghost s = self.pending@;
        let mut i: usize = 0;
        proof {
            assert(s.skip(0) =~= s);
        }
        while i < self.pending.len()
            invariant
                i <= self.pending.len(),
                s == self.pending@,
                find_call(s.skip(i as int), cid) == find_call(s, cid),
            decreases self.pending.len() - i,
        {
            proof {
                assert(s.skip(i as int).drop_first() =~= s.skip(i + 1));
            }
            if self.pending[i].correlation_id == cid {
                proof {
                    assert(s.skip(i as int)[0] == s[i as int]);
                }
                return Some(self.pending[i].deadline);
            }
            i = i + 1;
        }
        proof {
            assert(s.skip(i as int) =~= Seq::<PendingCall>::empty());
        }
        None
    }
}

} // verus!
