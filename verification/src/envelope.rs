//! The wire envelope: the unit of transport between services and the broker.
//!
//! An envelope carries an opaque payload together with the routing metadata
//! the broker needs: a message-type discriminator, an optional route key and
//! a correlation id. Replies additionally carry an optional structured error,
//! mutually exclusive with a successful payload. Envelopes are immutable once
//! sent; every hop echoes the correlation id unchanged.

use vstd::prelude::*;

use crate::error::ErrCode;
use crate::error::NetError;

verus! {

/// The unit of transport.
///
/// A request envelope has a payload and no error; a reply envelope has
/// exactly one of payload and error, and no route key. The well-formedness
/// predicates [`Envelope::req_wf`] and [`Envelope::reply_wf`] state these
/// shapes, constructors establish them, and the broker and dispatcher
/// preserve them.
#[derive(Clone, Debug)]
pub struct Envelope {
    /// Unique per in-flight request, generated by the caller; echoed unchanged
    /// by every hop. The only information used to route a reply.
    pub correlation_id: u64,
    /// Stable discriminator identifying the concrete request/reply schema.
    pub message_type: u64,
    /// Bytes used by the broker to select a target replica. `Some` on keyed
    /// requests, `None` on unkeyed requests and on replies.
    pub route_key: Option<Vec<u8>>,
    /// Opaque serialized request or reply body. `None` on an error reply.
    pub payload: Option<Vec<u8>>,
    /// Structured error slot. `None` on requests and successful replies.
    pub error: Option<NetError>,
}

impl Envelope {
    /// A well-formed request: carries a payload, never an error.
    pub open spec fn req_wf(self) -> bool {
        &&& self.payload is Some
        &&& self.error is None
    }

    /// A well-formed reply: no route key, and exactly one of payload and
    /// error is set.
    pub open spec fn reply_wf(self) -> bool {
        &&& self.route_key is None
        &&& (self.payload is Some) != (self.error is Some)
    }

    /// Whether this envelope is keyed for sharded routing.
    pub open spec fn is_keyed(self) -> bool {
        self.route_key is Some
    }

    /// Builds a request envelope. `route_key` is `Some` for a keyed request
    /// (derived deterministically from the request's identifying fields) and
    /// `None` for an unkeyed one.
    pub fn request(
        correlation_id: u64,
        message_type: u64,
        route_key: Option<Vec<u8>>,
        payload: Vec<u8>,
    ) -> (e: Envelope)
        ensures
            e.req_wf(),
            e.correlation_id == correlation_id,
            e.message_type == message_type,
            e.route_key == route_key,
            e.payload == Some(payload),
    {
        Envelope { correlation_id, message_type, route_key, payload: Some(payload), error: None }
    }

    /// Builds a successful reply carrying `payload`, echoing the request's
    /// correlation id.
    pub fn reply_ok(correlation_id: u64, message_type: u64, payload: Vec<u8>) -> (e: Envelope)
        ensures
            e.reply_wf(),
            e.correlation_id == correlation_id,
            e.message_type == message_type,
            e.payload == Some(payload),
            e.error is None,
    {
        Envelope {
            correlation_id,
            message_type,
            route_key: None,
            payload: Some(payload),
            error: None,
        }
    }

    /// Builds an error reply carrying `error`, echoing the request's
    /// correlation id.
    pub fn reply_err(correlation_id: u64, message_type: u64, error: NetError) -> (e: Envelope)
        ensures
            e.reply_wf(),
            e.correlation_id == correlation_id,
            e.message_type == message_type,
            e.payload is None,
            e.error == Some(error),
    {
        Envelope { correlation_id, message_type, route_key: None, payload: None, error: Some(error) }
    }

    /// Builds the reply the infrastructure synthesizes for a request that
    /// produced no handler reply: same correlation id and message type, the
    /// given failure category, no payload.
    pub fn synthesized_failure(&self, code: ErrCode, message: String) -> (e: Envelope)
        ensures
            e.reply_wf(),
            e.correlation_id == self.correlation_id,
            e.message_type == self.message_type,
            e.payload is None,
            e.error matches Some(err) && err.code == code && err.message == message,
    {
        Envelope {
            correlation_id: self.correlation_id,
            message_type: self.message_type,
            route_key: None,
            payload: None,
            error: Some(NetError::new(code, message)),
        }
    }
}

} // verus!
