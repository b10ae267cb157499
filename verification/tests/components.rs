//! Component-level checks: envelopes, route-key hashing, replica selection,
//! the dispatch table, the connection state machine, and broker bookkeeping.

use route_broker::broker::{Broker, ReplyRouting};
use route_broker::connection::{ConnState, Connection};
use route_broker::dispatch::{complete, DispatchDecision, DispatchTable};
use route_broker::envelope::Envelope;
use route_broker::error::{ErrCode, NetError};
use route_broker::facade::{Facade, Resolution};
use route_broker::routing::{hash_key, rr_select, select_replica};

#[test]
fn request_envelope_fields() {
    let e = Envelope::request(9, 4, Some(b"key".to_vec()), b"body".to_vec());
    assert_eq!(e.correlation_id, 9);
    assert_eq!(e.message_type, 4);
    assert_eq!(e.route_key, Some(b"key".to_vec()));
    assert_eq!(e.payload, Some(b"body".to_vec()));
    assert!(e.error.is_none());
}

#[test]
fn reply_envelopes_carry_exactly_one_of_payload_and_error() {
    let ok = Envelope::reply_ok(9, 4, b"body".to_vec());
    assert_eq!(ok.payload, Some(b"body".to_vec()));
    assert!(ok.error.is_none());
    assert!(ok.route_key.is_none());

    let err = Envelope::reply_err(9, 4, NetError::new(ErrCode::Bug, String::from("boom")));
    assert!(err.payload.is_none());
    let carried = err.error.unwrap();
    assert_eq!(carried.code, ErrCode::Bug);
    assert_eq!(carried.message, "boom");
}

#[test]
fn synthesized_failure_echoes_routing_metadata() {
    let req = Envelope::request(77, 5, None, b"body".to_vec());
    let notice = req.synthesized_failure(ErrCode::Timeout, String::from("too slow"));
    assert_eq!(notice.correlation_id, 77);
    assert_eq!(notice.message_type, 5);
    assert!(notice.payload.is_none());
    let e = notice.error.unwrap();
    assert_eq!(e.code, ErrCode::Timeout);
    assert_eq!(e.message, "too slow");
}

#[test]
fn hash_key_exact_value() {
    // h = 5381; h = (31 h + byte) mod 1_000_000_007 over b"bobo".
    assert_eq!(hash_key(&b"bobo".to_vec()), 972_495_811);
    assert_eq!(hash_key(&Vec::new()), 5381);
}

#[test]
fn replica_selection_is_deterministic_and_in_range() {
    let replicas = vec![10u64, 20, 30];
    let a = select_replica(&replicas, &b"origin/core".to_vec());
    let b = select_replica(&replicas, &b"origin/core".to_vec());
    assert_eq!(a, b);
    assert!(replicas.contains(&a.unwrap()));
    assert_eq!(select_replica(&Vec::new(), &b"origin/core".to_vec()), None);

    assert_eq!(rr_select(&replicas, 0), Some(10));
    assert_eq!(rr_select(&replicas, 1), Some(20));
    assert_eq!(rr_select(&replicas, 2), Some(30));
    assert_eq!(rr_select(&replicas, 3), Some(10));
    assert_eq!(rr_select(&Vec::new(), 0), None);
}

#[test]
fn dispatch_table_first_registration_wins() {
    let mut t = DispatchTable::new();
    assert!(t.register(4, 0));
    assert!(!t.register(4, 1));
    assert_eq!(t.lookup(4), Some(0));
    assert_eq!(t.lookup(5), None);
}

#[test]
fn unregistered_type_is_rejected_without_a_handler() {
    let t = DispatchTable::new();
    let req = Envelope::request(3, 4, None, b"body".to_vec());
    match t.decide(&req) {
        DispatchDecision::Reject { reply } => {
            assert_eq!(reply.correlation_id, 3);
            assert_eq!(reply.message_type, 4);
            assert_eq!(reply.error.unwrap().code, ErrCode::Bug);
        }
        DispatchDecision::Invoke { .. } => panic!("nothing is registered"),
    }
}

#[test]
fn complete_preserves_correlation_id() {
    let req = Envelope::request(3, 4, None, b"body".to_vec());
    let ok = complete(&req, Ok(b"out".to_vec()));
    assert_eq!(ok.correlation_id, 3);
    assert_eq!(ok.payload, Some(b"out".to_vec()));

    let failed = complete(
        &req,
        Err(NetError::new(ErrCode::AccessDenied, String::from("no"))),
    );
    assert_eq!(failed.correlation_id, 3);
    assert_eq!(failed.error.unwrap().code, ErrCode::AccessDenied);
}

#[test]
fn connection_reconnect_backoff_is_bounded_exponential() {
    let mut c = Connection::new(1, 100, 3000);
    assert_eq!(c.state, ConnState::Connecting);
    let mut delays = Vec::new();
    for _ in 0..7 {
        delays.push(c.on_connect_failed());
    }
    assert_eq!(delays, vec![100, 200, 400, 800, 1600, 3000, 3000]);
    assert!(c.on_connected());
    assert_eq!(c.state, ConnState::Ready);
    assert_eq!(c.attempts, 0);
    assert!(c.can_send());
}

#[test]
fn connection_lifecycle_transitions() {
    let mut c = Connection::new(1, 100, 3000);
    assert!(!c.can_send());
    c.on_connected();
    c.on_transport_lost();
    assert_eq!(c.state, ConnState::Connecting);
    c.on_connected();
    c.begin_drain();
    assert_eq!(c.state, ConnState::Draining);
    c.close();
    assert_eq!(c.state, ConnState::Closed);
}

#[test]
fn reregistration_replaces_and_unregister_removes() {
    let mut b = Broker::new(50);
    b.register(String::from("jobs"), 5, vec![1]);
    assert_eq!(b.replicas_for(1), vec![5]);
    // The connection reconnects and re-announces a new table.
    b.register(String::from("jobs"), 5, vec![2]);
    assert_eq!(b.replicas_for(1), Vec::<u64>::new());
    assert_eq!(b.replicas_for(2), vec![5]);
    b.unregister(5);
    assert_eq!(b.replicas_for(2), Vec::<u64>::new());
}

#[test]
fn churn_leaves_pending_requests_to_expire() {
    let mut b = Broker::new(50);
    b.register(String::from("jobs"), 5, vec![1]);
    let req = Envelope::request(1, 1, None, b"x".to_vec());
    b.accept_request(9, req, 1000).expect("route exists");
    // The replica dies; its pending request is not retried.
    b.unregister(5);
    assert_eq!(b.pending.len(), 1);
    let notices = b.expire(1050);
    assert_eq!(notices.len(), 1);
    assert_eq!(notices[0].0, 9);
    assert_eq!(notices[0].1.error.as_ref().unwrap().code, ErrCode::Timeout);
    assert_eq!(b.pending.len(), 0);
}

#[test]
fn expire_takes_only_overdue_requests() {
    let mut b = Broker::new(50);
    b.register(String::from("jobs"), 5, vec![1]);
    let early = Envelope::request(1, 1, None, b"x".to_vec());
    b.accept_request(9, early, 1000).expect("route exists");
    let late = Envelope::request(2, 1, None, b"y".to_vec());
    b.accept_request(9, late, 1030).expect("route exists");

    let notices = b.expire(1060);
    assert_eq!(notices.len(), 1);
    assert_eq!(notices[0].1.correlation_id, 1);
    assert_eq!(b.pending.len(), 1);
    assert_eq!(b.pending[0].correlation_id, 2);
}

#[test]
fn drain_times_out_everything_outstanding() {
    let mut b = Broker::new(50);
    b.register(String::from("jobs"), 5, vec![1]);
    for cid in 0..3u64 {
        let req = Envelope::request(cid, 1, None, b"x".to_vec());
        b.accept_request(9, req, 1000).expect("route exists");
    }
    let notices = b.drain();
    assert_eq!(notices.len(), 3);
    for (conn, env) in &notices {
        assert_eq!(*conn, 9);
        assert_eq!(env.error.as_ref().unwrap().code, ErrCode::Timeout);
    }
    assert_eq!(b.pending.len(), 0);
}

#[test]
fn duplicate_correlation_id_is_a_bug() {
    let mut b = Broker::new(50);
    b.register(String::from("jobs"), 5, vec![1]);
    let first = Envelope::request(1, 1, None, b"x".to_vec());
    b.accept_request(9, first, 1000).expect("route exists");
    let dup = Envelope::request(1, 1, None, b"y".to_vec());
    match b.accept_request(9, dup, 1001) {
        Err(e) => assert_eq!(e.code, ErrCode::Bug),
        Ok(_) => panic!("a correlation id may not be reused while in flight"),
    }
    assert_eq!(b.pending.len(), 1);
}

#[test]
fn facade_draws_fresh_correlation_ids() {
    let mut f = Facade::new(50);
    let a = f.begin(1, None, b"x".to_vec(), 1000);
    let b = f.begin(1, None, b"y".to_vec(), 1000);
    assert_eq!(a.correlation_id, 0);
    assert_eq!(b.correlation_id, 1);
    assert_eq!(f.pending.len(), 2);
}

#[test]
fn facade_timeout_probe_is_stale_until_due() {
    let mut f = Facade::new(50);
    let env = f.begin(1, None, b"x".to_vec(), 1000);
    let cid = env.correlation_id;
    assert!(matches!(f.resolve_timeout(cid, 1050), Resolution::Stale));
    match f.resolve_timeout(cid, 1051) {
        Resolution::Resolved(Err(e)) => assert_eq!(e.code, ErrCode::Timeout),
        _ => panic!("deadline has passed"),
    }
}

#[test]
fn facade_disconnect_resolves_outstanding_call() {
    let mut f = Facade::new(50);
    let env = f.begin(1, None, b"x".to_vec(), 1000);
    let cid = env.correlation_id;
    match f.resolve_disconnect(cid) {
        Resolution::Resolved(Err(e)) => assert_eq!(e.code, ErrCode::Disconnected),
        _ => panic!("the call was outstanding"),
    }
    assert!(matches!(f.resolve_disconnect(cid), Resolution::Stale));
}

#[test]
fn late_reply_resolves_as_timeout_and_discards_payload() {
    let mut f = Facade::new(50);
    let env = f.begin(1, None, b"x".to_vec(), 1000);
    let cid = env.correlation_id;
    let reply = Envelope::reply_ok(cid, 1, b"too late".to_vec());
    match f.resolve_reply(reply, 1051) {
        Resolution::Resolved(Err(e)) => assert_eq!(e.code, ErrCode::Timeout),
        _ => panic!("late replies must not deliver their payload"),
    }
}

#[test]
fn stale_reply_routing_drops_unknown_ids() {
    let mut b = Broker::new(50);
    let reply = Envelope::reply_ok(99, 1, b"ghost".to_vec());
    assert!(matches!(b.on_reply(reply), ReplyRouting::Stale));
}

#[test]
fn send_enqueues_only_when_ready() {
    let mut c = Connection::new(1, 100, 3000);
    let env = Envelope::request(5, 4, None, b"x".to_vec());
    // Not yet connected: the envelope comes back instead of being lost.
    let refused = c.send(env).expect_err("session is not ready");
    assert_eq!(refused.correlation_id, 5);

    c.on_connected();
    c.send(refused).expect("session is ready");
    let env2 = Envelope::request(6, 4, None, b"y".to_vec());
    c.send(env2).expect("session is ready");

    let sent = c.take_outbox();
    assert_eq!(sent.len(), 2);
    assert_eq!(sent[0].correlation_id, 5);
    assert_eq!(sent[1].correlation_id, 6);
    assert!(c.outbox.is_empty());
}
