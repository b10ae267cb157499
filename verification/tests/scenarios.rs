//! End-to-end scenarios: a caller, the broker, and a handler-side dispatcher
//! wired together in memory, driven through one request/reply exchange each.

use route_broker::broker::{Broker, ReplyRouting};
use route_broker::dispatch::{complete, DispatchDecision, DispatchTable};
use route_broker::envelope::Envelope;
use route_broker::error::{ErrCode, NetError};
use route_broker::facade::{Facade, Resolution};

const ACCOUNT_GET: u64 = 100;
const JOB_CANCEL: u64 = 200;

const CALLER_CONN: u64 = 1;
const ACCOUNTS_CONN: u64 = 7;

/// The "accounts" service's handler for `AccountGet`: returns the account
/// record for the one known name, `NotFound` otherwise.
fn account_get_handler(payload: &[u8]) -> Result<Vec<u8>, NetError> {
    if payload == b"bobo" {
        let mut reply = b"account:".to_vec();
        reply.extend_from_slice(payload);
        Ok(reply)
    } else {
        Err(NetError::new(
            ErrCode::NotFound,
            String::from("no such account"),
        ))
    }
}

/// Runs one full exchange through facade, broker and dispatcher.
fn exchange(
    facade: &mut Facade,
    broker: &mut Broker,
    table: &DispatchTable,
    message_type: u64,
    route_key: Option<Vec<u8>>,
    payload: Vec<u8>,
    now: u64,
) -> Resolution {
    let env = facade.begin(message_type, route_key, payload, now);
    let cid = env.correlation_id;
    match broker.accept_request(CALLER_CONN, env, now) {
        Err(e) => {
            // No route: the facade call resolves with the synthesized error.
            let notice = Envelope::reply_err(cid, message_type, e);
            facade.resolve_reply(notice, now)
        }
        Ok(action) => {
            let reply = match table.decide(&action.env) {
                DispatchDecision::Invoke { handler: _ } => {
                    let result = account_get_handler(action.env.payload.as_ref().unwrap());
                    complete(&action.env, result)
                }
                DispatchDecision::Reject { reply } => reply,
            };
            match broker.on_reply(reply) {
                ReplyRouting::Deliver { caller_conn, env } => {
                    assert_eq!(caller_conn, CALLER_CONN);
                    facade.resolve_reply(env, now)
                }
                ReplyRouting::Stale => Resolution::Stale,
            }
        }
    }
}

#[test]
fn happy_path_account_get() {
    let mut broker = Broker::new(50);
    let mut facade = Facade::new(50);
    let mut table = DispatchTable::new();
    assert!(table.register(ACCOUNT_GET, 0));
    broker.register(String::from("accounts"), ACCOUNTS_CONN, vec![ACCOUNT_GET]);

    let outcome = exchange(
        &mut facade,
        &mut broker,
        &table,
        ACCOUNT_GET,
        Some(b"bobo".to_vec()),
        b"bobo".to_vec(),
        1000,
    );
    match outcome {
        Resolution::Resolved(Ok(reply)) => assert_eq!(reply, b"account:bobo".to_vec()),
        _ => panic!("expected a successful reply"),
    }
    assert_eq!(broker.pending.len(), 0);
    assert_eq!(facade.pending.len(), 0);
}

#[test]
fn no_handler_yields_no_shard() {
    let mut broker = Broker::new(50);
    let mut facade = Facade::new(50);
    let mut table = DispatchTable::new();
    assert!(table.register(ACCOUNT_GET, 0));
    broker.register(String::from("accounts"), ACCOUNTS_CONN, vec![ACCOUNT_GET]);

    // Nobody registered JobCancel.
    let outcome = exchange(
        &mut facade,
        &mut broker,
        &table,
        JOB_CANCEL,
        None,
        42u64.to_be_bytes().to_vec(),
        1000,
    );
    match outcome {
        Resolution::Resolved(Err(e)) => assert_eq!(e.code, ErrCode::NoShard),
        _ => panic!("expected NoShard"),
    }
    // No pending request was created for the unroutable request.
    assert_eq!(broker.pending.len(), 0);
}

#[test]
fn handler_failure_passes_through_unchanged() {
    let mut broker = Broker::new(50);
    let mut facade = Facade::new(50);
    let mut table = DispatchTable::new();
    assert!(table.register(ACCOUNT_GET, 0));
    broker.register(String::from("accounts"), ACCOUNTS_CONN, vec![ACCOUNT_GET]);

    let outcome = exchange(
        &mut facade,
        &mut broker,
        &table,
        ACCOUNT_GET,
        Some(b"absent".to_vec()),
        b"absent".to_vec(),
        1000,
    );
    match outcome {
        Resolution::Resolved(Err(e)) => {
            assert_eq!(e.code, ErrCode::NotFound);
            assert_eq!(e.message, "no such account");
        }
        _ => panic!("expected the handler's NotFound, unchanged"),
    }
}

#[test]
fn slow_handler_times_out_and_late_reply_is_dropped() {
    let mut broker = Broker::new(50);
    let mut facade = Facade::new(50);
    broker.register(String::from("accounts"), ACCOUNTS_CONN, vec![ACCOUNT_GET]);

    let env = facade.begin(ACCOUNT_GET, Some(b"bobo".to_vec()), b"bobo".to_vec(), 1000);
    let cid = env.correlation_id;
    let request = broker
        .accept_request(CALLER_CONN, env, 1000)
        .expect("route exists");

    // The handler is still busy when both deadlines pass.
    let notices = broker.expire(2000);
    assert_eq!(notices.len(), 1);
    let (to_conn, notice) = &notices[0];
    assert_eq!(*to_conn, CALLER_CONN);
    assert_eq!(notice.correlation_id, cid);
    assert_eq!(notice.error.as_ref().unwrap().code, ErrCode::Timeout);

    match facade.resolve_timeout(cid, 2000) {
        Resolution::Resolved(Err(e)) => assert_eq!(e.code, ErrCode::Timeout),
        _ => panic!("expected the client-side timeout"),
    }

    // The handler finally answers; its late reply finds nothing outstanding.
    let late = complete(&request.env, Ok(b"account:bobo".to_vec()));
    assert!(matches!(broker.on_reply(late), ReplyRouting::Stale));
    let late_again = Envelope::reply_ok(cid, ACCOUNT_GET, b"account:bobo".to_vec());
    assert!(matches!(
        facade.resolve_reply(late_again, 2001),
        Resolution::Stale
    ));
}

#[test]
fn duplicate_delivery_resolves_only_once() {
    let mut broker = Broker::new(50);
    let mut facade = Facade::new(50);
    broker.register(String::from("accounts"), ACCOUNTS_CONN, vec![ACCOUNT_GET]);

    let env = facade.begin(ACCOUNT_GET, None, b"bobo".to_vec(), 1000);
    let cid = env.correlation_id;
    broker
        .accept_request(CALLER_CONN, env, 1000)
        .expect("route exists");

    let reply = Envelope::reply_ok(cid, ACCOUNT_GET, b"account:bobo".to_vec());
    assert!(matches!(
        broker.on_reply(reply),
        ReplyRouting::Deliver { .. }
    ));
    // The broker receives the same reply a second time: dropped.
    let dup = Envelope::reply_ok(cid, ACCOUNT_GET, b"account:bobo".to_vec());
    assert!(matches!(broker.on_reply(dup), ReplyRouting::Stale));

    // The facade resolves once, then every further delivery is stale.
    let first = Envelope::reply_ok(cid, ACCOUNT_GET, b"account:bobo".to_vec());
    assert!(matches!(
        facade.resolve_reply(first, 1001),
        Resolution::Resolved(Ok(_))
    ));
    let second = Envelope::reply_ok(cid, ACCOUNT_GET, b"account:bobo".to_vec());
    assert!(matches!(
        facade.resolve_reply(second, 1002),
        Resolution::Stale
    ));
    assert!(matches!(
        facade.resolve_timeout(cid, 5000),
        Resolution::Stale
    ));
    assert!(matches!(facade.resolve_disconnect(cid), Resolution::Stale));
}

#[test]
fn replies_reach_their_own_callers() {
    let mut broker = Broker::new(50);
    broker.register(String::from("accounts"), ACCOUNTS_CONN, vec![ACCOUNT_GET]);

    let mut facade = Facade::new(50);
    let env_a = facade.begin(ACCOUNT_GET, None, b"first".to_vec(), 1000);
    let env_b = facade.begin(ACCOUNT_GET, None, b"second".to_vec(), 1000);
    let cid_a = env_a.correlation_id;
    let cid_b = env_b.correlation_id;
    assert_ne!(cid_a, cid_b);

    broker.accept_request(11, env_a, 1000).expect("route exists");
    broker.accept_request(22, env_b, 1000).expect("route exists");

    // Replies come back in the opposite order; each reaches its own caller.
    let reply_b = Envelope::reply_ok(cid_b, ACCOUNT_GET, b"reply:second".to_vec());
    match broker.on_reply(reply_b) {
        ReplyRouting::Deliver { caller_conn, env } => {
            assert_eq!(caller_conn, 22);
            assert_eq!(env.payload.unwrap(), b"reply:second".to_vec());
        }
        ReplyRouting::Stale => panic!("reply should route"),
    }
    let reply_a = Envelope::reply_ok(cid_a, ACCOUNT_GET, b"reply:first".to_vec());
    match broker.on_reply(reply_a) {
        ReplyRouting::Deliver { caller_conn, env } => {
            assert_eq!(caller_conn, 11);
            assert_eq!(env.payload.unwrap(), b"reply:first".to_vec());
        }
        ReplyRouting::Stale => panic!("reply should route"),
    }

    // And the facade resolves each call with its own payload.
    let reply_b2 = Envelope::reply_ok(cid_b, ACCOUNT_GET, b"reply:second".to_vec());
    match facade.resolve_reply(reply_b2, 1001) {
        Resolution::Resolved(Ok(p)) => assert_eq!(p, b"reply:second".to_vec()),
        _ => panic!("expected second call's payload"),
    }
    let reply_a2 = Envelope::reply_ok(cid_a, ACCOUNT_GET, b"reply:first".to_vec());
    match facade.resolve_reply(reply_a2, 1001) {
        Resolution::Resolved(Ok(p)) => assert_eq!(p, b"reply:first".to_vec()),
        _ => panic!("expected first call's payload"),
    }
}

#[test]
fn keyed_requests_stick_to_one_replica() {
    let mut broker = Broker::new(50);
    broker.register(String::from("accounts"), 7, vec![ACCOUNT_GET]);
    broker.register(String::from("accounts"), 8, vec![ACCOUNT_GET]);
    broker.register(String::from("accounts"), 9, vec![ACCOUNT_GET]);

    let mut facade = Facade::new(50);
    let env1 = facade.begin(ACCOUNT_GET, Some(b"bobo".to_vec()), b"a".to_vec(), 1000);
    let env2 = facade.begin(ACCOUNT_GET, Some(b"bobo".to_vec()), b"b".to_vec(), 1000);
    let t1 = broker
        .accept_request(1, env1, 1000)
        .expect("route exists")
        .target_conn;
    let t2 = broker
        .accept_request(1, env2, 1000)
        .expect("route exists")
        .target_conn;
    assert_eq!(t1, t2);
    assert!(t1 == 7 || t1 == 8 || t1 == 9);
}

#[test]
fn unkeyed_requests_round_robin() {
    let mut broker = Broker::new(50);
    broker.register(String::from("accounts"), 7, vec![ACCOUNT_GET]);
    broker.register(String::from("accounts"), 8, vec![ACCOUNT_GET]);

    let mut facade = Facade::new(50);
    let mut targets = Vec::new();
    for _ in 0..4 {
        let env = facade.begin(ACCOUNT_GET, None, b"x".to_vec(), 1000);
        targets.push(
            broker
                .accept_request(1, env, 1000)
                .expect("route exists")
                .target_conn,
        );
    }
    assert_eq!(targets, vec![7, 8, 7, 8]);
}
