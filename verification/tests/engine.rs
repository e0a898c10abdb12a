use std::cell::{Cell, RefCell};
use std::rc::Rc;

use swo::adaptor::{AdaptorClient, AdaptorRouter, AdaptorSpecifier};
use swo::db::mem::MemDb;
use swo::error::{Error, ErrorCode};
use swo::model::{Agent, EndPoint, Message, MessageContent, Meta, ReceiptTrace};
use swo::node::Node;

/// A test adaptor with a fixed verdict, a shared call counter, and a log of
/// the addresses it was asked to post to.
struct FixedAdaptor {
    id: String,
    tag: u32,
    succeed: bool,
    calls: Rc<Cell<u32>>,
    addrs: RefCell<Vec<String>>,
}

impl FixedAdaptor {
    fn new(id: &str, tag: u32, succeed: bool) -> (FixedAdaptor, Rc<Cell<u32>>) {
        let calls = Rc::new(Cell::new(0));
        (
            FixedAdaptor {
                id: id.to_string(),
                tag,
                succeed,
                calls: calls.clone(),
                addrs: RefCell::new(Vec::new()),
            },
            calls,
        )
    }
}

impl AdaptorClient for FixedAdaptor {
    fn spec(&self) -> AdaptorSpecifier {
        AdaptorSpecifier::new(self.id.clone())
    }

    fn post_message(&self, _message: &Message, addr: &str) -> Result<(), Error> {
        self.calls.set(self.calls.get() + 1);
        self.addrs.borrow_mut().push(addr.to_string());
        if self.succeed {
            Ok(())
        } else {
            Err(Error::from_message("post refused".to_string(), ErrorCode::Unreachable))
        }
    }
}

fn endpoint(eid: &str, specs: &[&str]) -> EndPoint {
    let mut ep = EndPoint::new(eid.to_string());
    for s in specs {
        ep.insert_accept(AdaptorSpecifier::new(s.to_string()), format!("{}:{}", eid, s));
    }
    ep
}

fn message(id: &str, from: &EndPoint, to: &EndPoint) -> Message {
    Message {
        id: id.to_string(),
        from: from.clone(),
        to: to.clone(),
        content: MessageContent::Plain("hello".to_string()),
        create_time: 0,
        meta: Meta::default(),
        agents: vec![],
    }
}

fn node(eid: &str, specs: &[&str]) -> Node<FixedAdaptor, MemDb> {
    Node::new(endpoint(eid, specs), MemDb::default())
}

#[test]
fn loop_in_trail_fails_without_send_attempt() {
    let mut a = node("A", &["http"]);
    let (ad, calls) = FixedAdaptor::new("http", 1, true);
    a.adaptors.register(ad);
    let b = endpoint("B", &["http"]);
    let mut m = message("m1", a.endpoint(), &b);
    m.agents.push(Agent {
        eid: "A".to_string(),
        recieve_time: 0,
        forward_time: 0,
        meta: Meta::default(),
    });
    let e = a.forward(&m).unwrap_err();
    assert_eq!(e.code, ErrorCode::LoopDetected);
    assert_eq!(calls.get(), 0);
}

#[test]
fn seen_id_fails_without_send_attempt() {
    let mut a = node("A", &["http"]);
    let (ad, calls) = FixedAdaptor::new("http", 1, true);
    a.adaptors.register(ad);
    let b = endpoint("B", &["http"]);
    let m = message("m1", a.endpoint(), &b);
    assert!(a.forward(&m).is_ok());
    assert_eq!(calls.get(), 1);
    let e = a.forward(&m).unwrap_err();
    assert_eq!(e.code, ErrorCode::LoopDetected);
    assert_eq!(calls.get(), 1);
}

#[test]
fn message_to_self_takes_local_delivery() {
    let mut a = node("A", &["http"]);
    let (ad, calls) = FixedAdaptor::new("http", 1, true);
    a.adaptors.register(ad);
    let to_self = a.endpoint().clone();
    let m = message("m1", &to_self, &to_self);
    let rc = a.recieve(&m).unwrap();
    assert_eq!(rc.message_id, "m1");
    match rc.trace {
        ReceiptTrace::Reached { endpoint } => assert_eq!(endpoint.eid, "A"),
        other => panic!("expected Reached, got {:?}", other),
    }
    assert_eq!(calls.get(), 0);
}

#[test]
fn direct_send_wins_and_trust_is_not_consulted() {
    let mut a = node("A", &["http"]);
    let (ad, calls) = FixedAdaptor::new("http", 1, true);
    a.adaptors.register(ad);
    a.trust.push(endpoint("P", &["http"]));
    let b = endpoint("B", &["http"]);
    let m = message("m1", a.endpoint(), &b);
    let rc = a.forward(&m).unwrap();
    assert_eq!(rc.message_id, "m1");
    match rc.trace {
        ReceiptTrace::Forward { endpoint, spec } => {
            assert_eq!(endpoint.eid, "B");
            assert_eq!(spec.canonical(), "http@1");
        },
        other => panic!("expected Forward, got {:?}", other),
    }
    assert_eq!(calls.get(), 1);
}

#[test]
fn send_posts_to_destination_address() {
    let mut a = node("A", &["http"]);
    let (ad, _calls) = FixedAdaptor::new("http", 1, true);
    a.adaptors.register(ad);
    let b = endpoint("B", &["http"]);
    let m = message("m1", a.endpoint(), &b);
    a.forward(&m).unwrap();
    let spec = AdaptorSpecifier::new("http".to_string());
    let client = a.adaptors.get_client(&spec).unwrap();
    assert_eq!(client.addrs.borrow().as_slice(), &["B:http".to_string()]);
}

#[test]
fn relay_picks_first_qualifying_peer() {
    // A speaks http only; the destination B speaks tcp only, so no direct
    // path exists. P0 does not share a transport with B; P1 and P2 both do,
    // and P1 comes first in trust order.
    let mut a = node("A", &["http"]);
    let (ad, _calls) = FixedAdaptor::new("http", 1, true);
    a.adaptors.register(ad);
    a.trust.push(endpoint("P0", &["http"]));
    a.trust.push(endpoint("P1", &["http", "tcp"]));
    a.trust.push(endpoint("P2", &["http", "tcp"]));
    let b = endpoint("B", &["tcp"]);
    let m = message("m1", a.endpoint(), &b);
    let rc = a.forward(&m).unwrap();
    match rc.trace {
        ReceiptTrace::Forward { endpoint, spec } => {
            assert_eq!(endpoint.eid, "P1");
            assert_eq!(spec.canonical(), "http@1");
        },
        other => panic!("expected Forward, got {:?}", other),
    }
}

#[test]
fn relay_skips_peers_already_in_trail() {
    let mut a = node("A", &["http"]);
    let (ad, _calls) = FixedAdaptor::new("http", 1, true);
    a.adaptors.register(ad);
    a.trust.push(endpoint("P1", &["http", "tcp"]));
    a.trust.push(endpoint("P2", &["http", "tcp"]));
    let b = endpoint("B", &["tcp"]);
    let mut m = message("m1", a.endpoint(), &b);
    m.agents.push(Agent {
        eid: "P1".to_string(),
        recieve_time: 0,
        forward_time: 0,
        meta: Meta::default(),
    });
    let rc = a.forward(&m).unwrap();
    match rc.trace {
        ReceiptTrace::Forward { endpoint, .. } => assert_eq!(endpoint.eid, "P2"),
        other => panic!("expected Forward, got {:?}", other),
    }
}

#[test]
fn unreachable_aggregates_one_entry_per_attempt() {
    // The http adaptor refuses every post: the direct attempt to B and the
    // relay through P1 each fail over exactly one shared transport, giving
    // one traceback entry per attempted (endpoint, transport) pair.
    let mut a = node("A", &["http"]);
    let (ad, calls) = FixedAdaptor::new("http", 1, false);
    a.adaptors.register(ad);
    a.trust.push(endpoint("P1", &["http"]));
    let b = endpoint("B", &["http"]);
    let m = message("m1", a.endpoint(), &b);
    let e = a.forward(&m).unwrap_err();
    assert_eq!(e.code, ErrorCode::Unreachable);
    assert_eq!(e.traceback.len(), 2);
    for sub in &e.traceback {
        assert_eq!(sub.code, ErrorCode::Unreachable);
        assert_eq!(sub.traceback.len(), 0);
    }
    assert_eq!(calls.get(), 2);
}

#[test]
fn unreachable_when_destination_accepts_nothing() {
    // An endpoint with an empty accept set cannot be reached: the direct
    // attempt finds no shared transport, no peer qualifies, and zero
    // (endpoint, transport) pairs are attempted.
    let mut a = node("A", &["http"]);
    let (ad, calls) = FixedAdaptor::new("http", 1, true);
    a.adaptors.register(ad);
    a.trust.push(endpoint("P1", &["http"]));
    let b = EndPoint::new("B".to_string());
    let m = message("m1", a.endpoint(), &b);
    let e = a.forward(&m).unwrap_err();
    assert_eq!(e.code, ErrorCode::Unreachable);
    assert_eq!(e.traceback.len(), 0);
    assert_eq!(calls.get(), 0);
}

#[test]
fn unregistered_transport_is_not_found() {
    // A and B share http, but nothing is registered for it: the failed
    // attempt carries a NotFound leaf in the traceback.
    let mut a = node("A", &["http"]);
    let b = endpoint("B", &["http"]);
    let m = message("m1", a.endpoint(), &b);
    let e = a.forward(&m).unwrap_err();
    assert_eq!(e.code, ErrorCode::Unreachable);
    assert_eq!(e.traceback.len(), 1);
    assert_eq!(e.traceback[0].code, ErrorCode::NotFound);
    assert!(e.traceback[0].message.contains("http@1"));
}

#[test]
fn registry_resolves_idempotently_and_last_write_wins() {
    let mut router: AdaptorRouter<FixedAdaptor> = AdaptorRouter::default();
    let (a1, _) = FixedAdaptor::new("http", 1, true);
    let (a2, _) = FixedAdaptor::new("http", 2, true);
    router.register(a1);
    let spec = AdaptorSpecifier::new("http".to_string());
    assert_eq!(router.get_client(&spec).unwrap().tag, 1);
    assert_eq!(router.get_client(&spec).unwrap().tag, 1);
    router.register(a2);
    assert_eq!(router.get_client(&spec).unwrap().tag, 2);
    let other = AdaptorSpecifier::new("tcp".to_string());
    assert!(router.get_client(&other).is_none());
}

#[test]
fn end_to_end_two_nodes() {
    let (ad_a, _) = FixedAdaptor::new("http", 1, true);
    let (ad_b, _) = FixedAdaptor::new("http", 2, true);
    let mut a = node("A", &["http"]);
    a.adaptors.register(ad_a);
    let mut b = node("B", &["http"]);
    b.adaptors.register(ad_b);

    let m = message("m1", a.endpoint(), b.endpoint());
    let rc_a = a.recieve(&m).unwrap();
    match rc_a.trace {
        ReceiptTrace::Forward { endpoint, spec } => {
            assert_eq!(endpoint.eid, "B");
            assert_eq!(spec.canonical(), "http@1");
        },
        other => panic!("expected Forward, got {:?}", other),
    }

    // The wire delivers the stamped message to B's inbound path.
    let mut wired = m.clone();
    wired.agents.push(Agent {
        eid: "A".to_string(),
        recieve_time: 1,
        forward_time: 1,
        meta: Meta::default(),
    });
    let rc_b = b.recieve(&wired).unwrap();
    match rc_b.trace {
        ReceiptTrace::Reached { endpoint } => assert_eq!(endpoint.eid, "B"),
        other => panic!("expected Reached, got {:?}", other),
    }
}

#[test]
fn gen_eid_is_fresh_and_sized() {
    let e1 = EndPoint::gen_eid();
    let e2 = EndPoint::gen_eid();
    assert_eq!(e1.chars().count(), 21);
    assert_eq!(e2.chars().count(), 21);
    assert_ne!(e1, e2);
}

#[test]
fn meta_default_carries_protocol_version() {
    assert_eq!(Meta::default().swo_version, "1");
}

#[test]
fn endpoint_accept_replaces_by_specifier() {
    let mut ep = EndPoint::new("A".to_string());
    ep.insert_accept(AdaptorSpecifier::new("http".to_string()), "addr1".to_string());
    ep.insert_accept(AdaptorSpecifier::new("http".to_string()), "addr2".to_string());
    ep.insert_accept(AdaptorSpecifier::new("tcp".to_string()), "addr3".to_string());
    assert_eq!(ep.accept.len(), 2);
    assert!(ep.accepts(&AdaptorSpecifier::new("http".to_string())));
    assert!(!ep.accepts(&AdaptorSpecifier::new("udp".to_string())));
}

#[test]
fn message_clone_preserves_contents() {
    let a = endpoint("A", &["http"]);
    let b = endpoint("B", &["http"]);
    let mut m = message("m1", &a, &b);
    m.agents.push(Agent {
        eid: "X".to_string(),
        recieve_time: 5,
        forward_time: 6,
        meta: Meta::default(),
    });
    let c = m.clone();
    assert_eq!(c.id, "m1");
    assert_eq!(c.to.eid, "B");
    assert_eq!(c.agents.len(), 1);
    assert_eq!(c.agents[0].eid, "X");
    match c.content {
        MessageContent::Plain(ref s) => assert_eq!(s, "hello"),
        _ => panic!("expected Plain"),
    }
}

#[test]
fn forward_stamps_exactly_one_hop() {
    // The trail of what travels on is the original trail plus this node's
    // hop record; observe it through the relay-skip behaviour: after A
    // forwards, a peer named A is skipped by the next hop.
    let mut a = node("A", &["http"]);
    let (ad, _calls) = FixedAdaptor::new("http", 1, true);
    a.adaptors.register(ad);
    // B shares tcp with trusted peer A2 only; peer named "A" is skipped
    // because forward stamped A into the trail before relaying.
    a.trust.push(endpoint("A", &["http", "tcp"]));
    a.trust.push(endpoint("A2", &["http", "tcp"]));
    let b = endpoint("B", &["tcp"]);
    let m = message("m1", a.endpoint(), &b);
    let rc = a.forward(&m).unwrap();
    match rc.trace {
        ReceiptTrace::Forward { endpoint, .. } => assert_eq!(endpoint.eid, "A2"),
        other => panic!("expected Forward, got {:?}", other),
    }
}
