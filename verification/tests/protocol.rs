use paillier_ring::codec::encode;
use paillier_ring::node::{Action, Node, NodeConfig, NodeState, Role};
use paillier_ring::scheme::Plaintext;

const TEST_KEY_BITS: usize = 128;

fn config(role: Role, a: u64, m: u64) -> NodeConfig {
    NodeConfig {
        role,
        listen: String::from("127.0.0.1:0"),
        next: String::from("127.0.0.1:0"),
        a: Plaintext::from_u64(a),
        m: Plaintext::from_u64(m),
    }
}

fn forwarded_bytes(node: &mut Node, bytes: &[u8]) -> Vec<u8> {
    match node.handle_wire(bytes).unwrap() {
        Action::Forward(out) => encode(&out),
        Action::Report(_) => panic!("a relay must forward, not report"),
    }
}

fn reported_value(node: &mut Node, bytes: &[u8]) -> Plaintext {
    match node.handle_wire(bytes).unwrap() {
        Action::Report(p) => p,
        Action::Forward(_) => panic!("the master must report, not forward"),
    }
}

#[test]
fn two_node_ring_computes_the_closed_form() {
    // master a=3, m=4 gives p0=12; the relay folds (12+5)*2 = 34.
    let mut master = Node::new(config(Role::Master, 3, 4));
    let mut relay = Node::new(config(Role::Relay, 5, 2));

    assert!(relay.start(TEST_KEY_BITS).is_none());
    let first = master.start(TEST_KEY_BITS).expect("the master sends first");
    let hop1 = encode(&first);

    let hop2 = forwarded_bytes(&mut relay, &hop1);
    let result = reported_value(&mut master, &hop2);
    assert_eq!(result.to_u64(), Some(34));
}

#[test]
fn three_node_ring_computes_the_recurrence() {
    // p0 = 2*3 = 6; p1 = (6+4)*1 = 10; p2 = (10+0)*5 = 50.
    let mut master = Node::new(config(Role::Master, 2, 3));
    let mut relay1 = Node::new(config(Role::Relay, 4, 1));
    let mut relay2 = Node::new(config(Role::Relay, 0, 5));

    assert!(relay2.start(TEST_KEY_BITS).is_none());
    assert!(relay1.start(TEST_KEY_BITS).is_none());
    let first = master.start(TEST_KEY_BITS).expect("the master sends first");

    let hop1 = encode(&first);
    let hop2 = forwarded_bytes(&mut relay1, &hop1);
    let hop3 = forwarded_bytes(&mut relay2, &hop2);
    let result = reported_value(&mut master, &hop3);
    assert_eq!(result.to_u64(), Some(50));
}

#[test]
fn relay_forwards_the_key_unmodified() {
    let mut master = Node::new(config(Role::Master, 1, 1));
    let mut relay = Node::new(config(Role::Relay, 2, 3));

    relay.start(TEST_KEY_BITS);
    let first = master.start(TEST_KEY_BITS).unwrap();
    let key_in = first.key.as_bytes().clone();
    let hop = encode(&first);

    match relay.handle_wire(&hop).unwrap() {
        Action::Forward(out) => assert_eq!(out.key.as_bytes(), &key_in),
        Action::Report(_) => panic!("a relay must forward, not report"),
    }
}

#[test]
fn relay_never_holds_a_key_pair() {
    let mut relay = Node::new(config(Role::Relay, 2, 3));
    assert!(matches!(relay.state, NodeState::Idle));
    relay.start(TEST_KEY_BITS);
    assert!(matches!(relay.state, NodeState::Listening { kp: None }));
}

#[test]
fn master_retains_its_key_pair_while_listening() {
    let mut master = Node::new(config(Role::Master, 2, 3));
    master.start(TEST_KEY_BITS);
    assert!(matches!(master.state, NodeState::Listening { kp: Some(_) }));
}

#[test]
fn a_malformed_stream_fails_the_node() {
    let mut relay = Node::new(config(Role::Relay, 2, 3));
    relay.start(TEST_KEY_BITS);
    assert!(relay.handle_wire(&[9, 9]).is_err());
    assert!(matches!(relay.state, NodeState::Done));
}

#[test]
fn config_check_rejects_an_empty_term() {
    let cfg = NodeConfig {
        role: Role::Relay,
        listen: String::new(),
        next: String::new(),
        a: Plaintext::from_u64(1),
        m: Plaintext::from_u64(2),
    };
    assert!(cfg.check());
    match Plaintext::from_hex(b"".to_vec()) {
        Some(_) => panic!("the empty digit string must be rejected"),
        None => {}
    }
}
