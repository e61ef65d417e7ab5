use dist_node::ident::unique_id;
use dist_node::node::{Node, NodeError, ReplyKind};
use dist_node::protocol::{Body, Message, Payload};

fn request(src: &str, msg_id: Option<usize>, payload: Payload) -> Message {
    Message {
        src: src.to_string(),
        dest: "n1".to_string(),
        body: Body { msg_id, in_reply_to: None, payload },
    }
}

fn init(node: &mut Node, id: &str) {
    let reply = node
        .step(request(
            "c1",
            Some(1),
            Payload::Init { node_id: id.to_string(), node_ids: vec![id.to_string()] },
        ))
        .unwrap()
        .unwrap();
    assert!(matches!(reply.body.payload, Payload::InitOk));
}

#[test]
fn echo_round_trip() {
    let mut node = Node::new();
    init(&mut node, "n1");
    let reply = node
        .step(request("c1", Some(2), Payload::Echo { echo: "hi".to_string() }))
        .unwrap()
        .unwrap();
    assert_eq!(reply.src, "n1");
    assert_eq!(reply.dest, "c1");
    assert_eq!(reply.body.msg_id, Some(1));
    assert_eq!(reply.body.in_reply_to, Some(2));
    match reply.body.payload {
        Payload::EchoOk { echo } => assert_eq!(echo, "hi"),
        _ => panic!("expected echo_ok"),
    }
}

#[test]
fn empty_echo_round_trip() {
    let mut node = Node::new();
    init(&mut node, "n1");
    let reply = node
        .step(request("c9", None, Payload::Echo { echo: String::new() }))
        .unwrap()
        .unwrap();
    assert_eq!(reply.body.in_reply_to, None);
    match reply.body.payload {
        Payload::EchoOk { echo } => assert_eq!(echo, ""),
        _ => panic!("expected echo_ok"),
    }
}

#[test]
fn init_reply_correlation() {
    let mut node = Node::new();
    let reply = node
        .step(request(
            "c1",
            Some(41),
            Payload::Init { node_id: "n5".to_string(), node_ids: vec!["n5".to_string()] },
        ))
        .unwrap()
        .unwrap();
    assert_eq!(reply.src, "n5");
    assert_eq!(reply.dest, "c1");
    assert_eq!(reply.body.msg_id, Some(0));
    assert_eq!(reply.body.in_reply_to, Some(41));
    assert!(matches!(reply.body.payload, Payload::InitOk));
    assert_eq!(node.node_id.as_deref(), Some("n5"));
}

#[test]
fn counter_monotonic_over_replies() {
    let mut node = Node::new();
    init(&mut node, "n1");
    let mut stamps = vec![0usize];
    for k in 0..3usize {
        let reply = node
            .step(request("c1", Some(10 + k), Payload::Echo { echo: "x".to_string() }))
            .unwrap()
            .unwrap();
        stamps.push(reply.body.msg_id.unwrap());
    }
    assert_eq!(stamps, vec![0, 1, 2, 3]);
    assert_eq!(node.msg_id, 4);
}

#[test]
fn generate_ids_distinct_and_exact() {
    let mut node = Node::new();
    init(&mut node, "n1");
    let mut ids = Vec::new();
    for _ in 0..2 {
        let reply = node.step(request("c1", None, Payload::Generate)).unwrap().unwrap();
        match reply.body.payload {
            Payload::GenerateOk { id } => ids.push(id),
            _ => panic!("expected generate_ok"),
        }
    }
    assert_eq!(ids[0], "n1#1");
    assert_eq!(ids[1], "n1#2");
    assert_ne!(ids[0], ids[1]);
}

#[test]
fn unique_id_exact_rendering() {
    assert_eq!(unique_id(&"n3".to_string(), 905), "n3#905");
    assert_eq!(unique_id(&"n0".to_string(), 0), "n0#0");
    assert_eq!(unique_id(&"a#b".to_string(), 10), "a#b#10");
    assert_eq!(
        unique_id(&"n1".to_string(), usize::MAX),
        format!("n1#{}", usize::MAX)
    );
}

#[test]
fn broadcast_read_round_trip() {
    let mut node = Node::new();
    init(&mut node, "n1");
    for m in [5usize, 7usize] {
        let reply = node
            .step(request("c1", None, Payload::Broadcast { message: m }))
            .unwrap()
            .unwrap();
        assert!(matches!(reply.body.payload, Payload::BroadcastOk));
    }
    let reply = node.step(request("c1", Some(9), Payload::Read)).unwrap().unwrap();
    match reply.body.payload {
        Payload::ReadOk { messages } => assert_eq!(messages, vec![5, 7]),
        _ => panic!("expected read_ok"),
    }
    node.step(request("c1", None, Payload::Broadcast { message: 5 }))
        .unwrap()
        .unwrap();
    let reply = node.step(request("c1", None, Payload::Read)).unwrap().unwrap();
    match reply.body.payload {
        Payload::ReadOk { messages } => assert_eq!(messages, vec![5, 7, 5]),
        _ => panic!("expected read_ok"),
    }
}

#[test]
fn read_snapshot_is_independent() {
    let mut node = Node::new();
    init(&mut node, "n1");
    node.step(request("c1", None, Payload::Broadcast { message: 5 })).unwrap();
    let first = node.step(request("c1", None, Payload::Read)).unwrap().unwrap();
    node.step(request("c1", None, Payload::Broadcast { message: 7 })).unwrap();
    match first.body.payload {
        Payload::ReadOk { messages } => assert_eq!(messages, vec![5]),
        _ => panic!("expected read_ok"),
    }
    let second = node.step(request("c1", None, Payload::Read)).unwrap().unwrap();
    match second.body.payload {
        Payload::ReadOk { messages } => assert_eq!(messages, vec![5, 7]),
        _ => panic!("expected read_ok"),
    }
}

#[test]
fn topology_acceptance() {
    let mut node = Node::new();
    init(&mut node, "n1");
    let counter_before = node.msg_id;
    let reply = node
        .step(request(
            "c1",
            Some(3),
            Payload::Topology { topology: vec![("n1".to_string(), vec!["n2".to_string()])] },
        ))
        .unwrap()
        .unwrap();
    assert!(matches!(reply.body.payload, Payload::TopologyOk));
    assert_eq!(reply.body.in_reply_to, Some(3));
    assert_eq!(node.msg_id, counter_before + 1);
    assert_eq!(node.messages, Vec::<usize>::new());
    assert_eq!(node.node_id.as_deref(), Some("n1"));
    assert_eq!(
        node.topology,
        Some(vec![("n1".to_string(), vec!["n2".to_string()])])
    );
}

#[test]
fn generate_before_init_is_fatal() {
    let mut node = Node::new();
    let outcome = node.step(request("c1", Some(1), Payload::Generate));
    assert!(matches!(outcome, Err(NodeError::Uninitialized)));
    assert_eq!(node.node_id, None);
    assert_eq!(node.msg_id, 0);
}

#[test]
fn echo_before_init_is_fatal() {
    let mut node = Node::new();
    let outcome = node.step(request("c1", Some(1), Payload::Echo { echo: "hi".to_string() }));
    assert!(matches!(outcome, Err(NodeError::Uninitialized)));
    assert_eq!(node.msg_id, 0);
}

#[test]
fn unexpected_replies_are_fatal() {
    let mut node = Node::new();
    init(&mut node, "n1");
    let counter_before = node.msg_id;
    let outcome = node.step(request("c1", Some(2), Payload::InitOk));
    assert!(matches!(outcome, Err(NodeError::UnexpectedReply(ReplyKind::InitOk))));
    let outcome = node.step(request("c1", Some(3), Payload::GenerateOk { id: "x#0".to_string() }));
    assert!(matches!(outcome, Err(NodeError::UnexpectedReply(ReplyKind::GenerateOk))));
    // Nothing was emitted and nothing moved: the process would have
    // terminated at the first of the two.
    assert_eq!(node.msg_id, counter_before);
}

#[test]
fn quiescent_replies_are_silent() {
    let mut node = Node::new();
    init(&mut node, "n1");
    let counter_before = node.msg_id;
    let acks = vec![
        Payload::EchoOk { echo: "hi".to_string() },
        Payload::BroadcastOk,
        Payload::ReadOk { messages: vec![1, 2] },
        Payload::TopologyOk,
    ];
    for ack in acks {
        let outcome = node.step(request("c1", Some(4), ack)).unwrap();
        assert!(outcome.is_none());
    }
    assert_eq!(node.msg_id, counter_before);
    assert_eq!(node.messages, Vec::<usize>::new());
}

#[test]
fn second_init_overwrites_identity() {
    let mut node = Node::new();
    init(&mut node, "n1");
    let reply = node
        .step(request(
            "c2",
            Some(2),
            Payload::Init { node_id: "n2".to_string(), node_ids: vec!["n2".to_string()] },
        ))
        .unwrap()
        .unwrap();
    assert_eq!(reply.src, "n2");
    assert!(matches!(reply.body.payload, Payload::InitOk));
    assert_eq!(node.node_id.as_deref(), Some("n2"));
}
