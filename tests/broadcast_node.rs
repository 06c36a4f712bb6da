use my_rustengan::broadcast::{BroadcastNode, InjectedGossip, NodeError, Payload};
use my_rustengan::protocol::{accept_init, Body, BootstrapError, Event, Init, InitPayload, Message, Node};

fn node(name: &str) -> BroadcastNode {
    BroadcastNode::from_init((), Init { node_id: name.to_string(), node_ids: vec![] })
}

fn msg(src: &str, dst: &str, id: Option<usize>, payload: Payload) -> Message<Payload> {
    Message { src: src.to_string(), dst: dst.to_string(), body: Body { id, in_reply_to: None, payload } }
}

fn sorted(mut v: Vec<usize>) -> Vec<usize> {
    v.sort();
    v
}

fn topology(rows: &[(&str, &[&str])]) -> Payload {
    Payload::Topology {
        topology: rows
            .iter()
            .map(|(n, ns)| (n.to_string(), ns.iter().map(|s| s.to_string()).collect()))
            .collect(),
    }
}

fn install(n: &mut BroadcastNode, rows: &[(&str, &[&str])]) {
    let me = n.node_id().clone();
    let out = n.step(Event::Message(msg("c0", &me, Some(1), topology(rows)))).unwrap();
    assert_eq!(out.len(), 1);
    assert!(matches!(out[0].body.payload, Payload::TopologyOk));
}

#[test]
fn into_reply_swaps_and_numbers() {
    let m = Message { src: "c1".to_string(), dst: "n1".to_string(), body: Body { id: Some(7), in_reply_to: None, payload: 5u8 } };
    let mut counter: usize = 3;
    let r = m.into_reply(Some(&mut counter));
    assert_eq!(r.src, "n1");
    assert_eq!(r.dst, "c1");
    assert_eq!(r.body.id, Some(3));
    assert_eq!(r.body.in_reply_to, Some(7));
    assert_eq!(r.body.payload, 5);
    assert_eq!(counter, 4);
}

#[test]
fn into_reply_without_counter_has_no_id() {
    let m = Message { src: "c1".to_string(), dst: "n1".to_string(), body: Body { id: Some(9), in_reply_to: None, payload: () } };
    let r = m.into_reply(None);
    assert_eq!(r.body.id, None);
    assert_eq!(r.body.in_reply_to, Some(9));
    assert_eq!(r.src, "n1");
}

#[test]
fn init_is_acknowledged() {
    let m = Message {
        src: "c0".to_string(),
        dst: "n1".to_string(),
        body: Body {
            id: Some(1),
            in_reply_to: None,
            payload: InitPayload::Init(Init { node_id: "n1".to_string(), node_ids: vec!["n1".to_string()] }),
        },
    };
    let (init, ack) = accept_init(m).ok().unwrap();
    assert_eq!(init.node_id, "n1");
    assert_eq!(init.node_ids, vec!["n1".to_string()]);
    assert_eq!(ack.src, "n1");
    assert_eq!(ack.dst, "c0");
    assert_eq!(ack.body.id, None);
    assert_eq!(ack.body.in_reply_to, Some(1));
    assert!(matches!(ack.body.payload, InitPayload::InitOk));
}

#[test]
fn first_message_not_init_is_refused() {
    let m = Message { src: "c0".to_string(), dst: "n1".to_string(), body: Body { id: Some(1), in_reply_to: None, payload: InitPayload::InitOk } };
    assert_eq!(accept_init(m).err(), Some(BootstrapError::NotInit));
}

#[test]
fn new_node_is_empty() {
    let n = node("n1");
    assert_eq!(n.next_msg_id(), 1);
    assert!(n.messages().is_empty());
    assert!(n.neighbors().is_empty());
    assert_eq!(n.known_to(&"n2".to_string()), None);
}

#[test]
fn broadcast_stores_and_acknowledges() {
    let mut n = node("n1");
    let out = n.handle_message(msg("c1", "n1", Some(4), Payload::Broadcast { message: 42 })).unwrap();
    assert_eq!(out.len(), 1);
    assert_eq!(out[0].src, "n1");
    assert_eq!(out[0].dst, "c1");
    assert_eq!(out[0].body.id, Some(1));
    assert_eq!(out[0].body.in_reply_to, Some(4));
    assert!(matches!(out[0].body.payload, Payload::BroadcastOk));
    assert_eq!(n.messages(), vec![42]);
    assert_eq!(n.known_to(&"c1".to_string()), Some(vec![42]));
    assert_eq!(n.next_msg_id(), 2);
}

#[test]
fn duplicate_broadcast_is_stored_once() {
    let mut n = node("a");
    for k in 1..=2 {
        let out = n.step(Event::Message(msg("c1", "a", Some(k), Payload::Broadcast { message: 7 }))).unwrap();
        assert_eq!(out.len(), 1);
        assert_eq!(out[0].src, "a");
        assert_eq!(out[0].dst, "c1");
        assert_eq!(out[0].body.id, Some(k));
        assert_eq!(out[0].body.in_reply_to, Some(k));
        assert!(matches!(out[0].body.payload, Payload::BroadcastOk));
    }
    assert_eq!(n.messages(), vec![7]);
}

#[test]
fn read_returns_the_store() {
    let mut n = node("n1");
    for v in [3, 1, 2] {
        n.handle_message(msg("c1", "n1", None, Payload::Broadcast { message: v })).unwrap();
    }
    let out = n.handle_message(msg("c1", "n1", Some(10), Payload::Read)).unwrap();
    assert_eq!(out.len(), 1);
    assert_eq!(out[0].body.in_reply_to, Some(10));
    assert_eq!(out[0].body.id, Some(4));
    match &out[0].body.payload {
        Payload::ReadOk { messages } => assert_eq!(sorted(messages.clone()), vec![1, 2, 3]),
        _ => panic!("expected read_ok"),
    }
}

#[test]
fn topology_installs_neighbours_with_empty_entries() {
    let mut n = node("n2");
    install(&mut n, &[("n1", &["n2"]), ("n2", &["n1", "n3"]), ("n3", &["n2"])]);
    assert_eq!(n.neighbors(), &vec!["n1".to_string(), "n3".to_string()]);
    assert_eq!(n.known_to(&"n1".to_string()), Some(vec![]));
    assert_eq!(n.known_to(&"n3".to_string()), Some(vec![]));
    assert_eq!(n.known_to(&"n9".to_string()), None);
}

#[test]
fn topology_keeps_existing_entries() {
    let mut n = node("n2");
    n.handle_message(msg("n1", "n2", None, Payload::GossipPush { to_push: vec![5] })).unwrap();
    install(&mut n, &[("n2", &["n1"])]);
    assert_eq!(n.known_to(&"n1".to_string()), Some(vec![5]));
}

#[test]
fn topology_without_own_row_is_fatal() {
    let mut n = node("n4");
    let r = n.handle_message(msg("c0", "n4", Some(1), topology(&[("n1", &["n2"]), ("n2", &["n1"])])));
    assert_eq!(r.err(), Some(NodeError::MissingTopology));
    assert!(n.neighbors().is_empty());
    assert_eq!(n.next_msg_id(), 1);
}

#[test]
fn gossip_push_merges_store_and_knowledge() {
    let mut n = node("n1");
    n.handle_message(msg("c1", "n1", None, Payload::Broadcast { message: 1 })).unwrap();
    let out = n.handle_message(msg("n2", "n1", None, Payload::GossipPush { to_push: vec![1, 2, 3] })).unwrap();
    assert!(out.is_empty());
    assert_eq!(sorted(n.messages()), vec![1, 2, 3]);
    assert_eq!(sorted(n.known_to(&"n2".to_string()).unwrap()), vec![1, 2, 3]);
    assert_eq!(n.next_msg_id(), 3);
}

#[test]
fn read_ok_records_what_the_sender_knows() {
    let mut n = node("n1");
    let out = n.handle_message(msg("n2", "n1", None, Payload::ReadOk { messages: vec![8, 9] })).unwrap();
    assert!(out.is_empty());
    assert!(n.messages().is_empty());
    assert_eq!(sorted(n.known_to(&"n2".to_string()).unwrap()), vec![8, 9]);
}

#[test]
fn replies_arriving_are_dropped() {
    let mut n = node("n1");
    assert!(n.handle_message(msg("n2", "n1", None, Payload::BroadcastOk)).unwrap().is_empty());
    assert!(n.handle_message(msg("n2", "n1", None, Payload::TopologyOk)).unwrap().is_empty());
    assert!(n.messages().is_empty());
    assert_eq!(n.known_to(&"n2".to_string()), None);
}

#[test]
fn pull_is_answered_with_what_the_peer_lacks() {
    let mut n = node("n1");
    n.handle_message(msg("c1", "n1", None, Payload::Broadcast { message: 1 })).unwrap();
    n.handle_message(msg("c1", "n1", None, Payload::Broadcast { message: 2 })).unwrap();
    n.handle_message(msg("n2", "n1", None, Payload::GossipPush { to_push: vec![1] })).unwrap();
    let out = n.handle_message(msg("n2", "n1", Some(6), Payload::GossipPull)).unwrap();
    assert_eq!(out.len(), 1);
    assert_eq!(out[0].dst, "n2");
    assert_eq!(out[0].body.in_reply_to, Some(6));
    match &out[0].body.payload {
        Payload::GossipPush { to_push } => assert_eq!(to_push, &vec![2]),
        _ => panic!("expected gossip_push"),
    }
}

#[test]
fn pull_from_unknown_peer_gets_everything() {
    let mut n = node("n1");
    n.handle_message(msg("c1", "n1", None, Payload::Broadcast { message: 4 })).unwrap();
    let out = n.handle_message(msg("n7", "n1", None, Payload::GossipPull)).unwrap();
    match &out[0].body.payload {
        Payload::GossipPush { to_push } => assert_eq!(to_push, &vec![4]),
        _ => panic!("expected gossip_push"),
    }
}

#[test]
fn pull_is_silent_when_the_peer_is_caught_up() {
    let mut n = node("n1");
    n.handle_message(msg("n2", "n1", None, Payload::GossipPush { to_push: vec![1, 2] })).unwrap();
    let out = n.handle_message(msg("n2", "n1", None, Payload::GossipPull)).unwrap();
    assert!(out.is_empty());
    let mut empty = node("n3");
    assert!(empty.handle_message(msg("n2", "n3", None, Payload::GossipPull)).unwrap().is_empty());
}

#[test]
fn plan_gossip_pushes_unknown_and_extra_then_pulls() {
    let mut n = node("n1");
    for v in [1, 2, 3] {
        n.handle_message(msg("c1", "n1", None, Payload::Broadcast { message: v })).unwrap();
    }
    n.handle_message(msg("n2", "n1", None, Payload::GossipPush { to_push: vec![1, 2] })).unwrap();
    let out = n.plan_gossip(&"n2".to_string(), &vec![2, 99]);
    assert_eq!(out.len(), 2);
    for m in &out {
        assert_eq!(m.src, "n1");
        assert_eq!(m.dst, "n2");
        assert_eq!(m.body.id, None);
        assert_eq!(m.body.in_reply_to, None);
    }
    match &out[0].body.payload {
        Payload::GossipPush { to_push } => assert_eq!(sorted(to_push.clone()), vec![2, 3]),
        _ => panic!("expected gossip_push"),
    }
    assert!(matches!(out[1].body.payload, Payload::GossipPull));
}

#[test]
fn plan_gossip_only_pulls_when_nothing_to_push() {
    let mut n = node("n1");
    n.handle_message(msg("n2", "n1", None, Payload::GossipPush { to_push: vec![1] })).unwrap();
    let out = n.plan_gossip(&"n2".to_string(), &vec![]);
    assert_eq!(out.len(), 1);
    assert!(matches!(out[0].body.payload, Payload::GossipPull));
}

#[test]
fn gossip_tick_without_neighbours_sends_nothing() {
    let mut n = node("n1");
    n.handle_message(msg("c1", "n1", None, Payload::Broadcast { message: 1 })).unwrap();
    let out = n.step(Event::Injected(InjectedGossip::Gossip)).unwrap();
    assert!(out.is_empty());
}

#[test]
fn gossip_tick_goes_to_the_only_neighbour() {
    let mut n = node("n1");
    install(&mut n, &[("n1", &["n2"])]);
    n.handle_message(msg("c1", "n1", None, Payload::Broadcast { message: 5 })).unwrap();
    let out = n.step(Event::Injected(InjectedGossip::Gossip)).unwrap();
    assert_eq!(out.len(), 2);
    assert_eq!(out[0].dst, "n2");
    assert_eq!(out[1].dst, "n2");
    match &out[0].body.payload {
        Payload::GossipPush { to_push } => assert_eq!(to_push, &vec![5]),
        _ => panic!("expected gossip_push"),
    }
    assert!(matches!(out[1].body.payload, Payload::GossipPull));
}

#[test]
fn gossip_tick_picks_a_neighbour() {
    let mut n = node("n1");
    install(&mut n, &[("n1", &["n2", "n3", "n4"])]);
    for _ in 0..20 {
        let out = n.gossip_tick();
        assert_eq!(out.len(), 1);
        assert!(["n2", "n3", "n4"].contains(&out[0].dst.as_str()));
    }
}

#[test]
fn gossip_tick_resends_known_ids_under_heavy_traffic() {
    let mut n = node("n1");
    install(&mut n, &[("n1", &["n2"])]);
    n.handle_message(msg("n2", "n1", None, Payload::GossipPush { to_push: vec![0] })).unwrap();
    for v in 1..=20 {
        n.handle_message(msg("c1", "n1", None, Payload::Broadcast { message: v })).unwrap();
    }
    let out = n.gossip_tick();
    match &out[0].body.payload {
        Payload::GossipPush { to_push } => assert_eq!(sorted(to_push.clone()), (0..=20).collect::<Vec<usize>>()),
        _ => panic!("expected gossip_push"),
    }
}

#[test]
fn gossip_tick_does_not_resend_under_light_traffic() {
    let mut n = node("n1");
    install(&mut n, &[("n1", &["n2"])]);
    n.handle_message(msg("n2", "n1", None, Payload::GossipPush { to_push: vec![0] })).unwrap();
    for v in 1..=9 {
        n.handle_message(msg("c1", "n1", None, Payload::Broadcast { message: v })).unwrap();
    }
    for _ in 0..20 {
        let out = n.gossip_tick();
        match &out[0].body.payload {
            Payload::GossipPush { to_push } => assert_eq!(sorted(to_push.clone()), (1..=9).collect::<Vec<usize>>()),
            _ => panic!("expected gossip_push"),
        }
    }
}

#[test]
fn gossip_tick_with_everything_known_only_pulls() {
    let mut n = node("n1");
    install(&mut n, &[("n1", &["n2"])]);
    n.handle_message(msg("n2", "n1", None, Payload::GossipPush { to_push: vec![1, 2, 3] })).unwrap();
    let out = n.gossip_tick();
    assert_eq!(out.len(), 1);
    assert!(matches!(out[0].body.payload, Payload::GossipPull));
}

fn deliver(nodes: &mut Vec<BroadcastNode>, names: &[&str], queue: Vec<Message<Payload>>) {
    let mut queue: std::collections::VecDeque<Message<Payload>> = queue.into();
    while let Some(m) = queue.pop_front() {
        if let Some(k) = names.iter().position(|n| *n == m.dst) {
            let out = nodes[k].step(Event::Message(m)).unwrap();
            queue.extend(out);
        }
    }
}

#[test]
fn line_of_three_converges() {
    let names = ["a", "b", "c"];
    let rows: &[(&str, &[&str])] = &[("a", &["b"]), ("b", &["a", "c"]), ("c", &["b"])];
    let mut nodes: Vec<BroadcastNode> = names.iter().map(|n| node(n)).collect();
    for n in nodes.iter_mut() {
        install(n, rows);
    }
    let out = nodes[0].step(Event::Message(msg("c1", "a", Some(1), Payload::Broadcast { message: 42 }))).unwrap();
    assert!(matches!(out[0].body.payload, Payload::BroadcastOk));
    for _ in 0..200 {
        for k in 0..3 {
            let out = nodes[k].step(Event::Injected(InjectedGossip::Gossip)).unwrap();
            deliver(&mut nodes, &names, out);
        }
        if nodes[2].messages() == vec![42] {
            break;
        }
    }
    let out = nodes[2].step(Event::Message(msg("c1", "c", Some(2), Payload::Read))).unwrap();
    match &out[0].body.payload {
        Payload::ReadOk { messages } => assert_eq!(messages, &vec![42]),
        _ => panic!("expected read_ok"),
    }
}

#[test]
fn one_exchange_equalises_two_stores() {
    let mut a = node("a");
    let mut b = node("b");
    install(&mut a, &[("a", &["b"])]);
    install(&mut b, &[("b", &["a"])]);
    for v in [1, 2] {
        a.handle_message(msg("c1", "a", None, Payload::Broadcast { message: v })).unwrap();
    }
    for v in [2, 3] {
        b.handle_message(msg("c1", "b", None, Payload::Broadcast { message: v })).unwrap();
    }
    let out_a = a.gossip_tick();
    assert_eq!(out_a.len(), 2);
    let mut replies = Vec::new();
    for m in out_a {
        replies.extend(b.handle_message(m).unwrap());
    }
    for m in replies {
        assert!(a.handle_message(m).unwrap().is_empty());
    }
    assert_eq!(sorted(a.messages()), vec![1, 2, 3]);
    assert_eq!(sorted(b.messages()), vec![1, 2, 3]);
}
