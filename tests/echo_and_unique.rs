use my_rustengan::echo::{EchoError, EchoNode, EchoPayload};
use my_rustengan::protocol::{Body, Event, Init, Message, Node};
use my_rustengan::unique::{UniqueError, UniqueNode, UniquePayload};

fn init(name: &str) -> Init {
    Init { node_id: name.to_string(), node_ids: vec![name.to_string()] }
}

fn msg<P>(src: &str, dst: &str, id: Option<usize>, payload: P) -> Message<P> {
    Message { src: src.to_string(), dst: dst.to_string(), body: Body { id, in_reply_to: None, payload } }
}

#[test]
fn echo_is_answered_with_the_same_text() {
    let mut n = EchoNode::from_init((), init("n1"));
    let out = n.step(Event::Message(msg("c1", "n1", Some(5), EchoPayload::Echo { echo: "hi".to_string() }))).unwrap();
    assert_eq!(out.len(), 1);
    assert_eq!(out[0].src, "n1");
    assert_eq!(out[0].dst, "c1");
    assert_eq!(out[0].body.id, Some(1));
    assert_eq!(out[0].body.in_reply_to, Some(5));
    match &out[0].body.payload {
        EchoPayload::EchoOk { echo } => assert_eq!(echo, "hi"),
        _ => panic!("expected echo_ok"),
    }
    assert_eq!(n.id, 2);
}

#[test]
fn echo_ok_gets_no_answer() {
    let mut n = EchoNode { id: 4 };
    let out = n.answer(msg("c1", "n1", None, EchoPayload::EchoOk { echo: "x".to_string() })).unwrap();
    assert!(out.is_empty());
    assert_eq!(n.id, 4);
}

#[test]
fn echo_refuses_injected_events() {
    let mut n = EchoNode { id: 1 };
    assert_eq!(n.step(Event::Injected(())).err(), Some(EchoError::UnexpectedEvent));
}

#[test]
fn echo_with_exhausted_counter_fails() {
    let mut n = EchoNode { id: usize::MAX };
    let r = n.answer(msg("c1", "n1", None, EchoPayload::Echo { echo: "x".to_string() }));
    assert_eq!(r.err(), Some(EchoError::IdsExhausted));
    assert_eq!(n.id, usize::MAX);
}

#[test]
fn generate_joins_node_counter_and_stamp() {
    let mut n = UniqueNode::from_init((), init("n1"));
    let out = n.answer_at(msg("c1", "n1", Some(3), UniquePayload::Generate), 1700000000).unwrap();
    assert_eq!(out.len(), 1);
    assert_eq!(out[0].body.id, Some(1));
    assert_eq!(out[0].body.in_reply_to, Some(3));
    assert_eq!(out[0].dst, "c1");
    match &out[0].body.payload {
        UniquePayload::GenerateOk { id } => assert_eq!(id, "n1-2-1700000000"),
        _ => panic!("expected generate_ok"),
    }
    let out = n.answer_at(msg("c1", "n1", Some(4), UniquePayload::Generate), -5).unwrap();
    match &out[0].body.payload {
        UniquePayload::GenerateOk { id } => assert_eq!(id, "n1-3--5"),
        _ => panic!("expected generate_ok"),
    }
}

#[test]
fn generate_ids_differ_at_the_current_time() {
    let mut n = UniqueNode::from_init((), init("n7"));
    let mut seen = Vec::new();
    for k in 0..5 {
        let out = n.step(Event::Message(msg("c1", "n7", Some(k), UniquePayload::Generate))).unwrap();
        match &out[0].body.payload {
            UniquePayload::GenerateOk { id } => {
                assert!(id.starts_with(&format!("n7-{}-", k + 2)));
                assert!(!seen.contains(id));
                seen.push(id.clone());
            },
            _ => panic!("expected generate_ok"),
        }
    }
}

#[test]
fn generate_ok_gets_no_answer_but_takes_an_id() {
    let mut n = UniqueNode { id: 1, node_id: "n1".to_string() };
    let out = n.answer_at(msg("c1", "n1", None, UniquePayload::GenerateOk { id: "x".to_string() }), 0).unwrap();
    assert!(out.is_empty());
    assert_eq!(n.id, 2);
}

#[test]
fn generate_with_exhausted_counter_fails() {
    let mut n = UniqueNode { id: usize::MAX, node_id: "n1".to_string() };
    assert_eq!(n.answer_at(msg("c1", "n1", None, UniquePayload::Generate), 0).err(), Some(UniqueError::IdsExhausted));
    assert_eq!(n.step(Event::Injected(())).err(), Some(UniqueError::UnexpectedEvent));
}
