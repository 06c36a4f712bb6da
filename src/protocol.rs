//! Message envelopes, reply derivation and the node abstraction.
use vstd::prelude::*;

verus! {

/// One message on the wire: who sent it, who it is for, and its body.
pub struct Message<Payload> {
    pub src: String,
    pub dst: String,
    pub body: Body<Payload>,
}

/// The body of a message: an optional id, an optional correlation to the
/// message it answers, and the typed payload.
pub struct Body<Payload> {
    pub id: Option<usize>,
    pub in_reply_to: Option<usize>,
    pub payload: Payload,
}

impl<Payload> Message<Payload> {
    /// Turns a received message into the skeleton of its reply: source and
    /// destination are swapped, the reply correlates to the received id, and
    /// the payload is carried over for the caller to replace.  With a counter
    /// the reply takes the counter's value as its id and the counter advances.
    pub fn into_reply(self, id: Option<&mut usize>) -> (r: Self)
        requires
            id matches Some(c) ==> *c < usize::MAX,
        ensures
            r.src == self.dst,
            r.dst == self.src,
            r.body.in_reply_to == self.body.id,
            r.body.payload == self.body.payload,
            match id {
                Some(c) => r.body.id == Some(*c) && *final(c) == *c + 1,
                None => r.body.id.is_none(),
            },
    {
        let new_id = match id {
            Some(c) => {
                let mid = *c;
                *c = *c + 1;
                Some(mid)
            },
            None => None,
        };
        Message {
            src: self.dst,
            dst: self.src,
            body: Body { id: new_id, in_reply_to: self.body.id, payload: self.body.payload },
        }
    }
}

/// An event for a node: a message that arrived, or something the node's own
/// machinery injected (such as a timer tick).
pub enum Event<Payload, InjectedPayload = ()> {
    Message(Message<Payload>),
    Injected(InjectedPayload),
}

/// A node of the cluster: a state machine built from the start-up message
/// that takes one event at a time and answers with the messages to send.
pub trait Node<S, Payload, InjectedPayload = ()>: Sized {
    type Error;

    /// The node's own invariant, which every step keeps.
    spec fn inv(&self) -> bool;

    fn from_init(init_state: S, init: Init) -> (r: Self)
        ensures
            r.inv(),
    ;

    /// Handles one event.  An error means the node cannot go on.
    fn step(&mut self, input: Event<Payload, InjectedPayload>) -> (r: Result<Vec<Message<Payload>>, Self::Error>)
        requires
            old(self).inv(),
        ensures
            final(self).inv(),
    ;
}

/// What the cluster tells a node at start-up: its own id and all node ids.
pub struct Init {
    pub node_id: String,
    pub node_ids: Vec<String>,
}

/// The payloads of the start-up exchange.
pub enum InitPayload {
    Init(Init),
    InitOk,
}

/// Why the start-up exchange failed.
#[derive(PartialEq, Eq, Structural, Debug, Clone, Copy)]
pub enum BootstrapError {
    /// The first message was not an `init`.
    NotInit,
}

/// Accepts the start-up message: gives back what it told the node and the
/// acknowledgement to send, which answers it without an id of its own.
pub fn accept_init(msg: Message<InitPayload>) -> (r: Result<(Init, Message<InitPayload>), BootstrapError>)
    ensures
        r is Err <==> msg.body.payload is InitOk,
        r matches Err(e) ==> e == BootstrapError::NotInit,
        r matches Ok((init, ack)) ==> {
            &&& msg.body.payload == InitPayload::Init(init)
            &&& ack.src == msg.dst
            &&& ack.dst == msg.src
            &&& ack.body.id is None
            &&& ack.body.in_reply_to == msg.body.id
            &&& ack.body.payload is InitOk
        },
{
    let Message { src, dst, body } = msg;
    match body.payload {
        InitPayload::Init(init) => {
            let ack = Message {
                src: dst,
                dst: src,
                body: Body { id: None, in_reply_to: body.id, payload: InitPayload::InitOk },
            };
            Ok((init, ack))
        },
        InitPayload::InitOk => Err(BootstrapError::NotInit),
    }
}

} // verus!
