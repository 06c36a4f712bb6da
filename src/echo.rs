//! A node that echoes back whatever it is sent.
use vstd::prelude::*;
use crate::protocol::{Body, Event, Init, Message, Node};

verus! {

/// The payloads of the echo exchange.
pub enum EchoPayload {
    Echo { echo: String },
    EchoOk { echo: String },
}

/// Why an echo node cannot go on.
#[derive(PartialEq, Eq, Structural, Debug, Clone, Copy)]
pub enum EchoError {
    /// The node was handed an injected event; it never injects any.
    UnexpectedEvent,
    /// The message-id counter has reached its largest value.
    IdsExhausted,
}

/// What answering `msg` does, with the counter at `before` and then at
/// `after`: an `echo` gets an `echo_ok` with the same text, id `before` and a
/// correlation to the request, and the counter advances; anything else gets
/// no answer.  An `echo` with the counter at its largest value is an error.
pub open spec fn answered(
    before: usize,
    after: usize,
    msg: Message<EchoPayload>,
    r: Result<Vec<Message<EchoPayload>>, EchoError>,
) -> bool {
    &&& r is Err <==> before == usize::MAX && msg.body.payload is Echo
    &&& r matches Err(e) ==> e == EchoError::IdsExhausted && after == before
    &&& r matches Ok(out) ==> match msg.body.payload {
        EchoPayload::Echo { echo } => {
            &&& after == before + 1
            &&& out@.len() == 1
            &&& out@[0].src == msg.dst
            &&& out@[0].dst == msg.src
            &&& out@[0].body.id == Some(before)
            &&& out@[0].body.in_reply_to == msg.body.id
            &&& out@[0].body.payload == EchoPayload::EchoOk { echo }
        },
        EchoPayload::EchoOk { .. } => after == before && out@.len() == 0,
    }
}

/// A node that answers each `echo` with an `echo_ok` carrying the same text.
pub struct EchoNode {
    pub id: usize,
}

impl EchoNode {
    /// Answers one message: an `echo` gets an `echo_ok` with the same text,
    /// the next id, and a correlation to the request; the counter advances.
    /// Anything else gets no answer and leaves the counter as it was.
    pub fn answer(&mut self, msg: Message<EchoPayload>) -> (r: Result<Vec<Message<EchoPayload>>, EchoError>)
        ensures
            answered(old(self).id, final(self).id, msg, r),
    {
        let mut out: Vec<Message<EchoPayload>> = Vec::new();
        let Message { src, dst, body } = msg;
        match body.payload {
            EchoPayload::Echo { echo } => {
                if self.id == usize::MAX {
                    return Err(EchoError::IdsExhausted);
                }
                out.push(Message {
                    src: dst,
                    dst: src,
                    body: Body { id: Some(self.id), in_reply_to: body.id, payload: EchoPayload::EchoOk { echo } },
                });
                self.id = self.id + 1;
            },
            EchoPayload::EchoOk { .. } => {},
        }
        Ok(out)
    }
}

impl Node<(), EchoPayload> for EchoNode {
    type Error = EchoError;

    open spec fn inv(&self) -> bool {
        true
    }

    fn from_init(init_state: (), init: Init) -> (r: Self)
        ensures
            r.id == 1,
    {
        EchoNode { id: 1 }
    }

    fn step(&mut self, input: Event<EchoPayload>) -> (r: Result<Vec<Message<EchoPayload>>, EchoError>)
        ensures
            input is Injected ==> r == Err::<Vec<Message<EchoPayload>>, EchoError>(EchoError::UnexpectedEvent)
                && final(self).id == old(self).id,
            input matches Event::Message(msg) ==> answered(old(self).id, final(self).id, msg, r),
    {
        match input {
            Event::Message(msg) => self.answer(msg),
            Event::Injected(_) => Err(EchoError::UnexpectedEvent),
        }
    }
}

} // verus!
