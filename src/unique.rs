//! A node that hands out cluster-wide unique ids, made of its own node id,
//! its message counter and the time.
use vstd::prelude::*;
use crate::protocol::{Body, Event, Init, Message, Node};

verus! {

/// The character of decimal digit `d`.
pub open spec fn digit_char(d: nat) -> char
    recommends
        d < 10,
{
    ((d + 48) as u8) as char
}

/// The decimal digits of `n`, most significant first, without leading zeros.
pub open spec fn decimal(n: nat) -> Seq<char>
    decreases n,
{
    if n < 10 {
        seq![digit_char(n)]
    } else {
        decimal(n / 10).push(digit_char(n % 10))
    }
}

/// The decimal form of `n`, with a minus sign when it is negative.
pub open spec fn signed_decimal(n: int) -> Seq<char> {
    if n < 0 {
        seq!['-'] + decimal((-n) as nat)
    } else {
        decimal(n as nat)
    }
}

/// The id text for node `node`, counter value `counter` and time `stamp`.
pub open spec fn id_text(node: Seq<char>, counter: usize, stamp: i64) -> Seq<char> {
    node + seq!['-'] + decimal(counter as nat) + seq!['-'] + signed_decimal(stamp as int)
}

/// Relies on std's `ToString` for `usize` (through `Display`): its decimal
/// digits, without sign or leading zeros.
#[verifier::external_body]
fn usize_text(n: usize) -> (r: String)
    ensures
        r@ == decimal(n as nat),
{
    n.to_string()
}

/// Relies on std's `ToString` for `i64` (through `Display`): a minus sign
/// when negative, then the decimal digits of its magnitude.
#[verifier::external_body]
fn i64_text(n: i64) -> (r: String)
    ensures
        r@ == signed_decimal(n as int),
{
    n.to_string()
}

/// The id text for node `node`, counter value `counter` and time `stamp`:
/// the three joined by dashes.
fn render_id(node: &String, counter: usize, stamp: i64) -> (r: String)
    ensures
        r@ == id_text(node@, counter, stamp),
{
    proof {
        reveal_strlit("-");
    }
    let counter_text = usize_text(counter);
    let stamp_text = i64_text(stamp);
    let mut r = node.clone();
    r.append("-");
    r.append(counter_text.as_str());
    r.append("-");
    r.append(stamp_text.as_str());
    assert(r@ =~= id_text(node@, counter, stamp));
    r
}

/// Relies on time's `OffsetDateTime::now_utc`, read as a Unix timestamp in
/// seconds through `unix_timestamp`.  Nothing is promised of the value, which
/// depends on the clock; `now_utc` panics only on a system clock outside the
/// range of dates the crate represents.
#[verifier::external_body]
fn unix_now() -> (r: i64) {
    time::OffsetDateTime::now_utc().unix_timestamp()
}

/// The payloads of the id exchange.
pub enum UniquePayload {
    Generate,
    GenerateOk { id: String },
}

/// Why an id node cannot go on.
#[derive(PartialEq, Eq, Structural, Debug, Clone, Copy)]
pub enum UniqueError {
    /// The node was handed an injected event; it never injects any.
    UnexpectedEvent,
    /// The message-id counter has reached its largest value.
    IdsExhausted,
}

/// A node that answers each `generate` with a fresh id.
pub struct UniqueNode {
    pub id: usize,
    pub node_id: String,
}

/// What answering `msg` at time `stamp` does, with the counter at `before`
/// and then at `after`: every message takes one value from the counter; a
/// `generate` is answered by a `generate_ok` with id `before` whose text is
/// the node id, the advanced counter and the stamp; anything else gets no
/// answer.  A counter at its largest value is an error.
pub open spec fn generated(
    node: Seq<char>,
    before: usize,
    after: usize,
    stamp: i64,
    msg: Message<UniquePayload>,
    r: Result<Vec<Message<UniquePayload>>, UniqueError>,
) -> bool {
    &&& r is Err <==> before == usize::MAX
    &&& r matches Err(e) ==> e == UniqueError::IdsExhausted && after == before
    &&& r matches Ok(out) ==> {
        &&& after == before + 1
        &&& msg.body.payload is Generate ==> {
            &&& out@.len() == 1
            &&& out@[0].src == msg.dst
            &&& out@[0].dst == msg.src
            &&& out@[0].body.id == Some(before)
            &&& out@[0].body.in_reply_to == msg.body.id
            &&& out@[0].body.payload matches UniquePayload::GenerateOk { id }
            &&& out@[0].body.payload->GenerateOk_id@ == id_text(node, after, stamp)
        }
        &&& msg.body.payload is GenerateOk ==> out@.len() == 0
    }
}

impl UniqueNode {
    /// Answers one message as if the time were `stamp`.
    pub fn answer_at(&mut self, msg: Message<UniquePayload>, stamp: i64) -> (r: Result<Vec<Message<UniquePayload>>, UniqueError>)
        ensures
            final(self).node_id == old(self).node_id,
            generated(old(self).node_id@, old(self).id, final(self).id, stamp, msg, r),
    {
        if self.id == usize::MAX {
            return Err(UniqueError::IdsExhausted);
        }
        let reply = msg.into_reply(Some(&mut self.id));
        let mut out: Vec<Message<UniquePayload>> = Vec::new();
        match reply.body.payload {
            UniquePayload::Generate => {
                let text = render_id(&self.node_id, self.id, stamp);
                out.push(Message {
                    src: reply.src,
                    dst: reply.dst,
                    body: Body { id: reply.body.id, in_reply_to: reply.body.in_reply_to, payload: UniquePayload::GenerateOk { id: text } },
                });
            },
            UniquePayload::GenerateOk { .. } => {},
        }
        Ok(out)
    }
}

impl Node<(), UniquePayload> for UniqueNode {
    type Error = UniqueError;

    open spec fn inv(&self) -> bool {
        true
    }

    fn from_init(init_state: (), init: Init) -> (r: Self)
        ensures
            r.id == 1,
            r.node_id == init.node_id,
    {
        UniqueNode { id: 1, node_id: init.node_id }
    }

    /// Answers a message at the current time.
    fn step(&mut self, input: Event<UniquePayload>) -> (r: Result<Vec<Message<UniquePayload>>, UniqueError>)
        ensures
            final(self).node_id == old(self).node_id,
            input is Injected ==> r == Err::<Vec<Message<UniquePayload>>, UniqueError>(UniqueError::UnexpectedEvent)
                && final(self).id == old(self).id,
            input matches Event::Message(msg) ==> exists|stamp: i64|
                #[trigger] generated(old(self).node_id@, old(self).id, final(self).id, stamp, msg, r),
    {
        match input {
            Event::Message(msg) => {
                let stamp = unix_now();
                self.answer_at(msg, stamp)
            },
            Event::Injected(_) => Err(UniqueError::UnexpectedEvent),
        }
    }
}

} // verus!
