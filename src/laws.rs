//! Laws that relate several handlers of the broadcast node.
use vstd::prelude::*;
use crate::broadcast::{gossips, handled, BroadcastNode, Payload};
use crate::knowledge::known_by;
use crate::protocol::Message;

verus! {

/// One push/pull exchange without loss makes two nodes' stores equal.
///
/// Node `a` gossips to `b` (`out_a`: a push, unless it would be empty, then a
/// pull).  `b` takes the push, going from `b0` to `b1`, then answers the pull,
/// going to `b2` and sending `out_b`; `a` takes that answer, going from `a0`
/// to `a1`.  Where each node credits the other only with ids the other holds,
/// afterwards both stores are the union of what the two held before.
pub proof fn lemma_exchange_equalises(
    a0: BroadcastNode,
    a1: BroadcastNode,
    b0: BroadcastNode,
    b1: BroadcastNode,
    b2: BroadcastNode,
    extra: Set<usize>,
    out_a: Seq<Message<Payload>>,
    out_b: Seq<Message<Payload>>,
)
    requires
        known_by(a0.table(), b0.name()).subset_of(b0.store()),
        known_by(b0.table(), a0.name()).subset_of(a0.store()),
        gossips(a0, b0.name(), extra, out_a),
        out_a.len() == 2 ==> handled(b0, b1, out_a[0], Seq::empty()),
        out_a.len() == 1 ==> b1 == b0,
        handled(b1, b2, out_a.last(), out_b),
        out_b.len() == 1 ==> handled(a0, a1, out_b[0], Seq::empty()),
        out_b.len() == 0 ==> a1 == a0,
    ensures
        a1.store() == b2.store(),
        a1.store() == a0.store().union(b0.store()),
{
    let ka = known_by(a0.table(), b0.name());
    let kb = known_by(b0.table(), a0.name());
    let pushed = a0.store().difference(ka).union(extra.intersect(a0.store()));
    if out_a.len() == 2 {
        let to_push = out_a[0].body.payload->GossipPush_to_push@;
        assert(to_push.to_set() == pushed);
        assert(b1.store() == b0.store().union(pushed));
        assert(known_by(b1.table(), a0.name()) == kb.union(pushed));
    } else {
        assert(pushed =~= Set::<usize>::empty());
        assert(b1.store() =~= b0.store().union(pushed));
        assert(known_by(b1.table(), a0.name()) =~= kb.union(pushed));
    }
    let missing = b1.store().difference(known_by(b1.table(), a0.name()));
    assert(b2.store() == b1.store());
    if out_b.len() == 1 {
        let answer = out_b[0].body.payload->GossipPush_to_push@;
        assert(answer.to_set() == missing);
        assert(a1.store() == a0.store().union(missing));
    } else {
        assert(missing == Set::<usize>::empty());
        assert(a1.store() == a0.store());
    }
    assert(a1.store() == a0.store().union(missing));
    assert(b2.store() == b0.store().union(pushed));
    assert(known_by(b1.table(), a0.name()) == kb.union(pushed));
    assert forall|x: usize| a1.store().contains(x) <==> b2.store().contains(x) by {
        if a0.store().contains(x) && !ka.contains(x) {
            assert(pushed.contains(x));
        }
        if a0.store().contains(x) && ka.contains(x) {
            assert(b0.store().contains(x));
        }
        if b0.store().contains(x) && kb.contains(x) {
            assert(a0.store().contains(x));
        }
    }
    assert(a1.store() =~= b2.store());
    assert(a1.store() =~= a0.store().union(b0.store()));
}

/// Taking a push keeps the receiver's credit of the sender sound.
///
/// Node `b` takes a gossip push from node `a` that holds only ids `a` has.
/// If before it `b` credited `a` only with ids `a` holds, it still does
/// afterwards, also once `a`'s store has grown to `a1`'s.
pub proof fn lemma_push_keeps_credit_sound(
    a: BroadcastNode,
    a1: BroadcastNode,
    b0: BroadcastNode,
    b1: BroadcastNode,
    push: Message<Payload>,
    out: Seq<Message<Payload>>,
)
    requires
        push.src@ == a.name(),
        push.body.payload is GossipPush,
        push.body.payload->GossipPush_to_push@.to_set().subset_of(a.store()),
        known_by(b0.table(), a.name()).subset_of(a.store()),
        handled(b0, b1, push, out),
        a.store().subset_of(a1.store()),
    ensures
        known_by(b1.table(), a.name()).subset_of(a1.store()),
{
    let ids = push.body.payload->GossipPush_to_push@.to_set();
    assert(b1.table() == b0.table().insert(a.name(), known_by(b0.table(), a.name()).union(ids)));
    assert(known_by(b1.table(), a.name()) == known_by(b0.table(), a.name()).union(ids));
}

/// Handling a message never takes a value out of the store.
pub proof fn lemma_handling_keeps_values(
    before: BroadcastNode,
    after: BroadcastNode,
    msg: Message<Payload>,
    out: Seq<Message<Payload>>,
)
    requires
        handled(before, after, msg, out),
    ensures
        before.store().subset_of(after.store()),
{
}

/// Over any run of events the store only grows.
///
/// `nodes[k + 1]` is the node after event `k`: either it handled message
/// `msgs[k]`, sending `outs[k]`, or the event left it as it was (a gossip
/// round, or a step that failed).
pub proof fn lemma_store_grows_over_a_run(
    nodes: Seq<BroadcastNode>,
    msgs: Seq<Message<Payload>>,
    outs: Seq<Seq<Message<Payload>>>,
)
    requires
        nodes.len() == msgs.len() + 1,
        outs.len() == msgs.len(),
        forall|k: int| 0 <= k < msgs.len() ==>
            handled(nodes[k], #[trigger] nodes[k + 1], msgs[k], outs[k]) || nodes[k + 1] == nodes[k],
    ensures
        forall|i: int, j: int| 0 <= i <= j < nodes.len() ==> nodes[i].store().subset_of(nodes[j].store()),
    decreases msgs.len(),
{
    if msgs.len() > 0 {
        let n = msgs.len() - 1;
        let shorter = nodes.drop_last();
        assert forall|k: int| 0 <= k < msgs.drop_last().len() implies
            handled(shorter[k], #[trigger] shorter[k + 1], msgs.drop_last()[k], outs.drop_last()[k]) || shorter[k + 1] == shorter[k] by {
            assert(shorter[k + 1] == nodes[k + 1]);
        }
        lemma_store_grows_over_a_run(shorter, msgs.drop_last(), outs.drop_last());
        if handled(nodes[n], nodes[n + 1], msgs[n], outs[n]) {
            lemma_handling_keeps_values(nodes[n], nodes[n + 1], msgs[n], outs[n]);
        }
        assert(nodes[n].store().subset_of(nodes[n + 1].store()));
        assert forall|i: int, j: int| 0 <= i <= j < nodes.len() implies nodes[i].store().subset_of(nodes[j].store()) by {
            if j <= n {
                assert(shorter[i] == nodes[i]);
                assert(shorter[j] == nodes[j]);
                assert(shorter[i].store().subset_of(shorter[j].store()));
            } else if i <= n {
                assert(shorter[i] == nodes[i]);
                assert(shorter[n] == nodes[n]);
                assert(shorter[i].store().subset_of(shorter[n].store()));
            } else {
                assert(nodes[i].store().subset_of(nodes[j].store()));
            }
        }
    }
}

} // verus!
