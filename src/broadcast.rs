//! The broadcast node: a message store, the neighbour set installed by the
//! topology message, the knowledge table, and the handlers that move them.
use vstd::prelude::*;
use crate::idset::IdSet;
use crate::knowledge::{known_by, KnowledgeTable};
use crate::protocol::{Body, Event, Init, Message, Node};
use crate::rng::{choose_one, draw_ratio};

verus! {

/// The payloads a broadcast node sends and receives.
pub enum Payload {
    /// A client hands the node a value to spread.
    Broadcast { message: usize },
    BroadcastOk,
    /// A client asks for every value the node has.
    Read,
    ReadOk { messages: Vec<usize> },
    /// The cluster's neighbour graph, one row per node: a node id and its
    /// neighbours.  Where a node has several rows, the first counts.
    Topology { topology: Vec<(String, Vec<String>)> },
    TopologyOk,
    /// Values the sender believes the receiver lacks; never answered.
    GossipPush { to_push: Vec<usize> },
    /// A request to push what the receiver believes the sender lacks.
    GossipPull,
}

/// What the node's own timer injects.
pub enum InjectedGossip {
    Gossip,
}

/// Why a broadcast node cannot go on.
#[derive(PartialEq, Eq, Structural, Debug, Clone, Copy)]
pub enum NodeError {
    /// The topology has no row for this node.
    MissingTopology,
    /// The message-id counter has reached its largest value.
    IdsExhausted,
}

/// Whether row `i` is the first row of `topology` for node `name`.
pub open spec fn is_first_row(topology: Seq<(String, Vec<String>)>, name: Seq<char>, i: int) -> bool {
    &&& 0 <= i < topology.len()
    &&& topology[i].0@ == name
    &&& forall|j: int| 0 <= j < i ==> topology[j].0@ != name
}

/// Whether `topology` has a row for node `name`.
pub open spec fn has_row(topology: Seq<(String, Vec<String>)>, name: Seq<char>) -> bool {
    exists|i: int| 0 <= i < topology.len() && topology[i].0@ == name
}

/// The neighbours that the first row for `name` lists.
pub open spec fn row_of(topology: Seq<(String, Vec<String>)>, name: Seq<char>) -> Seq<String> {
    topology[choose|i: int| is_first_row(topology, name, i)].1@
}

/// Whether `names` holds a string with the characters `p`.
pub open spec fn lists(names: Seq<String>, p: Seq<char>) -> bool {
    exists|i: int| 0 <= i < names.len() && names[i]@ == p
}

/// The table with an empty entry added for every peer of `peers` that has none.
pub open spec fn with_entries(table: Map<Seq<char>, Set<usize>>, peers: Seq<String>) -> Map<Seq<char>, Set<usize>> {
    Map::new(|p: Seq<char>| table.contains_key(p) || lists(peers, p), |p: Seq<char>| known_by(table, p))
}

/// Whether `m` answers `request`: endpoints swapped, correlated to the
/// request's id, and carrying id `id`.
pub open spec fn answers(m: Message<Payload>, request: Message<Payload>, id: usize) -> bool {
    &&& m.src == request.dst
    &&& m.dst == request.src
    &&& m.body.id == Some(id)
    &&& m.body.in_reply_to == request.body.id
}

/// Whether `m` is a gossip message without correlation from `src` to `dst`.
pub open spec fn gossip_header(m: Message<Payload>, src: Seq<char>, dst: Seq<char>) -> bool {
    &&& m.src@ == src
    &&& m.dst@ == dst
    &&& m.body.id is None
    &&& m.body.in_reply_to is None
}

/// What handling `msg` does: `before` and `after` are the node around the
/// call and `out` the messages it sends.
pub open spec fn handled(
    before: BroadcastNode,
    after: BroadcastNode,
    msg: Message<Payload>,
    out: Seq<Message<Payload>>,
) -> bool {
    let p = msg.src@;
    let same_state = after.store() == before.store() && after.table() == before.table()
        && after.neighbor_list() == before.neighbor_list();
    match msg.body.payload {
        Payload::Broadcast { message } => {
            &&& after.store() == before.store().insert(message)
            &&& after.table() == before.table().insert(p, known_by(before.table(), p).insert(message))
            &&& after.neighbor_list() == before.neighbor_list()
            &&& out.len() == 1
            &&& answers(out[0], msg, before.next_id())
            &&& out[0].body.payload is BroadcastOk
        },
        Payload::Read => {
            &&& same_state
            &&& out.len() == 1
            &&& answers(out[0], msg, before.next_id())
            &&& out[0].body.payload matches Payload::ReadOk { messages }
            &&& out[0].body.payload->ReadOk_messages@.to_set() == before.store()
            &&& out[0].body.payload->ReadOk_messages@.no_duplicates()
        },
        Payload::Topology { topology } => {
            &&& after.store() == before.store()
            &&& after.neighbor_list() == row_of(topology@, before.name())
            &&& after.table() == with_entries(before.table(), row_of(topology@, before.name()))
            &&& out.len() == 1
            &&& answers(out[0], msg, before.next_id())
            &&& out[0].body.payload is TopologyOk
        },
        Payload::GossipPush { to_push } => {
            &&& after.store() == before.store().union(to_push@.to_set())
            &&& after.table() == before.table().insert(p, known_by(before.table(), p).union(to_push@.to_set()))
            &&& after.neighbor_list() == before.neighbor_list()
            &&& out.len() == 0
        },
        Payload::GossipPull => {
            let missing = before.store().difference(known_by(before.table(), p));
            &&& same_state
            &&& missing == Set::<usize>::empty() ==> out.len() == 0
            &&& missing != Set::<usize>::empty() ==> {
                &&& out.len() == 1
                &&& answers(out[0], msg, before.next_id())
                &&& out[0].body.payload matches Payload::GossipPush { to_push }
                &&& out[0].body.payload->GossipPush_to_push@.to_set() == missing
                &&& out[0].body.payload->GossipPush_to_push@.no_duplicates()
            }
        },
        Payload::ReadOk { messages } => {
            &&& after.store() == before.store()
            &&& after.table() == before.table().insert(p, known_by(before.table(), p).union(messages@.to_set()))
            &&& after.neighbor_list() == before.neighbor_list()
            &&& out.len() == 0
        },
        Payload::BroadcastOk | Payload::TopologyOk => {
            &&& same_state
            &&& out.len() == 0
        },
    }
}

/// The ids a gossip push to a peer carries: every stored id the peer is not
/// credited with, and those ids of `extra` that the store holds.
pub open spec fn push_set(store: Set<usize>, credited: Set<usize>, extra: Set<usize>) -> Set<usize> {
    store.difference(credited).union(extra.intersect(store))
}

/// Whether `out` is the gossip that `node` sends to `peer` when it resends
/// `extra` besides what the peer is not credited with: a push, unless it
/// would be empty, then a pull, both from the node to the peer.
pub open spec fn gossips(node: BroadcastNode, peer: Seq<char>, extra: Set<usize>, out: Seq<Message<Payload>>) -> bool {
    let push = push_set(node.store(), known_by(node.table(), peer), extra);
    &&& push == Set::<usize>::empty() ==> out.len() == 1
    &&& push != Set::<usize>::empty() ==> {
        &&& out.len() == 2
        &&& gossip_header(out[0], node.name(), peer)
        &&& out[0].body.payload matches Payload::GossipPush { to_push }
        &&& out[0].body.payload->GossipPush_to_push@.to_set() == push
        &&& out[0].body.payload->GossipPush_to_push@.no_duplicates()
    }
    &&& gossip_header(out.last(), node.name(), peer)
    &&& out.last().body.payload is GossipPull
}

/// Whether `out` is what a gossip round of `node` may send: nothing without
/// neighbours; otherwise the gossip to one neighbour, which has an entry in
/// the table, resending some ids it is credited with, and none of them when
/// it is credited with the whole store.
pub open spec fn gossip_round(node: BroadcastNode, out: Seq<Message<Payload>>) -> bool {
    &&& node.neighbor_list().len() == 0 ==> out.len() == 0
    &&& node.neighbor_list().len() > 0 ==> exists|peer: String, extra: Set<usize>| {
        &&& #[trigger] node.neighbor_list().contains(peer)
        &&& node.table().contains_key(peer@)
        &&& extra.subset_of(node.store().intersect(known_by(node.table(), peer@)))
        &&& node.store().subset_of(known_by(node.table(), peer@)) ==> extra == Set::<usize>::empty()
        &&& #[trigger] gossips(node, peer@, extra, out)
    }
}

/// Whether `msg` is a topology message without a row for node `name`.
pub open spec fn lacks_own_row(msg: Message<Payload>, name: Seq<char>) -> bool {
    msg.body.payload matches Payload::Topology { topology } && !has_row(topology@, name)
}

/// What handling `msg` does, with the node at `before` and then at `after`
/// and result `r`: a counter at its largest value, or a topology without a
/// row for this node, is an error that leaves the node as it was; otherwise
/// the message is `handled` and takes one id from the counter.  The store
/// never loses a value, a repeated broadcast leaves it as it was, and a pull
/// from a peer credited with the whole store gets no answer.
pub open spec fn took_message(
    before: BroadcastNode,
    after: BroadcastNode,
    msg: Message<Payload>,
    r: Result<Vec<Message<Payload>>, NodeError>,
) -> bool {
    &&& before.next_id() == usize::MAX ==> r == Err::<Vec<Message<Payload>>, NodeError>(NodeError::IdsExhausted)
    &&& before.next_id() < usize::MAX && lacks_own_row(msg, before.name())
        ==> r == Err::<Vec<Message<Payload>>, NodeError>(NodeError::MissingTopology)
    &&& r is Ok <==> before.next_id() < usize::MAX && !lacks_own_row(msg, before.name())
    &&& r is Err ==> after == before
    &&& before.store().subset_of(after.store())
    &&& r matches Ok(out) ==> {
        &&& after.next_id() == before.next_id() + 1
        &&& after.name() == before.name()
        &&& handled(before, after, msg, out@)
    }
    &&& (msg.body.payload matches Payload::Broadcast { message }
        ==> (before.store().contains(message) ==> after.store() == before.store()))
    &&& (msg.body.payload is GossipPull && before.store().subset_of(known_by(before.table(), msg.src@))
        ==> (r matches Ok(out) ==> out@.len() == 0))
}

/// A node of the broadcast cluster.
pub struct BroadcastNode {
    id: usize,
    node_id: String,
    neighbors: Vec<String>,
    messages: IdSet,
    knows: KnowledgeTable,
}

/// Finds the first row of `topology` for `name`.
fn find_row(topology: &Vec<(String, Vec<String>)>, name: &String) -> (r: Option<usize>)
    ensures
        r matches Some(i) ==> is_first_row(topology@, name@, i as int),
        r is None <==> !has_row(topology@, name@),
{
    let mut i: usize = 0;
    while i < topology.len()
        invariant
            i <= topology@.len(),
            forall|j: int| 0 <= j < i ==> topology@[j].0@ != name@,
        decreases topology@.len() - i,
    {
        if topology[i].0 == *name {
            return Some(i);
        }
        i = i + 1;
    }
    None
}

proof fn lemma_first_row(topology: Seq<(String, Vec<String>)>, name: Seq<char>, i: int)
    requires
        is_first_row(topology, name, i),
    ensures
        row_of(topology, name) == topology[i].1@,
{
    let k = choose|k: int| is_first_row(topology, name, k);
    assert(is_first_row(topology, name, k));
    if k < i {
        assert(topology[k].0@ != name);
    }
    if i < k {
        assert(topology[i].0@ != name);
    }
}

impl BroadcastNode {
    /// The id the next reply will carry.
    pub closed spec fn next_id(&self) -> usize {
        self.id
    }

    /// This node's own id.
    pub closed spec fn name(&self) -> Seq<char> {
        self.node_id@
    }

    /// The neighbours installed by the topology message.
    pub closed spec fn neighbor_list(&self) -> Seq<String> {
        self.neighbors@
    }

    /// The message store.
    pub closed spec fn store(&self) -> Set<usize> {
        self.messages@
    }

    /// The knowledge table.
    pub closed spec fn table(&self) -> Map<Seq<char>, Set<usize>> {
        self.knows@
    }

    /// Well-formed: the table is well-formed, and every neighbour has an
    /// entry in it.
    pub closed spec fn wf(&self) -> bool {
        &&& self.knows.wf()
        &&& forall|p: Seq<char>| lists(self.neighbors@, p) ==> #[trigger] self.knows@.contains_key(p)
    }

    /// A node as the cluster's start-up message makes it: no neighbours, no
    /// messages, an empty table, replies numbered from 1.
    pub fn new(init: Init) -> (r: Self)
        ensures
            r.wf(),
            r.next_id() == 1,
            r.name() == init.node_id@,
            r.neighbor_list() == Seq::<String>::empty(),
            r.store() == Set::<usize>::empty(),
            r.table() == Map::<Seq<char>, Set<usize>>::empty(),
    {
        BroadcastNode {
            id: 1,
            node_id: init.node_id,
            neighbors: Vec::new(),
            messages: IdSet::new(),
            knows: KnowledgeTable::new(),
        }
    }
    /// Every neighbour has an entry in the knowledge table.
    pub proof fn lemma_neighbors_have_entries(&self)
        requires
            self.wf(),
        ensures
            forall|p: Seq<char>| lists(self.neighbor_list(), p) ==> #[trigger] self.table().contains_key(p),
    {
    }

    /// The ids of the message store, each once.
    pub fn messages(&self) -> (r: Vec<usize>)
        requires
            self.wf(),
        ensures
            r@.to_set() == self.store(),
            r@.no_duplicates(),
    {
        self.messages.to_vec()
    }

    /// The neighbours installed by the topology message.
    pub fn neighbors(&self) -> (r: &Vec<String>)
        ensures
            r@ == self.neighbor_list(),
    {
        &self.neighbors
    }

    /// The ids the knowledge table credits `peer` with, if it has an entry.
    pub fn known_to(&self, peer: &String) -> (r: Option<Vec<usize>>)
        requires
            self.wf(),
        ensures
            r is None <==> !self.table().contains_key(peer@),
            r matches Some(v) ==> v@.to_set() == self.table()[peer@] && v@.no_duplicates(),
    {
        match self.knows.get(peer) {
            Some(s) => Some(s.to_vec()),
            None => None,
        }
    }

    /// The id the next reply will carry.
    pub fn next_msg_id(&self) -> (r: usize)
        ensures
            r == self.next_id(),
    {
        self.id
    }

    /// This node's own id.
    pub fn node_id(&self) -> (r: &String)
        ensures
            r@ == self.name(),
    {
        &self.node_id
    }

    /// The ids of the store that the table does not credit `peer` with.
    fn missing_for(&self, peer: &String) -> (r: Vec<usize>)
        requires
            self.wf(),
        ensures
            r@.to_set() == self.store().difference(known_by(self.table(), peer@)),
            r@.no_duplicates(),
            r@.len() == 0 <==> self.store().difference(known_by(self.table(), peer@)) == Set::<usize>::empty(),
    {
        let r = match self.knows.get(peer) {
            Some(known) => self.messages.difference(known),
            None => {
                let v = self.messages.to_vec();
                assert(self.store().difference(Set::<usize>::empty()) =~= self.store());
                v
            },
        };
        if r.len() > 0 {
            assert(r@.to_set().contains(r@[0]));
        } else {
            assert(r@.to_set() =~= Set::<usize>::empty());
        }
        r
    }

    /// Installs `row` as the neighbour set and gives each neighbour an entry.
    fn install_neighbors(&mut self, row: Vec<String>)
        requires
            old(self).knows.wf(),
        ensures
            final(self).wf(),
            final(self).neighbor_list() == row@,
            final(self).table() == with_entries(old(self).table(), row@),
            final(self).store() == old(self).store(),
            final(self).id == old(self).id,
            final(self).node_id == old(self).node_id,
    {
        self.neighbors = row;
        let mut i: usize = 0;
        while i < self.neighbors.len()
            invariant
                i <= self.neighbors@.len(),
                self.neighbors@ == row@,
                self.knows.wf(),
                self.messages == old(self).messages,
                self.id == old(self).id,
                self.node_id == old(self).node_id,
                forall|p: Seq<char>| #[trigger] self.knows@.contains_key(p) <==> (old(self).knows@.contains_key(p)
                    || exists|j: int| 0 <= j < i && row@[j]@ == p),
                forall|p: Seq<char>| #[trigger] self.knows@.contains_key(p) ==> self.knows@[p] == known_by(old(self).knows@, p),
            decreases self.neighbors@.len() - i,
        {
            let ghost before = self.knows@;
            self.knows.ensure_entry(&self.neighbors[i]);
            assert forall|p: Seq<char>| #[trigger] self.knows@.contains_key(p) <==> (old(self).knows@.contains_key(p)
                || exists|j: int| 0 <= j < i + 1 && row@[j]@ == p) by {
                if p == row@[i as int]@ {
                    assert(0 <= i < i + 1 && row@[i as int]@ == p);
                }
                if exists|j: int| 0 <= j < i + 1 && row@[j]@ == p {
                    let j = choose|j: int| 0 <= j < i + 1 && row@[j]@ == p;
                    if j < i {
                        assert(before.contains_key(p));
                    }
                }
            }
            i = i + 1;
        }
        assert(self.knows@ =~= with_entries(old(self).knows@, row@));
    }

    /// Handles one message that arrived: updates the store, the table and
    /// the neighbours as its payload asks, and returns the messages to send.
    /// Every message handled takes one id from the counter, whether or not a
    /// reply goes out.  A topology without a row for this node, or a counter
    /// at its largest value, is an error that leaves the node as it was.
    pub fn handle_message(&mut self, msg: Message<Payload>) -> (r: Result<Vec<Message<Payload>>, NodeError>)
        requires
            old(self).wf(),
        ensures
            final(self).wf(),
            took_message(*old(self), *final(self), msg, r),
    {
        if self.id == usize::MAX {
            return Err(NodeError::IdsExhausted);
        }
        let row: Option<usize> = match &msg.body.payload {
            Payload::Topology { topology } => {
                let found = find_row(topology, &self.node_id);
                if found.is_none() {
                    return Err(NodeError::MissingTopology);
                }
                found
            },
            _ => None,
        };
        let ghost start = *self;
        let reply = msg.into_reply(Some(&mut self.id));
        let Message { src, dst, body } = reply;
        let Body { id, in_reply_to, payload } = body;
        let answer: Option<Payload> = match payload {
            Payload::Broadcast { message } => {
                proof {
                    if start.store().contains(message) {
                        assert(start.store().insert(message) =~= start.store());
                    }
                }
                self.messages.insert(message);
                self.knows.record(&dst, message);
                Some(Payload::BroadcastOk)
            },
            Payload::Read => Some(Payload::ReadOk { messages: self.messages.to_vec() }),
            Payload::Topology { mut topology } => {
                let i = row.unwrap();
                proof {
                    lemma_first_row(topology@, self.node_id@, i as int);
                }
                let (_, neighbors) = topology.remove(i);
                self.install_neighbors(neighbors);
                Some(Payload::TopologyOk)
            },
            Payload::GossipPush { to_push } => {
                self.messages.extend(&to_push);
                self.knows.record_all(&dst, &to_push);
                None
            },
            Payload::GossipPull => {
                proof {
                    if start.store().subset_of(known_by(start.table(), dst@)) {
                        assert(start.store().difference(known_by(start.table(), dst@)) =~= Set::<usize>::empty());
                    }
                }
                let missing = self.missing_for(&dst);
                if missing.len() == 0 {
                    None
                } else {
                    Some(Payload::GossipPush { to_push: missing })
                }
            },
            Payload::ReadOk { messages } => {
                self.knows.record_all(&dst, &messages);
                None
            },
            Payload::BroadcastOk | Payload::TopologyOk => None,
        };
        let mut out: Vec<Message<Payload>> = Vec::new();
        match answer {
            Some(p) => {
                out.push(Message { src, dst, body: Body { id, in_reply_to, payload: p } });
            },
            None => {},
        }
        Ok(out)
    }
    /// The gossip to `neighbor`: a push of every stored id the table does not
    /// credit it with, together with the ids of `extra` that the store
    /// holds, unless that is nothing; then a pull.
    pub fn plan_gossip(&self, neighbor: &String, extra: &Vec<usize>) -> (r: Vec<Message<Payload>>)
        requires
            self.wf(),
        ensures
            gossips(*self, neighbor@, extra@.to_set(), r@),
    {
        let missing = self.missing_for(neighbor);
        let mut push = IdSet::new();
        push.extend(&missing);
        let mut i: usize = 0;
        while i < extra.len()
            invariant
                i <= extra@.len(),
                self.wf(),
                forall|y: usize| #[trigger] push@.contains(y) <==> (self.store().difference(known_by(self.table(), neighbor@)).contains(y)
                    || (self.store().contains(y) && exists|k: int| 0 <= k < i && extra@[k] == y)),
            decreases extra@.len() - i,
        {
            let x = extra[i];
            if self.messages.contains(x) {
                push.insert(x);
            }
            assert forall|y: usize| #[trigger] push@.contains(y) <==> (self.store().difference(known_by(self.table(), neighbor@)).contains(y)
                || (self.store().contains(y) && exists|k: int| 0 <= k < i + 1 && extra@[k] == y)) by {
                if y == x {
                    assert(extra@[i as int] == y);
                }
                if exists|k: int| 0 <= k < i + 1 && extra@[k] == y {
                    let k = choose|k: int| 0 <= k < i + 1 && extra@[k] == y;
                    if k < i {
                        assert(exists|k: int| 0 <= k < i && extra@[k] == y);
                    }
                }
            }
            i = i + 1;
        }
        let ghost want = push_set(self.store(), known_by(self.table(), neighbor@), extra@.to_set());
        assert(push@ =~= want);
        let to_push = push.to_vec();
        let mut out: Vec<Message<Payload>> = Vec::new();
        if to_push.len() > 0 {
            proof {
                assert(to_push@.to_set().contains(to_push@[0]));
            }
            out.push(Message {
                src: self.node_id.clone(),
                dst: neighbor.clone(),
                body: Body { id: None, in_reply_to: None, payload: Payload::GossipPush { to_push } },
            });
        } else {
            assert(push@ =~= Set::<usize>::empty());
        }
        out.push(Message {
            src: self.node_id.clone(),
            dst: neighbor.clone(),
            body: Body { id: None, in_reply_to: None, payload: Payload::GossipPull },
        });
        out
    }

    /// Draws which of the `credited` ids to send again.  Each is drawn
    /// independently with probability `min(fresh / 10, n) / n`, where `n` is
    /// the number of credited ids, so that more new traffic brings more
    /// redundancy and none brings none.  Beyond what a `u32` can count
    /// nothing is drawn.
    fn draw_resend(credited: &Vec<usize>, fresh: usize) -> (r: Vec<usize>)
        ensures
            r@.to_set().subset_of(credited@.to_set()),
            fresh < 10 ==> r@.len() == 0,
    {
        let mut r: Vec<usize> = Vec::new();
        let n = credited.len();
        if n == 0 || n > u32::MAX as usize {
            return r;
        }
        let denominator = n as u32;
        let share = fresh / 10;
        let numerator: u32 = if share < n { share as u32 } else { denominator };
        let mut i: usize = 0;
        while i < n
            invariant
                n == credited@.len(),
                0 < denominator,
                numerator <= denominator,
                fresh < 10 ==> numerator == 0,
                i <= n,
                fresh < 10 ==> r@.len() == 0,
                forall|y: usize| #[trigger] r@.contains(y) ==> credited@.contains(y),
            decreases n - i,
        {
            if draw_ratio(numerator, denominator) {
                let ghost before = r@;
                r.push(credited[i]);
                assert forall|y: usize| #[trigger] r@.contains(y) implies credited@.contains(y) by {
                    let j = choose|j: int| 0 <= j < r@.len() && r@[j] == y;
                    if j < r@.len() - 1 {
                        assert(before[j] == y);
                        assert(before.contains(y));
                    } else {
                        assert(credited@[i as int] == y);
                    }
                }
            }
            i = i + 1;
        }
        r
    }

    /// One gossip round: with no neighbours nothing is sent; otherwise one
    /// neighbour is picked at random and sent the gossip of `plan_gossip`,
    /// with a random share of the ids it is already credited with sent again.
    /// That share is empty when it is credited with the whole store.
    pub fn gossip_tick(&self) -> (r: Vec<Message<Payload>>)
        requires
            self.wf(),
        ensures
            gossip_round(*self, r@),
    {
        match choose_one(&self.neighbors) {
            None => Vec::new(),
            Some(neighbor) => {
                proof {
                    let k = choose|k: int| 0 <= k < self.neighbors@.len() && self.neighbors@[k] == *neighbor;
                    assert(lists(self.neighbors@, neighbor@));
                }
                let ids = self.messages.to_vec();
                let mut credited: Vec<usize> = Vec::new();
                let mut fresh: usize = 0;
                let mut i: usize = 0;
                while i < ids.len()
                    invariant
                        self.wf(),
                        ids@.to_set() == self.store(),
                        i <= ids@.len(),
                        fresh <= i,
                        fresh == 0 ==> forall|j: int| 0 <= j < i ==> known_by(self.table(), neighbor@).contains(#[trigger] ids@[j]),
                        fresh > 0 ==> exists|j: int| 0 <= j < i && !known_by(self.table(), neighbor@).contains(#[trigger] ids@[j]),
                        forall|y: usize| #[trigger] credited@.contains(y) ==> self.store().contains(y) && known_by(self.table(), neighbor@).contains(y),
                    decreases ids@.len() - i,
                {
                    let x = ids[i];
                    proof {
                        assert(ids@.to_set().contains(x));
                    }
                    if self.knows.knows(neighbor, x) {
                        let ghost before = credited@;
                        credited.push(x);
                        assert forall|y: usize| #[trigger] credited@.contains(y) implies self.store().contains(y) && known_by(self.table(), neighbor@).contains(y) by {
                            let j = choose|j: int| 0 <= j < credited@.len() && credited@[j] == y;
                            if j < credited@.len() - 1 {
                                assert(before[j] == y);
                                assert(before.contains(y));
                            }
                        }
                    } else {
                        assert(!known_by(self.table(), neighbor@).contains(ids@[i as int]));
                        fresh = fresh + 1;
                    }
                    i = i + 1;
                }
                let extra = BroadcastNode::draw_resend(&credited, fresh);
                let r = self.plan_gossip(neighbor, &extra);
                proof {
                    let e = extra@.to_set();
                    if self.store().subset_of(known_by(self.table(), neighbor@)) {
                        if fresh > 0 {
                            let j = choose|j: int| 0 <= j < i && !known_by(self.table(), neighbor@).contains(#[trigger] ids@[j]);
                            assert(ids@.to_set().contains(ids@[j]));
                        }
                        assert(e =~= Set::<usize>::empty());
                    }
                    assert(e.subset_of(self.store().intersect(known_by(self.table(), neighbor@))));
                    assert(gossips(*self, neighbor@, e, r@));
                    assert(self.neighbor_list().contains(*neighbor));
                }
                r
            },
        }
    }
}

impl Node<(), Payload, InjectedGossip> for BroadcastNode {
    type Error = NodeError;

    open spec fn inv(&self) -> bool {
        self.wf()
    }

    fn from_init(init_state: (), init: Init) -> (r: Self)
        ensures
            r.next_id() == 1,
            r.name() == init.node_id@,
            r.neighbor_list() == Seq::<String>::empty(),
            r.store() == Set::<usize>::empty(),
            r.table() == Map::<Seq<char>, Set<usize>>::empty(),
    {
        BroadcastNode::new(init)
    }

    /// A timer tick runs a gossip round; a message goes to `handle_message`.
    fn step(&mut self, input: Event<Payload, InjectedGossip>) -> (r: Result<Vec<Message<Payload>>, NodeError>)
        ensures
            old(self).store().subset_of(final(self).store()),
            input is Injected ==> *final(self) == *old(self) && (r matches Ok(out) && gossip_round(*old(self), out@)),
            input matches Event::Message(msg) ==> took_message(*old(self), *final(self), msg, r),
    {
        match input {
            Event::Injected(InjectedGossip::Gossip) => Ok(self.gossip_tick()),
            Event::Message(msg) => self.handle_message(msg),
        }
    }
}

} // verus!
