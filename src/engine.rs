//! The decisions of the replication control loop.
//!
//! The loop waits on three sources: the probe timer, payloads received
//! from peers, and mutations already applied by the local ingress. Each
//! event it takes is turned here into exactly one action, which the
//! surrounding program performs: broadcast a message, apply an operation
//! to the local cache, or only report.
use crate::protocol::{decode, encodable, lemma_round_trip, parse, wire, Command, DecodeError, Message, MessageView};
use vstd::prelude::*;

verus! {

/// A change to make to the local cache.
#[derive(Clone, Debug, PartialEq, Eq)]
pub enum CacheOp {
    Insert { key: String, value: String },
    Remove { key: String },
}

/// The mathematical value of a [`CacheOp`].
pub enum OpView {
    Insert(Seq<char>, Seq<char>),
    Remove(Seq<char>),
}

impl View for CacheOp {
    type V = OpView;

    open spec fn view(&self) -> OpView {
        match self {
            CacheOp::Insert { key, value } => OpView::Insert(key@, value@),
            CacheOp::Remove { key } => OpView::Remove(key@),
        }
    }
}

/// One event taken by the control loop.
#[derive(Clone, Debug, PartialEq, Eq)]
pub enum Event {
    /// The probe timer fired.
    Tick,
    /// A raw payload arrived from a peer.
    Inbound(Vec<u8>),
    /// The local ingress applied a mutation, which peers must now receive.
    Local(Message),
}

/// The mathematical value of an [`Event`].
pub enum EventView {
    Tick,
    Inbound(Seq<u8>),
    Local(MessageView),
}

impl View for Event {
    type V = EventView;

    open spec fn view(&self) -> EventView {
        match self {
            Event::Tick => EventView::Tick,
            Event::Inbound(b) => EventView::Inbound(b@),
            Event::Local(m) => EventView::Local(m@),
        }
    }
}

/// What the loop does for one event.
#[derive(Clone, Debug, PartialEq, Eq)]
pub enum Action {
    /// Send this message to every peer.
    Broadcast(Message),
    /// Apply this operation to the local cache.
    Apply(CacheOp),
    /// A peer's liveness probe arrived: report it, change nothing.
    PingReceived,
    /// A payload did not decode: report it and drop it.
    Discard(DecodeError),
}

/// The mathematical value of an [`Action`].
pub enum ActionView {
    Broadcast(MessageView),
    Apply(OpView),
    PingReceived,
    Discard(DecodeError),
}

impl View for Action {
    type V = ActionView;

    open spec fn view(&self) -> ActionView {
        match self {
            Action::Broadcast(m) => ActionView::Broadcast(m@),
            Action::Apply(op) => ActionView::Apply(op@),
            Action::PingReceived => ActionView::PingReceived,
            Action::Discard(e) => ActionView::Discard(*e),
        }
    }
}

/// The liveness probe: a `Ping` with empty key and value.
pub open spec fn ping_view() -> MessageView {
    MessageView { cmd: Command::Ping, key: Seq::empty(), value: Seq::empty() }
}

/// What a decoded peer message asks of this node.
pub open spec fn dispatch(m: MessageView) -> ActionView {
    match m.cmd {
        Command::Ping => ActionView::PingReceived,
        Command::Insert => ActionView::Apply(OpView::Insert(m.key, m.value)),
        Command::Remove => ActionView::Apply(OpView::Remove(m.key)),
    }
}

/// What the loop does for an event.
pub open spec fn respond(e: EventView) -> ActionView {
    match e {
        EventView::Tick => ActionView::Broadcast(ping_view()),
        EventView::Inbound(b) => match parse(b) {
            Ok(m) => dispatch(m),
            Err(err) => ActionView::Discard(err),
        },
        EventView::Local(m) => ActionView::Broadcast(m),
    }
}

/// Builds the liveness probe.
pub fn ping() -> (r: Message)
    ensures
        r@ == ping_view(),
{
    Message { cmd: Command::Ping, key: String::new(), value: String::new() }
}

/// Decodes a payload received from a peer and says what it asks of this node.
pub fn handle_gossip_message(msg_bytes: &[u8]) -> (r: Action)
    ensures
        r@ == respond(EventView::Inbound(msg_bytes@)),
{
    match decode(msg_bytes) {
        Err(e) => Action::Discard(e),
        Ok(m) => match m.cmd {
            Command::Ping => Action::PingReceived,
            Command::Insert => Action::Apply(CacheOp::Insert { key: m.key, value: m.value }),
            Command::Remove => Action::Apply(CacheOp::Remove { key: m.key }),
        },
    }
}

/// Takes one event of the control loop and gives the action to perform.
pub fn next_action(event: Event) -> (r: Action)
    ensures
        r@ == respond(event@),
{
    match event {
        Event::Tick => Action::Broadcast(ping()),
        Event::Inbound(bytes) => handle_gossip_message(bytes.as_slice()),
        Event::Local(m) => Action::Broadcast(m),
    }
}

/// The operation that a mutation message stands for, if any.
pub open spec fn op_of(m: MessageView) -> Option<OpView> {
    match m.cmd {
        Command::Ping => None,
        Command::Insert => Some(OpView::Insert(m.key, m.value)),
        Command::Remove => Some(OpView::Remove(m.key)),
    }
}

/// The cache contents after an operation.
pub open spec fn apply_op(c: Map<Seq<char>, Seq<char>>, op: OpView) -> Map<Seq<char>, Seq<char>> {
    match op {
        OpView::Insert(k, v) => c.insert(k, v),
        OpView::Remove(k) => c.remove(k),
    }
}

/// The cache contents after an action; only `Apply` changes them.
pub open spec fn apply_action(c: Map<Seq<char>, Seq<char>>, a: ActionView) -> Map<
    Seq<char>,
    Seq<char>,
> {
    match a {
        ActionView::Apply(op) => apply_op(c, op),
        _ => c,
    }
}

/// The cache contents after the loop has handled `events` in order.
pub open spec fn run(c: Map<Seq<char>, Seq<char>>, events: Seq<EventView>) -> Map<
    Seq<char>,
    Seq<char>,
>
    decreases events.len(),
{
    if events.len() == 0 {
        c
    } else {
        apply_action(run(c, events.drop_last()), respond(events.last()))
    }
}

/// How many of `events` are probe timer ticks.
pub open spec fn count_ticks(events: Seq<EventView>) -> nat
    decreases events.len(),
{
    if events.len() == 0 {
        0
    } else {
        count_ticks(events.drop_last()) + if events.last() is Tick {
            1nat
        } else {
            0nat
        }
    }
}

/// How many of `events` the loop answers by broadcasting a `Ping`.
pub open spec fn count_ping_broadcasts(events: Seq<EventView>) -> nat
    decreases events.len(),
{
    if events.len() == 0 {
        0
    } else {
        count_ping_broadcasts(events.drop_last()) + if respond(events.last()) matches ActionView::Broadcast(m)
            && m.cmd == Command::Ping {
            1nat
        } else {
            0nat
        }
    }
}

/// Applying an operation twice leaves the cache as applying it once does,
/// and removing an absent key changes nothing.
pub proof fn lemma_op_idempotent(c: Map<Seq<char>, Seq<char>>, op: OpView)
    ensures
        apply_op(apply_op(c, op), op) == apply_op(c, op),
        op matches OpView::Remove(k) && !c.contains_key(k) ==> apply_op(c, op) == c,
{
    match op {
        OpView::Insert(k, v) => {
            assert(c.insert(k, v).insert(k, v) =~= c.insert(k, v));
        },
        OpView::Remove(k) => {
            assert(c.remove(k).remove(k) =~= c.remove(k));
            if !c.contains_key(k) {
                assert(c.remove(k) =~= c);
            }
        },
    }
}

/// A payload that does not decode changes nothing and does not keep a
/// valid `Insert` that follows it from being applied.
pub proof fn lemma_bad_payload_isolated(
    c: Map<Seq<char>, Seq<char>>,
    bad: Seq<u8>,
    k: Seq<char>,
    v: Seq<char>,
)
    requires
        parse(bad) is Err,
        encodable(MessageView { cmd: Command::Insert, key: k, value: v }),
    ensures
        respond(EventView::Inbound(bad)) is Discard,
        run(
            c,
            seq![
                EventView::Inbound(bad),
                EventView::Inbound(wire(MessageView { cmd: Command::Insert, key: k, value: v })),
            ],
        ) == c.insert(k, v),
{
    let m = MessageView { cmd: Command::Insert, key: k, value: v };
    lemma_round_trip(m);
    let events = seq![EventView::Inbound(bad), EventView::Inbound(wire(m))];
    assert(events.drop_last().drop_last() =~= Seq::<EventView>::empty());
    assert(run(c, events.drop_last().drop_last()) == c);
    assert(run(c, events.drop_last()) == c);
}

/// A `Ping` from a peer leaves the cache as it was.
pub proof fn lemma_ping_keeps_cache(c: Map<Seq<char>, Seq<char>>, m: MessageView)
    requires
        m.cmd == Command::Ping,
        encodable(m),
    ensures
        run(c, seq![EventView::Inbound(wire(m))]) == c,
{
    lemma_round_trip(m);
    let events = seq![EventView::Inbound(wire(m))];
    assert(events.drop_last() =~= Seq::<EventView>::empty());
    assert(run(c, events.drop_last()) == c);
}

/// Every probe tick is answered by a `Ping` broadcast, whatever else arrives.
pub proof fn lemma_ticks_probe(events: Seq<EventView>)
    ensures
        count_ping_broadcasts(events) >= count_ticks(events),
    decreases events.len(),
{
    if events.len() > 0 {
        lemma_ticks_probe(events.drop_last());
    }
}

/// A local mutation is broadcast unchanged, and a peer that receives its
/// encoding applies the same operation to its own cache, so that both
/// caches then agree on the key.
pub proof fn lemma_peer_follows(m: MessageView, local: Map<Seq<char>, Seq<char>>, peer: Map<Seq<char>, Seq<char>>)
    requires
        m.cmd != Command::Ping,
        encodable(m),
    ensures
        respond(EventView::Local(m)) == ActionView::Broadcast(m),
        run(peer, seq![EventView::Inbound(wire(m))]) == apply_op(peer, op_of(m)->Some_0),
        apply_op(local, op_of(m)->Some_0).contains_key(m.key) == apply_op(
            peer,
            op_of(m)->Some_0,
        ).contains_key(m.key),
        apply_op(local, op_of(m)->Some_0).contains_key(m.key) ==> apply_op(
            local,
            op_of(m)->Some_0,
        )[m.key] == m.value && apply_op(peer, op_of(m)->Some_0)[m.key] == m.value,
{
    lemma_round_trip(m);
    let events = seq![EventView::Inbound(wire(m))];
    assert(events.drop_last() =~= Seq::<EventView>::empty());
    assert(run(peer, events.drop_last()) == peer);
}

} // verus!
