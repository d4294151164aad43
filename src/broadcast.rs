//! Fan-out of one message to every peer in the current membership view.
//!
//! The membership is read fresh for each broadcast. The local node is
//! skipped, every other member is sent the encoded message once, in
//! membership order, and a failed send neither stops the round nor is
//! retried.
use crate::protocol::{encode, wire, Message};
use vstd::prelude::*;

verus! {

/// A cluster member as the membership service lists it.
#[derive(Clone, Debug, PartialEq, Eq)]
pub struct Member {
    pub name: String,
    /// The member's transport address, as `ip:port`.
    pub addr: String,
}

/// The texts held by a sequence of strings.
pub open spec fn texts(v: Seq<String>) -> Seq<Seq<char>> {
    v.map_values(|s: String| s@)
}

/// The addresses a broadcast goes to: that of every member not named
/// `local`, in membership order.
pub open spec fn peer_addrs(members: Seq<Member>, local: Seq<char>) -> Seq<Seq<char>>
    decreases members.len(),
{
    if members.len() == 0 {
        Seq::empty()
    } else {
        let rest = peer_addrs(members.drop_last(), local);
        if members.last().name@ == local {
            rest
        } else {
            rest.push(members.last().addr@)
        }
    }
}

/// How many members are named `local`.
pub open spec fn count_named(members: Seq<Member>, local: Seq<char>) -> nat
    decreases members.len(),
{
    if members.len() == 0 {
        0
    } else {
        count_named(members.drop_last(), local) + if members.last().name@ == local {
            1nat
        } else {
            0nat
        }
    }
}

/// The addresses to send a broadcast to, skipping the member named `local_name`.
pub fn peer_targets(members: &Vec<Member>, local_name: &String) -> (r: Vec<String>)
    ensures
        texts(r@) == peer_addrs(members@, local_name@),
{
    let mut out: Vec<String> = Vec::new();
    let mut i: usize = 0;
    while i < members.len()
        invariant
            i <= members@.len(),
            texts(out@) == peer_addrs(members@.take(i as int), local_name@),
        decreases members@.len() - i,
    {
        let m = &members[i];
        assert(members@.take(i + 1).drop_last() =~= members@.take(i as int));
        if m.name != *local_name {
            let a = m.addr.clone();
            proof {
                assert(texts(out@.push(a)) =~= texts(out@).push(a@));
            }
            out.push(a);
        }
        i = i + 1;
    }
    assert(members@.take(members@.len() as int) =~= members@);
    out
}

/// Where one broadcast round stands.
pub struct FanoutView {
    /// The addresses still to be tried, and those already tried, in order.
    pub targets: Seq<Seq<char>>,
    /// The encoded message that every target is sent.
    pub payload: Seq<u8>,
    /// How many targets have been tried.
    pub next: nat,
    /// How many sends succeeded.
    pub delivered: nat,
    /// How many sends failed.
    pub failed: nat,
}

/// The round after one more send, whatever its outcome.
pub open spec fn advance(v: FanoutView, sent: bool) -> FanoutView {
    FanoutView {
        next: v.next + 1,
        delivered: if sent {
            v.delivered + 1
        } else {
            v.delivered
        },
        failed: if sent {
            v.failed
        } else {
            v.failed + 1
        },
        ..v
    }
}

/// The round after a run of sends with the given outcomes.
pub open spec fn advance_all(v: FanoutView, outcomes: Seq<bool>) -> FanoutView
    decreases outcomes.len(),
{
    if outcomes.len() == 0 {
        v
    } else {
        advance(advance_all(v, outcomes.drop_last()), outcomes.last())
    }
}

/// One broadcast round: each peer is sent the message once, in order, and
/// the outcome of a send has no bearing on the sends after it.
pub struct Fanout {
    targets: Vec<String>,
    payload: Vec<u8>,
    next: usize,
    delivered: usize,
    failed: usize,
}

impl View for Fanout {
    type V = FanoutView;

    closed spec fn view(&self) -> FanoutView {
        FanoutView {
            targets: texts(self.targets@),
            payload: self.payload@,
            next: self.next as nat,
            delivered: self.delivered as nat,
            failed: self.failed as nat,
        }
    }
}

impl Fanout {
    /// The round's counters agree with each other.
    pub closed spec fn wf(&self) -> bool {
        &&& self.next <= self.targets@.len()
        &&& self.delivered + self.failed == self.next
    }

    /// Plans the broadcast of `msg` to every member but the one named `local_name`.
    pub fn plan(members: &Vec<Member>, local_name: &String, msg: &Message) -> (r: Fanout)
        ensures
            r.wf(),
            r@ == (FanoutView {
                targets: peer_addrs(members@, local_name@),
                payload: wire(msg@),
                next: 0,
                delivered: 0,
                failed: 0,
            }),
    {
        Fanout {
            targets: peer_targets(members, local_name),
            payload: encode(msg),
            next: 0,
            delivered: 0,
            failed: 0,
        }
    }

    /// The address to send to next, or `None` once every target was tried.
    pub fn next_target(&self) -> (r: Option<&String>)
        requires
            self.wf(),
        ensures
            r is Some <==> self@.next < self@.targets.len(),
            r matches Some(t) ==> t@ == self@.targets[self@.next as int],
    {
        if self.next < self.targets.len() {
            Some(&self.targets[self.next])
        } else {
            None
        }
    }

    /// The encoded message to send.
    pub fn payload(&self) -> (r: &Vec<u8>)
        ensures
            r@ == self@.payload,
    {
        &self.payload
    }

    /// Records the outcome of the send to the current target and moves on
    /// to the next one.
    pub fn record(&mut self, sent: bool)
        requires
            old(self).wf(),
            old(self)@.next < old(self)@.targets.len(),
        ensures
            final(self).wf(),
            final(self)@ == advance(old(self)@, sent),
    {
        let n = self.targets.len();
        assert(texts(self.targets@).len() == n);
        if sent {
            self.delivered = self.delivered + 1;
        } else {
            self.failed = self.failed + 1;
        }
        self.next = self.next + 1;
    }

    /// How many sends succeeded and how many failed so far.
    pub fn outcome(&self) -> (r: (usize, usize))
        ensures
            r.0 == self@.delivered,
            r.1 == self@.failed,
    {
        (self.delivered, self.failed)
    }
}

/// A broadcast goes to every member but the local node, once each: as many
/// sends as there are members not named `local`, each to the address of
/// such a member, and, where addresses are distinct, none to the local
/// node's own address.
pub proof fn lemma_fanout_skips_self(members: Seq<Member>, local: Seq<char>)
    ensures
        peer_addrs(members, local).len() + count_named(members, local) == members.len(),
        forall|t: int|
            0 <= t < peer_addrs(members, local).len() ==> exists|j: int|
                0 <= j < members.len() && members[j].name@ != local && members[j].addr@
                    == #[trigger] peer_addrs(members, local)[t],
        forall|j: int|
            0 <= j < members.len() && members[j].name@ != local ==> peer_addrs(
                members,
                local,
            ).contains(#[trigger] members[j].addr@),
        (forall|i: int, j: int|
            0 <= i < members.len() && 0 <= j < members.len() && i != j ==> members[i].addr@
                != members[j].addr@) ==> forall|j: int|
            0 <= j < members.len() && members[j].name@ == local ==> !peer_addrs(
                members,
                local,
            ).contains(#[trigger] members[j].addr@),
    decreases members.len(),
{
    if members.len() > 0 {
        let init = members.drop_last();
        lemma_fanout_skips_self(init, local);
        let rest = peer_addrs(init, local);
        let all = peer_addrs(members, local);
        let n = members.len() - 1;
        assert forall|t: int| 0 <= t < all.len() implies exists|j: int|
            0 <= j < members.len() && members[j].name@ != local && members[j].addr@
                == #[trigger] all[t] by {
            if t < rest.len() {
                let j = choose|j: int|
                    0 <= j < init.len() && init[j].name@ != local && init[j].addr@ == rest[t];
                assert(members[j] == init[j]);
            } else {
                assert(members[n].addr@ == all[t]);
            }
        }
        assert forall|j: int|
            0 <= j < members.len() && members[j].name@ != local implies all.contains(
                #[trigger] members[j].addr@,
            ) by {
            if j < n {
                assert(members[j] == init[j]);
                let k = choose|k: int| 0 <= k < rest.len() && rest[k] == init[j].addr@;
                assert(all[k] == rest[k]);
            } else {
                assert(all[all.len() - 1] == members[j].addr@);
            }
        }
        if forall|i: int, j: int|
            0 <= i < members.len() && 0 <= j < members.len() && i != j ==> members[i].addr@
                != members[j].addr@ {
            assert forall|j: int|
                0 <= j < members.len() && members[j].name@ == local implies !all.contains(
                    #[trigger] members[j].addr@,
                ) by {
                if all.contains(members[j].addr@) {
                    let t = choose|t: int| 0 <= t < all.len() && all[t] == members[j].addr@;
                    let i = choose|i: int|
                        0 <= i < members.len() && members[i].name@ != local && members[i].addr@
                            == #[trigger] all[t];
                    assert(i != j);
                }
            }
        }
    }
}

/// Whatever became of the sends before it, a round moves on to the next
/// target: after any run of outcomes it has tried exactly that many
/// targets, with the same targets and message, and has counted each
/// outcome once.
pub proof fn lemma_failures_isolated(v: FanoutView, outcomes: Seq<bool>)
    ensures
        advance_all(v, outcomes).next == v.next + outcomes.len(),
        advance_all(v, outcomes).targets == v.targets,
        advance_all(v, outcomes).payload == v.payload,
        advance_all(v, outcomes).delivered + advance_all(v, outcomes).failed == v.delivered
            + v.failed + outcomes.len(),
    decreases outcomes.len(),
{
    if outcomes.len() > 0 {
        lemma_failures_isolated(v, outcomes.drop_last());
    }
}

} // verus!
