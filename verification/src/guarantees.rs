//! What the protocol guarantees, stated over the transition of the engine
//! and proved once and for all: what a merge does and does not change, what a
//! round of gossip achieves, whom a round is sent to, how long a join lasts,
//! and what holds of a node over its whole lifetime.

use vstd::prelude::*;
use serde_json::Value;
use crate::gossip::{
    gossip_of, next_round, received, selects_target, step, ActionView, EventView, Phase,
    SendOutcome, ServerView, JOIN_ATTEMPTS,
};
use crate::message::MessageView;
use crate::peer::Peer;
use crate::registry::{is_membership, lemma_recorded_all, lemma_recorded_all_idempotent};
use crate::store::{lemma_merge_idempotent, written};

verus! {

/// Merging the same message a second time changes nothing.
pub proof fn lemma_receive_idempotent(node: ServerView, message: MessageView)
    requires
        is_membership(node.peers),
    ensures
        received(received(node, message), message) == received(node, message),
{
    lemma_recorded_all_idempotent(node.peers, message.peers);
    lemma_merge_idempotent(node.store, message.update);
}

/// A message whose version is not higher than the local one leaves the
/// store as it is, whatever it holds. Its peers are recorded all the same.
pub proof fn lemma_receive_stale(node: ServerView, message: MessageView)
    requires
        is_membership(node.peers),
        message.update.counter <= node.store.counter,
    ensures
        received(node, message).store == node.store,
        forall|i: int| 0 <= i < message.peers.len()
            ==> received(node, message).peers.contains(#[trigger] message.peers[i]),
{
    lemma_recorded_all(node.peers, message.peers);
}

/// What one message from `from` achieves at `to`, when it carries all that
/// `from` knows: afterwards `to` knows every peer that `from` knows, its
/// version is the higher of the two, and if the version of `from` was the
/// higher one, `to` holds under each key of `from` the value that `from` holds.
pub proof fn lemma_gossip_round(from: ServerView, to: ServerView)
    requires
        is_membership(from.peers),
        is_membership(to.peers),
    ensures
        forall|i: int| 0 <= i < from.peers.len()
            ==> received(to, gossip_of(from)).peers.contains(#[trigger] from.peers[i]),
        received(to, gossip_of(from)).store.counter == vstd::math::max(
            from.store.counter as int,
            to.store.counter as int,
        ),
        from.store.counter > to.store.counter ==> forall|key: Seq<char>|
            from.store.entries.contains_key(key) ==> #[trigger] received(
                to,
                gossip_of(from),
            ).store.entries.contains_pair(key, from.store.entries[key]),
{
    lemma_recorded_all(to.peers, from.peers);
}

/// What an exchange achieves, one message from `a` to `b` and then one back:
/// both nodes are at the same version, the higher of the two they started
/// with, and both know the same peers, namely all that either knew.
pub proof fn lemma_exchange_converges(a: ServerView, b: ServerView)
    requires
        is_membership(a.peers),
        is_membership(b.peers),
    ensures
        ({
            let b_after = received(b, gossip_of(a));
            let a_after = received(a, gossip_of(b_after));
            &&& a_after.store.counter == b_after.store.counter
            &&& b_after.store.counter == vstd::math::max(
                a.store.counter as int,
                b.store.counter as int,
            )
            &&& forall|peer: Peer| #[trigger]
                a_after.peers.contains(peer) <==> a.peers.contains(peer) || b.peers.contains(peer)
            &&& forall|peer: Peer| #[trigger]
                b_after.peers.contains(peer) <==> a.peers.contains(peer) || b.peers.contains(peer)
        }),
{
    let b_after = received(b, gossip_of(a));
    let a_after = received(a, gossip_of(b_after));
    lemma_recorded_all(b.peers, a.peers);
    lemma_recorded_all(a.peers, b_after.peers);
    assert forall|peer: Peer| a.peers.contains(peer) || b.peers.contains(peer) implies #[trigger]
        b_after.peers.contains(peer) by {
        if a.peers.contains(peer) {
            let i = choose|i: int| 0 <= i < a.peers.len() && a.peers[i] == peer;
            assert(b_after.peers.contains(a.peers[i]));
        } else {
            let i = choose|i: int| 0 <= i < b.peers.len() && b.peers[i] == peer;
            assert(b_after.peers[i] == peer);
        }
    }
    assert forall|peer: Peer| a.peers.contains(peer) || b.peers.contains(peer) implies #[trigger]
        a_after.peers.contains(peer) by {
        if a.peers.contains(peer) {
            let i = choose|i: int| 0 <= i < a.peers.len() && a.peers[i] == peer;
            assert(a_after.peers[i] == peer);
        } else {
            let i = choose|i: int| 0 <= i < b_after.peers.len() && b_after.peers[i] == peer;
            assert(a_after.peers.contains(b_after.peers[i]));
        }
    }
}

/// No event ever removes a member, moves the local peer from the first
/// place or lowers the version, and the membership stays valid. The only event
/// that changes members or store at all is a decoded message in the steady
/// state: an empty or malformed datagram, a failed send and a stray event
/// leave both as they are.
pub proof fn lemma_step_keeps_state(node: ServerView, event: EventView, pick: int)
    requires
        is_membership(node.peers),
    ensures
        is_membership(step(node, event, pick).0.peers),
        node.peers.is_prefix_of(step(node, event, pick).0.peers),
        step(node, event, pick).0.store.counter >= node.store.counter,
        !(node.phase is Steady && event matches EventView::Received(Ok(_))) ==> {
            &&& step(node, event, pick).0.peers == node.peers
            &&& step(node, event, pick).0.store == node.store
        },
{
    if node.phase is Steady {
        if let EventView::Received(Ok(message)) = event {
            lemma_recorded_all(node.peers, message.peers);
        }
    }
}

/// One thing that happens to a node in its lifetime: its driver reports an
/// event, or a client writes a key.
pub enum Occurrence {
    Reported { event: EventView, pick: int },
    Written { key: Seq<char>, value: Value },
}

/// The node after `occurrence`.
pub open spec fn after(node: ServerView, occurrence: Occurrence) -> ServerView {
    match occurrence {
        Occurrence::Reported { event, pick } => step(node, event, pick).0,
        Occurrence::Written { key, value } => ServerView {
            store: written(node.store, key, value),
            ..node
        },
    }
}

/// The node after each of `occurrences`, in order.
pub open spec fn after_all(node: ServerView, occurrences: Seq<Occurrence>) -> ServerView
    decreases occurrences.len(),
{
    if occurrences.len() == 0 {
        node
    } else {
        after(after_all(node, occurrences.drop_last()), occurrences.last())
    }
}

/// Over the whole lifetime of a node, whatever happens to it: the
/// membership stays valid and only grows, with every member in the place it
/// first took and the local peer first, and the version never goes down.
pub proof fn lemma_lifetime(node: ServerView, occurrences: Seq<Occurrence>)
    requires
        is_membership(node.peers),
    ensures
        is_membership(after_all(node, occurrences).peers),
        node.peers.is_prefix_of(after_all(node, occurrences).peers),
        after_all(node, occurrences).peers[0] == node.peers[0],
        after_all(node, occurrences).store.counter >= node.store.counter,
    decreases occurrences.len(),
{
    if occurrences.len() > 0 {
        let before = after_all(node, occurrences.drop_last());
        lemma_lifetime(node, occurrences.drop_last());
        if let Occurrence::Reported { event, pick } = occurrences.last() {
            lemma_step_keeps_state(before, event, pick);
        }
    }
}

/// The send side of a round never selects the local peer. A node that knows
/// only itself sends nothing and asks for the next round; a node that knows
/// others sends its whole state to the member that a selecting `pick` names.
/// Either way the node itself is unchanged.
pub proof fn lemma_round_target(node: ServerView, pick: int)
    requires
        is_membership(node.peers),
        node.phase is Steady,
        selects_target(node.peers, pick),
    ensures
        step(node, EventView::Writable, pick).0 == node,
        node.peers.len() == 1 ==> step(node, EventView::Writable, pick).1 == next_round(),
        node.peers.len() > 1 ==> step(node, EventView::Writable, pick).1 == (ActionView::Send {
            to: node.peers[pick],
            message: gossip_of(node),
        }),
        node.peers.len() > 1 ==> node.peers[pick] != node.peers[0],
{
}

/// The node after each of `outcomes` was reported as the outcome of an
/// announcement, in order.
pub open spec fn after_announcements(node: ServerView, outcomes: Seq<SendOutcome>) -> ServerView
    decreases outcomes.len(),
{
    if outcomes.len() == 0 {
        node
    } else {
        step(
            after_announcements(node, outcomes.drop_last()),
            EventView::Announced(outcomes.last()),
            0,
        ).0
    }
}

/// A joining node asks for exactly `JOIN_ATTEMPTS` announcements: while
/// fewer outcomes are reported it is still joining, and with the last one it
/// is in the steady state, whatever the outcomes were. Members and store are
/// untouched by all of it.
pub proof fn lemma_join_budget(node: ServerView, target: Peer, outcomes: Seq<SendOutcome>)
    requires
        outcomes.len() <= JOIN_ATTEMPTS,
    ensures
        after_announcements(
            ServerView { phase: Phase::Joining { target, sent: 0 }, ..node },
            outcomes,
        ) == (ServerView {
            phase: if outcomes.len() < JOIN_ATTEMPTS {
                Phase::Joining { target, sent: outcomes.len() as u32 }
            } else {
                Phase::Steady
            },
            ..node
        }),
    decreases outcomes.len(),
{
    if outcomes.len() > 0 {
        lemma_join_budget(node, target, outcomes.drop_last());
    }
}

} // verus!
