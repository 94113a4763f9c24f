//! The gossip engine of one node: what it sends, to whom and how often, and
//! how it merges what it receives.
//!
//! The engine is a state machine. It never touches a socket or a clock: it
//! hands its driver an [`Action`], the driver performs it and reports the
//! [`Event`] that came of it, and [`Server::advance`] answers with the next
//! action.
//!
//! A round of the steady state has a receive side and a send side. The driver
//! waits for both and reports the one that is ready first; the other is
//! dropped for this round and has its chance in the next. This favours a quick
//! answer to whatever the transport offers over a fixed amount of work per
//! tick.

use vstd::prelude::*;
use serde_json::Value;
use crate::message::{Message, MessageView};
use crate::peer::Peer;
use crate::registry::{is_membership, recorded_all, PeerRegistry};
use crate::snapshot::{lists_entries, Contents};
use crate::store::{merged, written, Kv};
use crate::trusted::random_between;

verus! {

/// Milliseconds between two rounds of the steady state.
pub const TICK_MILLIS: u64 = 500;

/// How often a joining node announces itself before it goes on to the
/// steady state.
pub const JOIN_ATTEMPTS: u32 = 4;

/// Milliseconds between two announcements of a joining node.
pub const JOIN_PAUSE_MILLIS: u64 = 150;

/// The size in bytes of the buffer that a datagram is received into.
pub const DATAGRAM_CAPACITY: usize = 4096;

/// How an attempt to send a datagram ended.
#[derive(Clone, Copy, Debug, PartialEq, Eq, Structural)]
pub enum SendOutcome {
    /// The datagram was handed to the transport.
    Sent,
    /// The transport could not take it now. This is not an error: the next
    /// scheduled attempt stands in for a retry.
    WouldBlock,
    /// The transport refused it for another reason.
    Failed,
}

/// Why a datagram was not merged.
#[derive(Clone, Copy, Debug, PartialEq, Eq, Structural)]
pub enum ReceiveError {
    /// The datagram held no bytes.
    Empty,
    /// The bytes did not decode as a message.
    Malformed,
    /// The transport failed while it read the datagram.
    Transport,
}

impl ReceiveError {
    /// A short text for the error.
    pub fn describe(&self) -> (text: &'static str)
        ensures
            text@ == match *self {
                ReceiveError::Empty => "Empty data"@,
                ReceiveError::Malformed => "Malformed message"@,
                ReceiveError::Transport => "Transport failure"@,
            },
    {
        match self {
            ReceiveError::Empty => "Empty data",
            ReceiveError::Malformed => "Malformed message",
            ReceiveError::Transport => "Transport failure",
        }
    }
}

/// Where a node stands between bootstrap and steady state.
#[derive(Clone, Copy, Debug, PartialEq, Eq, Structural)]
pub enum Phase {
    /// The node announces itself to `target`; `sent` announcements are done.
    Joining { target: Peer, sent: u32 },
    /// The node gossips: one round per tick.
    Steady,
}

/// What the driver reports back to the engine.
#[derive(Debug, PartialEq, Eq)]
pub enum Event {
    /// An announcement was attempted and the pause after it is over.
    Announced(SendOutcome),
    /// The receive side of a round settled first: a datagram was read and
    /// decoded, or it could not be.
    Received(Result<Message, ReceiveError>),
    /// The send side of a round settled first: the transport is writable.
    Writable,
    /// The message of a round was attempted.
    Sent(SendOutcome),
}

/// What the engine asks of its driver.
#[derive(Debug, PartialEq, Eq)]
pub enum Action {
    /// Once the transport is writable, try one time to send `message` to
    /// `to`; whatever comes of it, pause for `pause_millis` and report
    /// `Event::Announced`.
    Announce { to: Peer, message: Message, pause_millis: u64 },
    /// Wait for the tick that ends `tick_millis` after the previous one, then
    /// wait until a datagram can be read or one can be written, and report
    /// `Event::Received` or `Event::Writable`.
    Round { tick_millis: u64 },
    /// Send `message` to `to` and report `Event::Sent`.
    Send { to: Peer, message: Message },
}

/// What an `Event` says.
#[verifier::ext_equal]
pub enum EventView {
    Announced(SendOutcome),
    Received(Result<MessageView, ReceiveError>),
    Writable,
    Sent(SendOutcome),
}

/// What an `Action` says.
#[verifier::ext_equal]
pub enum ActionView {
    Announce { to: Peer, message: MessageView, pause_millis: u64 },
    Round { tick_millis: u64 },
    Send { to: Peer, message: MessageView },
}

impl View for Event {
    type V = EventView;

    open spec fn view(&self) -> EventView {
        match *self {
            Event::Announced(outcome) => EventView::Announced(outcome),
            Event::Received(Ok(message)) => EventView::Received(Ok(message@)),
            Event::Received(Err(error)) => EventView::Received(Err(error)),
            Event::Writable => EventView::Writable,
            Event::Sent(outcome) => EventView::Sent(outcome),
        }
    }
}

impl View for Action {
    type V = ActionView;

    open spec fn view(&self) -> ActionView {
        match *self {
            Action::Announce { to, message, pause_millis } => ActionView::Announce {
                to,
                message: message@,
                pause_millis,
            },
            Action::Round { tick_millis } => ActionView::Round { tick_millis },
            Action::Send { to, message } => ActionView::Send { to, message: message@ },
        }
    }
}

/// The state of a node: whom it knows, what it stores, and its phase.
#[verifier::ext_equal]
pub struct ServerView {
    pub peers: Seq<Peer>,
    pub store: Contents,
    pub phase: Phase,
}

/// The node after it merged `message`: the snapshot is offered to the store,
/// and every peer of the message is recorded, whether or not the snapshot was
/// adopted.
pub open spec fn received(node: ServerView, message: MessageView) -> ServerView {
    ServerView {
        peers: recorded_all(node.peers, message.peers),
        store: merged(node.store, message.update),
        phase: node.phase,
    }
}

/// The message of a steady-state round: every known peer and the whole store.
pub open spec fn gossip_of(node: ServerView) -> MessageView {
    MessageView { peers: node.peers, update: node.store }
}

/// The message of a joining node: the local peer alone and the whole store.
pub open spec fn announcement_of(node: ServerView) -> MessageView {
    MessageView { peers: seq![node.peers[0]], update: node.store }
}

/// The member that `pick` selects as the target of a round. The local peer,
/// at index 0, is never selected.
pub open spec fn target_at(peers: Seq<Peer>, pick: int) -> Option<Peer> {
    if 1 <= pick < peers.len() {
        Some(peers[pick])
    } else {
        None
    }
}

/// The action that asks for one more announcement to `target`.
pub open spec fn announce(node: ServerView, target: Peer) -> ActionView {
    ActionView::Announce {
        to: target,
        message: announcement_of(node),
        pause_millis: JOIN_PAUSE_MILLIS,
    }
}

/// The action that asks for the next round.
pub open spec fn next_round() -> ActionView {
    ActionView::Round { tick_millis: TICK_MILLIS }
}

/// The transition of the engine: the state after `event`, and the action
/// that the engine then asks for. `pick` matters only where a target is
/// selected.
///
/// While joining, each reported announcement counts, whatever its outcome;
/// after the last one the node turns steady. Any other event leaves a joining
/// node as it is and the announcement is asked for again.
///
/// In the steady state a decoded message is merged, a writable transport
/// leads to a message for the selected target, or to nothing if no target is
/// selected, and everything else, failures included, only leads to the next
/// round.
pub open spec fn step(node: ServerView, event: EventView, pick: int) -> (ServerView, ActionView) {
    match node.phase {
        Phase::Joining { target, sent } => match event {
            EventView::Announced(_) => if sent + 1 < JOIN_ATTEMPTS {
                let next = ServerView {
                    phase: Phase::Joining { target, sent: (sent + 1) as u32 },
                    ..node
                };
                (next, announce(next, target))
            } else {
                (ServerView { phase: Phase::Steady, ..node }, next_round())
            },
            _ => (node, announce(node, target)),
        },
        Phase::Steady => match event {
            EventView::Received(Ok(message)) => (received(node, message), next_round()),
            EventView::Writable => match target_at(node.peers, pick) {
                Some(to) => (node, ActionView::Send { to, message: gossip_of(node) }),
                None => (node, next_round()),
            },
            _ => (node, next_round()),
        },
    }
}

/// Whether `pick` is an index that selects a target among `peers`, where
/// there is one to select.
pub open spec fn selects_target(peers: Seq<Peer>, pick: int) -> bool {
    peers.len() > 1 ==> 1 <= pick < peers.len()
}

/// The buffer that a datagram is received into: `DATAGRAM_CAPACITY` zero
/// bytes. A datagram that does not fit is cut off by the transport.
pub fn receive_buffer() -> (buffer: Vec<u8>)
    ensures
        buffer@.len() == DATAGRAM_CAPACITY,
        forall|i: int| 0 <= i < buffer@.len() ==> buffer@[i] == 0,
{
    let mut buffer: Vec<u8> = Vec::new();
    buffer.resize(DATAGRAM_CAPACITY, 0);
    buffer
}

/// The bytes of a received datagram: the first `received` bytes of the buffer
/// it was read into, or all of the buffer if it holds fewer. A datagram
/// without bytes is an error.
pub fn frame_datagram(buffer: Vec<u8>, received: usize) -> (framed: Result<Vec<u8>, ReceiveError>)
    ensures
        match framed {
            Ok(payload) => received > 0 && payload@ == buffer@.take(
                vstd::math::min(received as int, buffer@.len() as int),
            ),
            Err(error) => received == 0 && error == ReceiveError::Empty,
        },
{
    if received == 0 {
        return Err(ReceiveError::Empty);
    }
    let mut payload = buffer;
    payload.truncate(received);
    Ok(payload)
}

/// One node of the cluster.
#[derive(Debug)]
pub struct Server {
    peers: PeerRegistry,
    store: Kv,
    phase: Phase,
}

impl View for Server {
    type V = ServerView;

    closed spec fn view(&self) -> ServerView {
        ServerView { peers: self.peers@, store: self.store@, phase: self.phase }
    }
}

impl Server {
    /// A node that knows only itself, with an empty store at version 0.
    pub fn new(local: Peer) -> (server: Server)
        ensures
            server@ == (ServerView {
                peers: seq![local],
                store: Contents { counter: 0, entries: Map::empty() },
                phase: Phase::Steady,
            }),
    {
        Server { peers: PeerRegistry::new(local), store: Kv::new(), phase: Phase::Steady }
    }

    /// The local peer.
    pub fn local(&self) -> (local: Peer)
        ensures
            is_membership(self@.peers),
            local == self@.peers[0],
    {
        self.peers.local()
    }

    /// The phase of the node.
    pub fn phase(&self) -> (phase: Phase)
        ensures
            phase == self@.phase,
    {
        self.phase
    }

    /// A copy of the current membership, the local peer first.
    pub fn known_peers(&self) -> (peers: Vec<Peer>)
        ensures
            is_membership(self@.peers),
            peers@ == self@.peers,
    {
        self.peers.known_peers()
    }

    /// The version of the store.
    pub fn counter(&self) -> (counter: u64)
        ensures
            counter == self@.store.counter,
    {
        self.store.counter()
    }

    /// The value stored under `key`, if any.
    pub fn get(&self, key: &str) -> (found: Option<Value>)
        ensures
            found == if self@.store.entries.contains_key(key@) {
                Some(self@.store.entries[key@])
            } else {
                None::<Value>
            },
    {
        self.store.get(key)
    }

    /// A local write: stores `value` under `key` and raises the version by
    /// one. Returns the new version.
    pub fn put(&mut self, key: String, value: Value) -> (version: u64)
        requires
            old(self)@.store.counter < u64::MAX,
        ensures
            final(self)@ == (ServerView {
                store: written(old(self)@.store, key@, value),
                ..old(self)@
            }),
            version == final(self)@.store.counter,
    {
        self.store.local_write(key, value)
    }

    /// The message of a steady-state round.
    pub fn gossip(&self) -> (message: Message)
        ensures
            is_membership(self@.peers),
            message@ == gossip_of(self@),
            lists_entries(message.update.entries@, self@.store.entries),
    {
        Message { peers: self.peers.known_peers(), update: self.store.snapshot() }
    }

    /// The message by which a joining node announces itself.
    pub fn announcement(&self) -> (message: Message)
        ensures
            is_membership(self@.peers),
            message@ == announcement_of(self@),
            lists_entries(message.update.entries@, self@.store.entries),
    {
        let mut peers: Vec<Peer> = Vec::new();
        peers.push(self.peers.local());
        Message { peers, update: self.store.snapshot() }
    }

    /// Merges a message: its snapshot is offered to the store, then each of
    /// its peers is recorded.
    pub fn receive(&mut self, message: &Message)
        ensures
            is_membership(final(self)@.peers),
            final(self)@ == received(old(self)@, message@),
    {
        self.store.merge_remote(&message.update);
        proof {
            use_type_invariant(&self.peers);
            self.peers.lemma_valid();
        }
        let mut i: usize = 0;
        while i < message.peers.len()
            invariant
                i <= message.peers@.len(),
                is_membership(self.peers@),
                self.peers@ == recorded_all(old(self).peers@, message.peers@.take(i as int)),
                self.store@ == merged(old(self).store@, message.update@),
                self.phase == old(self).phase,
            decreases message.peers@.len() - i,
        {
            self.peers.record_if_new(message.peers[i]);
            proof {
                assert(message.peers@.take(i + 1).drop_last() == message.peers@.take(i as int));
            }
            i += 1;
        }
        proof {
            assert(message.peers@.take(i as int) == message.peers@);
        }
    }

    /// The send side of a round, for the target that `pick` selects: the
    /// target and the message for it, or nothing if `pick` selects no target.
    pub fn send_attempt_at(&self, pick: usize) -> (sending: Option<(Peer, Message)>)
        ensures
            is_membership(self@.peers),
            match sending {
                Some((to, message)) => target_at(self@.peers, pick as int) == Some(to) && message@
                    == gossip_of(self@),
                None => target_at(self@.peers, pick as int) is None,
            },
    {
        proof {
            use_type_invariant(&self.peers);
            self.peers.lemma_valid();
        }
        if pick == 0 {
            return None;
        }
        match self.peers.get(pick) {
            Some(to) => Some((to, self.gossip())),
            None => None,
        }
    }

    /// The send side of a round: a target drawn at random among the known
    /// peers other than the local one, and the message for it. A node that
    /// knows only itself sends nothing.
    pub fn send_attempt(&self) -> (sending: Option<(Peer, Message)>)
        ensures
            is_membership(self@.peers),
            self@.peers.len() == 1 <==> sending is None,
            sending matches Some((to, message)) ==> {
                &&& exists|pick: int| 1 <= pick < self@.peers.len() && self@.peers[pick] == to
                &&& to != self@.peers[0]
                &&& message@ == gossip_of(self@)
            },
    {
        let known = self.peers.len();
        if known <= 1 {
            return None;
        }
        let pick = random_between(1, known);
        self.send_attempt_at(pick)
    }

    /// Starts a cluster of one: the node is in the steady state and asks for
    /// its first round.
    pub fn start(&mut self) -> (action: Action)
        ensures
            is_membership(final(self)@.peers),
            final(self)@ == (ServerView { phase: Phase::Steady, ..old(self)@ }),
            action@ == next_round(),
    {
        proof {
            use_type_invariant(&self.peers);
            self.peers.lemma_valid();
        }
        self.phase = Phase::Steady;
        Action::Round { tick_millis: TICK_MILLIS }
    }

    /// Joins the cluster that `peer` belongs to: the node begins to announce
    /// itself to `peer` and asks for the first announcement.
    pub fn join(&mut self, peer: Peer) -> (action: Action)
        ensures
            is_membership(final(self)@.peers),
            final(self)@ == (ServerView {
                phase: Phase::Joining { target: peer, sent: 0 },
                ..old(self)@
            }),
            action@ == announce(final(self)@, peer),
    {
        self.phase = Phase::Joining { target: peer, sent: 0 };
        Action::Announce { to: peer, message: self.announcement(), pause_millis: JOIN_PAUSE_MILLIS }
    }

    /// The transition of the engine for `event`, with `pick` as the index
    /// that selects the target of a round.
    pub fn advance_with(&mut self, event: Event, pick: usize) -> (action: Action)
        ensures
            is_membership(final(self)@.peers),
            final(self)@ == step(old(self)@, event@, pick as int).0,
            action@ == step(old(self)@, event@, pick as int).1,
    {
        proof {
            use_type_invariant(&self.peers);
            self.peers.lemma_valid();
        }
        match self.phase {
            Phase::Joining { target, sent } => {
                match event {
                    Event::Announced(_) => {
                        if sent < JOIN_ATTEMPTS - 1 {
                            self.phase = Phase::Joining { target, sent: sent + 1 };
                            Action::Announce {
                                to: target,
                                message: self.announcement(),
                                pause_millis: JOIN_PAUSE_MILLIS,
                            }
                        } else {
                            self.phase = Phase::Steady;
                            Action::Round { tick_millis: TICK_MILLIS }
                        }
                    },
                    _ => Action::Announce {
                        to: target,
                        message: self.announcement(),
                        pause_millis: JOIN_PAUSE_MILLIS,
                    },
                }
            },
            Phase::Steady => {
                match event {
                    Event::Received(Ok(message)) => {
                        self.receive(&message);
                        Action::Round { tick_millis: TICK_MILLIS }
                    },
                    Event::Writable => {
                        match self.send_attempt_at(pick) {
                            Some((to, message)) => Action::Send { to, message },
                            None => Action::Round { tick_millis: TICK_MILLIS },
                        }
                    },
                    _ => Action::Round { tick_millis: TICK_MILLIS },
                }
            },
        }
    }

    /// The transition of the engine for `event`. Where a round needs a
    /// target, it is drawn at random among the known peers other than the
    /// local one.
    pub fn advance(&mut self, event: Event) -> (action: Action)
        ensures
            is_membership(final(self)@.peers),
            exists|pick: int|
                {
                    &&& selects_target(old(self)@.peers, pick)
                    &&& final(self)@ == (#[trigger] step(old(self)@, event@, pick)).0
                    &&& action@ == step(old(self)@, event@, pick).1
                },
    {
        let known = self.peers.len();
        let draws = match (self.phase, &event) {
            (Phase::Steady, Event::Writable) => known > 1,
            _ => false,
        };
        let pick = if draws {
            random_between(1, known)
        } else {
            0
        };
        let action = self.advance_with(event, pick);
        proof {
            // Where nothing was drawn, the transition is the same for every
            // index, so an index that selects a target stands for the 0.
            let witness: int = if draws || known <= 1 {
                pick as int
            } else {
                1
            };
            assert(selects_target(old(self)@.peers, witness));
            assert(step(old(self)@, event@, witness) == step(old(self)@, event@, pick as int));
        }
        action
    }
}

} // verus!
