//! The unit of gossip: the peers a sender knows and a snapshot of its store.

use vstd::prelude::*;
use crate::peer::Peer;
use crate::snapshot::{Contents, Update};

verus! {

/// One gossip message: every peer the sender knows, in its order, and a
/// full snapshot of its store.
#[derive(Debug, PartialEq, Eq)]
pub struct Message {
    pub peers: Vec<Peer>,
    pub update: Update,
}

/// What a `Message` says.
#[verifier::ext_equal]
pub struct MessageView {
    pub peers: Seq<Peer>,
    pub update: Contents,
}

impl View for Message {
    type V = MessageView;

    open spec fn view(&self) -> MessageView {
        MessageView { peers: self.peers@, update: self.update@ }
    }
}

} // verus!
