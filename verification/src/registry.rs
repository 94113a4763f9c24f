//! The set of known cluster members.

use vstd::prelude::*;
use crate::peer::Peer;

verus! {

/// What every registry's membership looks like: the local peer stands
/// first, so there is at least one member, and no peer occurs twice.
pub open spec fn is_membership(members: Seq<Peer>) -> bool {
    members.len() >= 1 && members.no_duplicates()
}

/// Membership after `candidate` was observed: unchanged if it is already
/// known, the local peer included, else with `candidate` appended.
pub open spec fn recorded(members: Seq<Peer>, candidate: Peer) -> Seq<Peer> {
    if members.contains(candidate) {
        members
    } else {
        members.push(candidate)
    }
}

/// Membership after each of `candidates` was observed, in order.
pub open spec fn recorded_all(members: Seq<Peer>, candidates: Seq<Peer>) -> Seq<Peer>
    decreases candidates.len(),
{
    if candidates.len() == 0 {
        members
    } else {
        recorded(recorded_all(members, candidates.drop_last()), candidates.last())
    }
}

/// Observing one candidate keeps a membership valid, keeps every member in
/// its place, and makes the candidate a member.
pub proof fn lemma_recorded(members: Seq<Peer>, candidate: Peer)
    requires
        is_membership(members),
    ensures
        is_membership(recorded(members, candidate)),
        members.is_prefix_of(recorded(members, candidate)),
        recorded(members, candidate).contains(candidate),
        forall|peer: Peer| #[trigger] recorded(members, candidate).contains(peer)
            ==> members.contains(peer) || peer == candidate,
{
    let after = recorded(members, candidate);
    if !members.contains(candidate) {
        assert(after[members.len() as int] == candidate);
        assert forall|i: int, j: int| 0 <= i < j < after.len() implies after[i] != after[j] by {
            if j == members.len() {
                assert(members.contains(members[i]));
            }
        }
        assert forall|peer: Peer| #[trigger] after.contains(peer) implies members.contains(peer)
            || peer == candidate by {
            let i = choose|i: int| 0 <= i < after.len() && after[i] == peer;
            if i < members.len() {
                assert(members[i] == peer);
            }
        }
    }
}

/// Whatever candidates are observed, and however often the local peer is
/// among them: the membership stays valid, so the local peer is never added a
/// second time; every member stays where it was, so no peer is ever removed
/// and the local peer stays first; every candidate ends up a member; and
/// nobody else does.
pub proof fn lemma_recorded_all(members: Seq<Peer>, candidates: Seq<Peer>)
    requires
        is_membership(members),
    ensures
        is_membership(recorded_all(members, candidates)),
        members.is_prefix_of(recorded_all(members, candidates)),
        recorded_all(members, candidates)[0] == members[0],
        forall|i: int| 0 < i < recorded_all(members, candidates).len()
            ==> #[trigger] recorded_all(members, candidates)[i] != members[0],
        forall|i: int| 0 <= i < candidates.len()
            ==> recorded_all(members, candidates).contains(#[trigger] candidates[i]),
        forall|peer: Peer| #[trigger] recorded_all(members, candidates).contains(peer)
            ==> members.contains(peer) || candidates.contains(peer),
    decreases candidates.len(),
{
    let after = recorded_all(members, candidates);
    if candidates.len() > 0 {
        let front = candidates.drop_last();
        let before = recorded_all(members, front);
        lemma_recorded_all(members, front);
        lemma_recorded(before, candidates.last());
        assert forall|i: int| 0 <= i < candidates.len() implies after.contains(
            #[trigger] candidates[i],
        ) by {
            if i < front.len() {
                assert(front[i] == candidates[i]);
                let at = choose|at: int| 0 <= at < before.len() && before[at] == candidates[i];
                assert(after[at] == candidates[i]);
            }
        }
        assert forall|peer: Peer| #[trigger] after.contains(peer) implies members.contains(peer)
            || candidates.contains(peer) by {
            if peer == candidates.last() {
                assert(candidates[candidates.len() - 1] == peer);
            } else if !members.contains(peer) {
                assert(before.contains(peer));
                let at = choose|at: int| 0 <= at < front.len() && front[at] == peer;
                assert(candidates[at] == peer);
            }
        }
    }
    assert forall|i: int| 0 < i < after.len() implies #[trigger] after[i] != members[0] by {
        assert(after[0] == members[0]);
    }
}

/// Observing the same candidates a second time changes nothing.
pub proof fn lemma_recorded_all_idempotent(members: Seq<Peer>, candidates: Seq<Peer>)
    requires
        is_membership(members),
    ensures
        recorded_all(recorded_all(members, candidates), candidates) == recorded_all(
            members,
            candidates,
        ),
{
    lemma_recorded_all(members, candidates);
    lemma_known_candidates(recorded_all(members, candidates), candidates);
}

/// Observing candidates that are all members already changes nothing.
pub proof fn lemma_known_candidates(members: Seq<Peer>, candidates: Seq<Peer>)
    requires
        forall|i: int| 0 <= i < candidates.len() ==> members.contains(#[trigger] candidates[i]),
    ensures
        recorded_all(members, candidates) == members,
    decreases candidates.len(),
{
    if candidates.len() > 0 {
        let front = candidates.drop_last();
        assert forall|i: int| 0 <= i < front.len() implies members.contains(
            #[trigger] front[i],
        ) by {
            assert(front[i] == candidates[i]);
        }
        lemma_known_candidates(members, front);
        assert(members.contains(candidates[candidates.len() - 1]));
    }
}

/// The known members of the cluster, in the order in which they were learnt.
/// The local peer is always the first member, no peer occurs twice, and no
/// member is ever removed.
#[derive(Debug)]
pub struct PeerRegistry {
    members: Vec<Peer>,
}

impl View for PeerRegistry {
    type V = Seq<Peer>;

    /// The members in order, the local peer first.
    closed spec fn view(&self) -> Seq<Peer> {
        self.members@
    }
}

impl PeerRegistry {
    /// What holds of every registry at all times.
    #[verifier::type_invariant]
    pub closed spec fn well_formed(&self) -> bool {
        is_membership(self.members@)
    }

    /// The membership of a registry is valid.
    pub proof fn lemma_valid(&self)
        requires
            self.well_formed(),
        ensures
            is_membership(self@),
    {
    }

    /// A registry that knows only the local peer.
    pub fn new(local: Peer) -> (registry: PeerRegistry)
        ensures
            registry@ == seq![local],
    {
        let mut members: Vec<Peer> = Vec::new();
        members.push(local);
        PeerRegistry { members }
    }

    /// The local peer, which is the first member.
    pub fn local(&self) -> (local: Peer)
        ensures
            is_membership(self@),
            local == self@[0],
    {
        proof {
            use_type_invariant(self);
        }
        self.members[0]
    }

    /// The number of members, the local peer included.
    pub fn len(&self) -> (len: usize)
        ensures
            is_membership(self@),
            len == self@.len(),
    {
        proof {
            use_type_invariant(self);
        }
        self.members.len()
    }

    /// The member at `index`, if there is one. Index 0 is the local peer.
    pub fn get(&self, index: usize) -> (member: Option<Peer>)
        ensures
            is_membership(self@),
            member == if index < self@.len() {
                Some(self@[index as int])
            } else {
                None::<Peer>
            },
    {
        proof {
            use_type_invariant(self);
        }
        if index < self.members.len() {
            Some(self.members[index])
        } else {
            None
        }
    }

    /// Whether `peer` is a member.
    pub fn contains(&self, peer: Peer) -> (known: bool)
        ensures
            is_membership(self@),
            known == self@.contains(peer),
    {
        proof {
            use_type_invariant(self);
        }
        let mut i: usize = 0;
        while i < self.members.len()
            invariant
                is_membership(self@),
                i <= self.members@.len(),
                forall|j: int| 0 <= j < i ==> self.members@[j] != peer,
            decreases self.members@.len() - i,
        {
            if self.members[i] == peer {
                return true;
            }
            i += 1;
        }
        false
    }

    /// A copy of the current membership, in order, the local peer first.
    pub fn known_peers(&self) -> (peers: Vec<Peer>)
        ensures
            is_membership(self@),
            peers@ == self@,
    {
        proof {
            use_type_invariant(self);
        }
        let mut peers: Vec<Peer> = Vec::new();
        let mut i: usize = 0;
        while i < self.members.len()
            invariant
                i <= self.members@.len(),
                peers@ == self.members@.take(i as int),
            decreases self.members@.len() - i,
        {
            peers.push(self.members[i]);
            assert(self.members@.take(i + 1) == self.members@.take(i as int).push(
                self.members@[i as int],
            ));
            i += 1;
        }
        assert(self.members@.take(i as int) == self.members@);
        peers
    }

    /// Records `candidate` unless it is the local peer or already known.
    /// Returns whether it was added.
    pub fn record_if_new(&mut self, candidate: Peer) -> (added: bool)
        ensures
            is_membership(final(self)@),
            final(self)@ == recorded(old(self)@, candidate),
            added == !old(self)@.contains(candidate),
    {
        proof {
            use_type_invariant(&*self);
            lemma_recorded(self@, candidate);
        }
        if self.contains(candidate) {
            return false;
        }
        // The members leave the registry while the list grows; the local
        // peer alone stands in for them meanwhile.
        let mut members: Vec<Peer> = Vec::new();
        members.push(self.members[0]);
        std::mem::swap(&mut members, &mut self.members);
        members.push(candidate);
        self.members = members;
        true
    }
}

} // verus!
