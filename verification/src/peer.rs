//! Peer identities and sets of distinct peers.

use vstd::prelude::*;
use vstd::std_specs::cmp::PartialEqSpecImpl;

verus! {

/// The identity of one participant, as the bytes the transport knows it by.
///
/// Two identities are the same peer exactly when their bytes agree.
#[derive(Debug)]
pub struct PeerId {
    bytes: Vec<u8>,
}

impl View for PeerId {
    type V = Seq<u8>;

    closed spec fn view(&self) -> Seq<u8> {
        self.bytes@
    }
}

impl PeerId {
    /// The identity made of `bytes`.
    pub fn from_bytes(bytes: Vec<u8>) -> (p: PeerId)
        ensures
            p@ == bytes@,
    {
        PeerId { bytes }
    }

    /// The bytes of this identity.
    pub fn as_bytes(&self) -> (b: &Vec<u8>)
        ensures
            b@ == self@,
    {
        &self.bytes
    }
}

impl Clone for PeerId {
    fn clone(&self) -> (p: PeerId)
        ensures
            p@ == self@,
    {
        let mut bytes: Vec<u8> = Vec::new();
        let mut i: usize = 0;
        while i < self.bytes.len()
            invariant
                i <= self.bytes.len(),
                bytes@ == self.bytes@.subrange(0, i as int),
            decreases self.bytes.len() - i,
        {
            bytes.push(self.bytes[i]);
            i += 1;
        }
        assert(bytes@ == self.bytes@);
        PeerId { bytes }
    }
}

impl PartialEq for PeerId {
    fn eq(&self, other: &PeerId) -> (r: bool) {
        if self.bytes.len() != other.bytes.len() {
            return false;
        }
        let mut i: usize = 0;
        while i < self.bytes.len()
            invariant
                i <= self.bytes.len(),
                self.bytes.len() == other.bytes.len(),
                forall|j: int| 0 <= j < i ==> self.bytes@[j] == other.bytes@[j],
            decreases self.bytes.len() - i,
        {
            if self.bytes[i] != other.bytes[i] {
                return false;
            }
            i += 1;
        }
        assert(self.bytes@ =~= other.bytes@);
        true
    }
}

impl PartialEqSpecImpl for PeerId {
    open spec fn obeys_eq_spec() -> bool {
        true
    }

    open spec fn eq_spec(&self, other: &PeerId) -> bool {
        self@ == other@
    }
}

impl Eq for PeerId {

}

/// The identities of a sequence of peers.
pub open spec fn ids(peers: Seq<PeerId>) -> Seq<Seq<u8>> {
    peers.map_values(|p: PeerId| p@)
}

/// A finite set of distinct peers.
pub struct PeerSet {
    items: Vec<PeerId>,
}

impl View for PeerSet {
    type V = Set<Seq<u8>>;

    closed spec fn view(&self) -> Set<Seq<u8>> {
        ids(self.items@).to_set()
    }
}

impl PeerSet {
    /// No peer is held twice.
    pub closed spec fn wf(&self) -> bool {
        ids(self.items@).no_duplicates()
    }

    /// The set without any peer.
    pub fn new() -> (s: PeerSet)
        ensures
            s.wf(),
            s@ == Set::<Seq<u8>>::empty(),
    {
        let s = PeerSet { items: Vec::new() };
        assert(ids(s.items@) =~= Seq::<Seq<u8>>::empty());
        assert(s@ =~= Set::<Seq<u8>>::empty());
        s
    }

    /// Every set of this type is finite.
    pub proof fn lemma_finite(&self)
        ensures
            self@.finite(),
    {
        vstd::seq_lib::seq_to_set_is_finite(ids(self.items@));
    }

    /// How many distinct peers the set holds.
    pub fn len(&self) -> (n: usize)
        requires
            self.wf(),
        ensures
            n == self@.len(),
            self@.finite(),
    {
        proof {
            ids(self.items@).unique_seq_to_set();
            vstd::seq_lib::seq_to_set_is_finite(ids(self.items@));
        }
        self.items.len()
    }

    /// Where `peer` stands in the set, if it is a member.
    fn position(&self, peer: &PeerId) -> (r: Option<usize>)
        ensures
            match r {
                Some(i) => i < self.items@.len() && self.items@[i as int]@ == peer@,
                None => !self@.contains(peer@),
            },
    {
        let mut i: usize = 0;
        while i < self.items.len()
            invariant
                i <= self.items.len(),
                forall|j: int| 0 <= j < i ==> self.items@[j]@ != peer@,
            decreases self.items.len() - i,
        {
            if self.items[i] == *peer {
                return Some(i);
            }
            i += 1;
        }
        assert forall|j: int| 0 <= j < ids(self.items@).len() implies ids(self.items@)[j]
            != peer@ by {
            assert(ids(self.items@)[j] == self.items@[j]@);
        }
        None
    }

    /// Whether `peer` is a member.
    pub fn contains(&self, peer: &PeerId) -> (b: bool)
        ensures
            b == self@.contains(peer@),
    {
        match self.position(peer) {
            Some(i) => {
                assert(ids(self.items@)[i as int] == peer@);
                true
            },
            None => false,
        }
    }

    /// Adds `peer`; a peer that is already a member is not added twice.
    pub fn insert(&mut self, peer: PeerId) -> (added: bool)
        requires
            old(self).wf(),
        ensures
            final(self).wf(),
            final(self)@ == old(self)@.insert(peer@),
            added == !old(self)@.contains(peer@),
    {
        if self.contains(&peer) {
            assert(self@.insert(peer@) =~= self@);
            false
        } else {
            let ghost before = ids(self.items@);
            self.items.push(peer);
            proof {
                let after = ids(self.items@);
                assert(after =~= before.push(peer@));
                assert(!before.contains(peer@));
                assert(after.no_duplicates());
                assert(after.to_set() =~= before.to_set().insert(peer@)) by {
                    assert forall|x: Seq<u8>| after.to_set().contains(x)
                        <==> before.to_set().insert(peer@).contains(x) by {
                        if after.contains(x) {
                            let j = choose|j: int| 0 <= j < after.len() && after[j] == x;
                            if j < before.len() {
                                assert(before[j] == x);
                            }
                        }
                        if before.contains(x) {
                            let j = choose|j: int| 0 <= j < before.len() && before[j] == x;
                            assert(after[j] == x);
                        }
                        if x == peer@ {
                            assert(after[before.len() as int] == x);
                        }
                    }
                }
            }
            true
        }
    }

    /// Takes `peer` out of the set, if it is a member.
    pub fn remove(&mut self, peer: &PeerId) -> (removed: bool)
        requires
            old(self).wf(),
        ensures
            final(self).wf(),
            final(self)@ == old(self)@.remove(peer@),
            removed == old(self)@.contains(peer@),
    {
        match self.position(peer) {
            None => {
                assert(self@.remove(peer@) =~= self@);
                false
            },
            Some(i) => {
                let ghost before = ids(self.items@);
                assert(before[i as int] == peer@);
                self.items.remove(i);
                proof {
                    let after = ids(self.items@);
                    assert(after =~= before.remove(i as int));
                    assert forall|a: int, b: int|
                        0 <= a < after.len() && 0 <= b < after.len() && a != b implies after[a]
                        != after[b] by {
                        let a0 = if a < i { a } else { a + 1 };
                        let b0 = if b < i { b } else { b + 1 };
                        assert(after[a] == before[a0]);
                        assert(after[b] == before[b0]);
                    }
                    assert forall|x: Seq<u8>| after.to_set().contains(x)
                        <==> before.to_set().remove(peer@).contains(x) by {
                        if after.contains(x) {
                            let j = choose|j: int| 0 <= j < after.len() && after[j] == x;
                            let j0 = if j < i { j } else { j + 1 };
                            assert(before[j0] == x);
                        }
                        if before.contains(x) && x != peer@ {
                            let j = choose|j: int| 0 <= j < before.len() && before[j] == x;
                            let j1 = if j < i { j } else { j - 1 };
                            assert(after[j1] == x);
                        }
                    }
                    assert(after.to_set() =~= before.to_set().remove(peer@));
                }
                true
            },
        }
    }
}

} // verus!
