//! Peer identifiers: fixed-length opaque byte strings, compared by value.

use vstd::prelude::*;
use vstd::std_specs::cmp::PartialEqSpecImpl;

verus! {

/// An opaque 32-byte identifier, immutable once created and compared by value.
#[derive(Clone, Copy, Debug, Eq, Hash)]
pub struct Id {
    pub bytes: [u8; 32],
}

impl View for Id {
    type V = Seq<u8>;

    open spec fn view(&self) -> Seq<u8> {
        self.bytes@
    }
}

impl PartialEq for Id {
    fn eq(&self, other: &Self) -> (same: bool) {
        let mut i: usize = 0;
        while i < 32
            invariant
                i <= 32,
                forall|j: int| 0 <= j < i ==> self.bytes[j] == other.bytes[j],
            decreases 32 - i,
        {
            if self.bytes[i] != other.bytes[i] {
                return false;
            }
            i = i + 1;
        }
        assert(self.bytes =~= other.bytes);
        true
    }
}

impl PartialEqSpecImpl for Id {
    open spec fn obeys_eq_spec() -> bool {
        true
    }

    open spec fn eq_spec(&self, other: &Self) -> bool {
        *self == *other
    }
}

impl Id {
    /// Thirty-two zero bytes.
    pub open spec fn zeros() -> Seq<u8> {
        Seq::new(32, |i: int| 0u8)
    }

    /// The identifier whose bytes are all zero.
    pub fn zero() -> (id: Id)
        ensures
            id@ == Id::zeros(),
    {
        let id = Id { bytes: [0u8; 32] };
        assert(id@ =~= Id::zeros());
        id
    }

    /// Reads an identifier from a slice, which must hold exactly 32 bytes.
    pub fn from_slice(data: &[u8]) -> (id: Option<Id>)
        ensures
            data@.len() == 32 <==> id.is_some(),
            id matches Some(v) ==> v@ == data@,
    {
        if data.len() != 32 {
            return None;
        }
        let mut bytes: [u8; 32] = [0u8; 32];
        let mut i: usize = 0;
        while i < 32
            invariant
                i <= 32,
                data@.len() == 32,
                forall|j: int| 0 <= j < i ==> bytes[j] == data@[j],
            decreases 32 - i,
        {
            bytes[i] = data[i];
            i = i + 1;
        }
        let id = Id { bytes };
        assert(id@ =~= data@);
        Some(id)
    }

    /// Two identifiers with the same bytes are the same identifier.
    pub proof fn lemma_view_injective(a: Id, b: Id)
        requires
            a@ == b@,
        ensures
            a == b,
    {
        assert(a.bytes =~= b.bytes);
    }
}

/// The identity of a peer: its relay identifier and its public key.
#[derive(Clone, Copy, Debug, Eq, Hash)]
pub struct PeerId {
    pub rem_id: Id,
    pub rem_pk: Id,
}

impl PartialEq for PeerId {
    fn eq(&self, other: &Self) -> (same: bool) {
        self.rem_id == other.rem_id && self.rem_pk == other.rem_pk
    }
}

impl PartialEqSpecImpl for PeerId {
    open spec fn obeys_eq_spec() -> bool {
        true
    }

    open spec fn eq_spec(&self, other: &Self) -> bool {
        *self == *other
    }
}

/// The 64 bytes that stand for an identity on the wire: identifier, then
/// public key.
impl View for PeerId {
    type V = Seq<u8>;

    open spec fn view(&self) -> Seq<u8> {
        self.rem_id@ + self.rem_pk@
    }
}

impl PeerId {
    /// Two identities with the same bytes are the same identity.
    pub proof fn lemma_view_injective(a: PeerId, b: PeerId)
        requires
            a@ == b@,
        ensures
            a == b,
    {
        assert(a.rem_id@ =~= a@.subrange(0, 32));
        assert(b.rem_id@ =~= b@.subrange(0, 32));
        assert(a.rem_pk@ =~= a@.subrange(32, 64));
        assert(b.rem_pk@ =~= b@.subrange(32, 64));
        Id::lemma_view_injective(a.rem_id, b.rem_id);
        Id::lemma_view_injective(a.rem_pk, b.rem_pk);
    }
}

} // verus!
