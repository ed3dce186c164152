//! The self-description that a node announces through the relay: a
//! fixed-size record of its friendly name and shoutout, followed by one
//! 64-byte block for each peer it knows and has not blocked.

use crate::id::Id;
use crate::id::PeerId;
use vstd::prelude::*;
use vstd::slice::slice_subrange;

verus! {

/// The first 32 bytes of `bytes`, with zero bytes after them where
/// `bytes` is shorter.
pub open spec fn pad32(bytes: Seq<u8>) -> Seq<u8> {
    Seq::new(
        32,
        |i: int|
            if i < bytes.len() {
                bytes[i]
            } else {
                0u8
            },
    )
}

/// The blocks of `peers`, one after the other.
pub open spec fn wire_all(peers: Seq<PeerId>) -> Seq<u8>
    decreases peers.len(),
{
    if peers.len() == 0 {
        Seq::empty()
    } else {
        wire_all(peers.drop_last()) + peers.last()@
    }
}

/// The record for a node with the given name and shoutout that knows `peers`.
pub open spec fn encode(friendly_name: Seq<u8>, shoutout: Seq<u8>, peers: Seq<PeerId>) -> Seq<u8> {
    pad32(friendly_name) + pad32(shoutout) + wire_all(peers)
}

/// A self-description as read from the wire.
#[derive(Clone, Debug)]
pub struct DemoMsg {
    /// The 32 bytes of the name field.
    pub friendly_name: Vec<u8>,
    /// The 32 bytes of the shoutout field.
    pub shoutout: Vec<u8>,
    /// The peers, in the order of their blocks.
    pub peers: Vec<PeerId>,
}

/// What a [`DemoMsg`] holds, each peer as its 64 bytes.
pub struct DemoMsgView {
    pub friendly_name: Seq<u8>,
    pub shoutout: Seq<u8>,
    pub peers: Seq<Seq<u8>>,
}

/// The blocks of a sequence of identities.
pub open spec fn blocks(peers: Seq<PeerId>) -> Seq<Seq<u8>> {
    Seq::new(peers.len(), |i: int| peers[i]@)
}

impl View for DemoMsg {
    type V = DemoMsgView;

    open spec fn view(&self) -> DemoMsgView {
        DemoMsgView {
            friendly_name: self.friendly_name@,
            shoutout: self.shoutout@,
            peers: blocks(self.peers@),
        }
    }
}

/// Whether `bytes` is a record: the two text fields, then whole blocks.
pub open spec fn is_record(bytes: Seq<u8>) -> bool {
    bytes.len() >= 64 && (bytes.len() - 64) % 64 == 0
}

/// The block of peer `k` in a record.
pub open spec fn block_at(bytes: Seq<u8>, k: int) -> Seq<u8> {
    bytes.subrange(64 + 64 * k, 128 + 64 * k)
}

/// What a record holds.
pub open spec fn decode(bytes: Seq<u8>) -> Option<DemoMsgView> {
    if is_record(bytes) {
        Some(
            DemoMsgView {
                friendly_name: bytes.subrange(0, 32),
                shoutout: bytes.subrange(32, 64),
                peers: Seq::new(((bytes.len() - 64) / 64) as nat, |k: int| block_at(bytes, k)),
            },
        )
    } else {
        None
    }
}

/// The blocks of `n` peers take `64 * n` bytes, and block `k` holds peer `k`.
pub proof fn lemma_wire_all(peers: Seq<PeerId>)
    ensures
        wire_all(peers).len() == 64 * peers.len(),
        forall|k: int|
            0 <= k < peers.len() ==> #[trigger] wire_all(peers).subrange(64 * k, 64 * k + 64)
                == peers[k]@,
    decreases peers.len(),
{
    if peers.len() > 0 {
        let front = peers.drop_last();
        lemma_wire_all(front);
        assert forall|k: int| 0 <= k < peers.len() implies #[trigger] wire_all(peers).subrange(
            64 * k,
            64 * k + 64,
        ) == peers[k]@ by {
            if k < front.len() {
                assert(wire_all(peers).subrange(64 * k, 64 * k + 64) =~= wire_all(front).subrange(
                    64 * k,
                    64 * k + 64,
                ));
                assert(front[k] == peers[k]);
            } else {
                assert(wire_all(peers).subrange(64 * k, 64 * k + 64) =~= peers.last()@);
            }
        }
    }
}

/// Reading a record that was written gives back the name and the shoutout,
/// each cut or padded to 32 bytes, and the same peers in the same order.
pub proof fn lemma_decode_encode(friendly_name: Seq<u8>, shoutout: Seq<u8>, peers: Seq<PeerId>)
    ensures
        decode(encode(friendly_name, shoutout, peers)) == Some(
            DemoMsgView {
                friendly_name: pad32(friendly_name),
                shoutout: pad32(shoutout),
                peers: blocks(peers),
            },
        ),
{
    let bytes = encode(friendly_name, shoutout, peers);
    lemma_wire_all(peers);
    assert(bytes.len() == 64 + 64 * peers.len());
    assert(is_record(bytes));
    assert((bytes.len() - 64) / 64 == peers.len());
    let got = decode(bytes)->Some_0;
    assert(got.friendly_name =~= pad32(friendly_name));
    assert(got.shoutout =~= pad32(shoutout));
    assert forall|k: int| 0 <= k < peers.len() implies got.peers[k] == blocks(peers)[k] by {
        assert(block_at(bytes, k) =~= wire_all(peers).subrange(64 * k, 64 * k + 64));
    }
    assert(got.peers =~= blocks(peers));
}

/// A written record names the same peers as another only if the peers are
/// the same: an identity is known by its block.
pub proof fn lemma_blocks_injective(a: Seq<PeerId>, b: Seq<PeerId>)
    requires
        blocks(a) == blocks(b),
    ensures
        a == b,
{
    assert(a.len() == blocks(a).len());
    assert(b.len() == blocks(b).len());
    assert forall|i: int| 0 <= i < a.len() implies a[i] == b[i] by {
        assert(blocks(a)[i] == a[i]@);
        assert(blocks(b)[i] == b[i]@);
        PeerId::lemma_view_injective(a[i], b[i]);
    }
    assert(a =~= b);
}

/// Appends to `out` the first 32 bytes of `text`, zero-padded.
pub(crate) fn put_text(out: &mut Vec<u8>, text: &[u8])
    ensures
        final(out)@ == old(out)@ + pad32(text@),
{
    let mut i: usize = 0;
    while i < 32
        invariant
            i <= 32,
            out@ == old(out)@ + pad32(text@).subrange(0, i as int),
        decreases 32 - i,
    {
        let b: u8 = if i < text.len() {
            text[i]
        } else {
            0
        };
        out.push(b);
        assert(out@ =~= old(out)@ + pad32(text@).subrange(0, i + 1));
        i = i + 1;
    }
    assert(pad32(text@).subrange(0, 32) =~= pad32(text@));
}

/// Appends to `out` the 32 bytes of `id`.
fn put_id(out: &mut Vec<u8>, id: &Id)
    ensures
        final(out)@ == old(out)@ + id@,
{
    let mut i: usize = 0;
    while i < 32
        invariant
            i <= 32,
            out@ == old(out)@ + id@.subrange(0, i as int),
        decreases 32 - i,
    {
        out.push(id.bytes[i]);
        assert(out@ =~= old(out)@ + id@.subrange(0, i + 1));
        i = i + 1;
    }
    assert(id@.subrange(0, 32) =~= id@);
}

/// Appends to `out` the block of `peer`.
pub(crate) fn put_peer(out: &mut Vec<u8>, peer: &PeerId)
    ensures
        final(out)@ == old(out)@ + peer@,
{
    put_id(out, &peer.rem_id);
    put_id(out, &peer.rem_pk);
    assert(out@ =~= old(out)@ + peer@);
}

impl DemoMsg {
    /// Reads a record. A record is 64 bytes of text fields followed by any
    /// number of whole 64-byte blocks; anything else is refused.
    pub fn parse(bytes: &[u8]) -> (msg: Option<DemoMsg>)
        ensures
            msg.is_some() == is_record(bytes@),
            msg matches Some(m) ==> Some(m@) == decode(bytes@),
    {
        if bytes.len() < 64 || (bytes.len() - 64) % 64 != 0 {
            return None;
        }
        let count: usize = (bytes.len() - 64) / 64;
        let friendly_name = slice_to_vec_range(bytes, 0, 32);
        let shoutout = slice_to_vec_range(bytes, 32, 64);
        let mut peers: Vec<PeerId> = Vec::new();
        let mut k: usize = 0;
        while k < count
            invariant
                k <= count,
                bytes@.len() == 64 + 64 * count,
                bytes@.len() <= usize::MAX,
                peers@.len() == k,
                forall|j: int| 0 <= j < k ==> (#[trigger] peers@[j])@ == block_at(bytes@, j),
            decreases count - k,
        {
            let at: usize = 64 + 64 * k;
            let rem_id = read_id(bytes, at);
            let rem_pk = read_id(bytes, at + 32);
            let peer = PeerId { rem_id, rem_pk };
            assert(peer@ =~= block_at(bytes@, k as int));
            peers.push(peer);
            k = k + 1;
        }
        let msg = DemoMsg { friendly_name, shoutout, peers };
        assert(msg@.peers =~= decode(bytes@)->Some_0.peers);
        Some(msg)
    }
}

/// The 32-byte identifier that starts at `at`.
fn read_id(bytes: &[u8], at: usize) -> (id: Id)
    requires
        at + 32 <= bytes@.len() <= usize::MAX,
    ensures
        id@ == bytes@.subrange(at as int, at + 32),
{
    match Id::from_slice(slice_subrange(bytes, at, at + 32)) {
        Some(id) => id,
        None => Id::zero(),
    }
}

/// A copy of the bytes from `from` up to `to`.
fn slice_to_vec_range(bytes: &[u8], from: usize, to: usize) -> (out: Vec<u8>)
    requires
        from <= to <= bytes@.len(),
    ensures
        out@ == bytes@.subrange(from as int, to as int),
{
    vstd::slice::slice_to_vec(slice_subrange(bytes, from, to))
}

} // verus!
