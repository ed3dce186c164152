//! What holds of the peer table whatever is done with it: how its
//! operations act on single records, and what follows for admission.

use crate::id::PeerId;
use crate::state::closed_state;
use crate::state::lemma_promote;
use crate::state::lemma_thaw;
use crate::state::records_upto;
use crate::state::BlockReason;
use crate::state::PeerInfoView;
use crate::state::PeerState;
use crate::state::StateView;
use crate::state::BLOCK_COOLDOWN_SECS;
use crate::state::DONE_COOLDOWN_SECS;
use vstd::prelude::*;

verus! {

/// In a well-formed table the record at a place is the record of its identity.
pub proof fn lemma_place(s: StateView, i: int)
    requires
        s.wf(),
        0 <= i < s.peers.len(),
    ensures
        s.has(s.peers[i].id),
        s.index_of(s.peers[i].id) == i,
        s.get(s.peers[i].id) == s.peers[i],
{
    let id = s.peers[i].id;
    assert(s.has(id));
    let j = s.index_of(id);
    if j < i {
        assert(s.peers[j].id != s.peers[i].id);
    } else if i < j {
        assert(s.peers[i].id != s.peers[j].id);
    }
}

/// An identity with a record has exactly one, and one without has none.
pub proof fn lemma_records_of(s: StateView, id: PeerId)
    requires
        s.wf(),
    ensures
        s.has(id) <==> s.records_of(id) == 1,
        !s.has(id) <==> s.records_of(id) == 0,
{
    lemma_records_upto(s, id, s.peers.len() as int);
    if s.has(id) {
        let i = s.index_of(id);
        assert(s.peers[i].id == id);
    }
}

/// Counts the records of `id` among the first `n`: one if one of them
/// belongs to `id`, none otherwise.
pub proof fn lemma_records_upto(s: StateView, id: PeerId, n: int)
    requires
        s.wf(),
        0 <= n <= s.peers.len(),
    ensures
        records_upto(s.peers, id, n) == if exists|i: int|
            0 <= i < n && (#[trigger] s.peers[i]).id == id {
            1nat
        } else {
            0nat
        },
    decreases n,
{
    if n > 0 {
        lemma_records_upto(s, id, n - 1);
        if s.peers[n - 1].id == id {
            if exists|i: int| 0 <= i < n - 1 && (#[trigger] s.peers[i]).id == id {
                let i = choose|i: int| 0 <= i < n - 1 && (#[trigger] s.peers[i]).id == id;
                assert(s.peers[i].id != s.peers[n - 1].id);
            }
            assert(0 <= n - 1 < n && s.peers[n - 1].id == id);
        } else {
            if exists|i: int| 0 <= i < n && (#[trigger] s.peers[i]).id == id {
                let i = choose|i: int| 0 <= i < n && (#[trigger] s.peers[i]).id == id;
                assert(0 <= i < n - 1 && s.peers[i].id == id);
            }
        }
    }
}

/// A new record for an identity that had none: the identity has that
/// record, and every other identity is as it was.
pub proof fn lemma_with_new(s: StateView, record: PeerInfoView)
    requires
        s.wf(),
        !s.has(record.id),
        record.wf(),
    ensures
        s.with_new(record).wf(),
        s.with_new(record).has(record.id),
        s.with_new(record).get(record.id) == record,
        forall|other: PeerId|
            other != record.id ==> (#[trigger] s.with_new(record).has(other)) == s.has(other),
        forall|other: PeerId|
            other != record.id && s.has(other) ==> #[trigger] s.with_new(record).get(other)
                == s.get(other),
{
    let r = s.with_new(record);
    let n = s.peers.len() as int;
    assert forall|i: int, j: int| 0 <= i < j < r.peers.len() implies r.peers[i].id
        != r.peers[j].id by {
        assert(r.peers[i] == s.peers[i]);
        if j < n {
            assert(r.peers[j] == s.peers[j]);
        }
    }
    assert forall|i: int| 0 <= i < r.peers.len() implies (#[trigger] r.peers[i]).wf() by {
        if i < n {
            assert(r.peers[i] == s.peers[i]);
            assert(s.peers[i].wf());
        }
    }
    assert(r.peers[n] == record);
    lemma_place(r, n);
    assert forall|other: PeerId| other != record.id implies (#[trigger] r.has(other)) == s.has(
        other,
    ) by {
        if s.has(other) {
            let i = s.index_of(other);
            assert(r.peers[i] == s.peers[i]);
        }
        if r.has(other) {
            let i = r.index_of(other);
            assert(r.peers[i].id == other);
            assert(i < n);
            assert(s.peers[i].id == other);
        }
    }
    assert forall|other: PeerId| other != record.id && s.has(other) implies #[trigger] r.get(other)
        == s.get(other) by {
        let i = s.index_of(other);
        assert(r.peers[i] == s.peers[i]);
        lemma_place(r, i);
    }
}

/// Another record for the identity at place `i`: the identity has that
/// record, and every other identity is as it was.
pub proof fn lemma_with_record(s: StateView, i: int, record: PeerInfoView)
    requires
        s.wf(),
        0 <= i < s.peers.len(),
        record.id == s.peers[i].id,
        record.wf(),
    ensures
        s.with_record(i, record).wf(),
        s.with_record(i, record).peers.len() == s.peers.len(),
        s.with_record(i, record).get(record.id) == record,
        forall|other: PeerId| (#[trigger] s.with_record(i, record).has(other)) == s.has(other),
        forall|other: PeerId|
            other != record.id && s.has(other) ==> #[trigger] s.with_record(i, record).get(other)
                == s.get(other),
{
    let r = s.with_record(i, record);
    assert forall|a: int, b: int| 0 <= a < b < r.peers.len() implies r.peers[a].id
        != r.peers[b].id by {
        assert(r.peers[a].id == s.peers[a].id);
        assert(r.peers[b].id == s.peers[b].id);
    }
    assert forall|a: int| 0 <= a < r.peers.len() implies (#[trigger] r.peers[a]).wf() by {
        if a != i {
            assert(r.peers[a] == s.peers[a]);
            assert(s.peers[a].wf());
        }
    }
    lemma_place(r, i);
    assert forall|other: PeerId| (#[trigger] r.has(other)) == s.has(other) by {
        if s.has(other) {
            let a = s.index_of(other);
            assert(r.peers[a].id == s.peers[a].id);
        }
        if r.has(other) {
            let a = r.index_of(other);
            assert(r.peers[a].id == s.peers[a].id);
        }
    }
    assert forall|other: PeerId| other != record.id && s.has(other) implies #[trigger] r.get(other)
        == s.get(other) by {
        let a = s.index_of(other);
        assert(s.peers[a].id == other);
        assert(a != i);
        assert(r.peers[a] == s.peers[a]);
        lemma_place(r, a);
    }
}

/// The table after discovering `id` once at each of the times `nows`, in turn.
pub open spec fn discover_all(s: StateView, nows: Seq<u64>, id: PeerId) -> StateView
    decreases nows.len(),
{
    if nows.len() == 0 {
        s
    } else {
        discover_all(s, nows.drop_last(), id).discover(nows.last(), id)
    }
}

/// Discovery keeps the table well formed and leaves a remote identity with
/// exactly one record; an identity that had a record keeps it unchanged.
pub proof fn lemma_discover(s: StateView, now: u64, id: PeerId)
    requires
        s.wf(),
    ensures
        s.discover(now, id).wf(),
        id != s.loc ==> s.discover(now, id).records_of(id) == 1,
        s.has(id) ==> s.discover(now, id) == s,
        id != s.loc && !s.has(id) ==> s.discover(now, id).get(id) == PeerInfoView::fresh(
            id,
            PeerState::Discovered,
            now,
        ),
{
    let r = s.discover(now, id);
    if id != s.loc && !s.has(id) {
        lemma_with_new(s, PeerInfoView::fresh(id, PeerState::Discovered, now));
    }
    lemma_records_of(r, id);
}

/// However often a remote identity without a record is discovered, it has
/// exactly one record afterwards: the `Discovered` one that the first
/// discovery made. Later discoveries change nothing.
pub proof fn lemma_discover_repeated(s: StateView, nows: Seq<u64>, id: PeerId)
    requires
        s.wf(),
        nows.len() >= 1,
        id != s.loc,
        !s.has(id),
    ensures
        discover_all(s, nows, id) == s.discover(nows[0], id),
        discover_all(s, nows, id).wf(),
        discover_all(s, nows, id).records_of(id) == 1,
        discover_all(s, nows, id).get(id) == PeerInfoView::fresh(
            id,
            PeerState::Discovered,
            nows[0],
        ),
    decreases nows.len(),
{
    lemma_discover(s, nows[0], id);
    if nows.len() == 1 {
        assert(nows.drop_last().len() == 0);
        assert(discover_all(s, nows.drop_last(), id) == s);
    } else {
        let front = nows.drop_last();
        assert(front[0] == nows[0]);
        lemma_discover_repeated(s, front, id);
        let mid = discover_all(s, front, id);
        lemma_records_of(mid, id);
        lemma_discover(mid, nows.last(), id);
    }
}

/// After an offer from `id` was put to the table, accepted or not, no
/// further offer from `id` is accepted, and a further offer changes
/// nothing, until the record of `id` is `Discovered` again. A negotiation
/// that succeeds does not make it so.
pub proof fn lemma_incoming_once(s: StateView, now: u64, later: u64, id: PeerId)
    requires
        s.wf(),
    ensures
        s.check_want_incoming(now, id).wf(),
        s.check_want_incoming(now, id).records_of(id) == 1,
        s.wants_incoming(id) ==> s.check_want_incoming(now, id).get(id).state is ConnectingIn,
        !s.wants_incoming(id) ==> s.check_want_incoming(now, id) == s,
        !s.check_want_incoming(now, id).wants_incoming(id),
        s.check_want_incoming(now, id).check_want_incoming(later, id) == s.check_want_incoming(
            now,
            id,
        ),
        !s.check_want_incoming(now, id).connected(later, id).wants_incoming(id),
{
    let r = s.check_want_incoming(now, id);
    if !s.has(id) {
        lemma_with_new(s, PeerInfoView::fresh(id, PeerState::ConnectingIn, now));
    } else {
        let i = s.index_of(id);
        if s.get(id).state is Discovered {
            lemma_with_record(s, i, s.peers[i].moved(PeerState::ConnectingIn, now));
        }
    }
    lemma_records_of(r, id);
    let c = r.connected(later, id);
    if r.is_negotiating(id) {
        let j = r.index_of(id);
        lemma_with_record(r, j, r.peers[j].moved(PeerState::Connected, later));
    }
}

/// The end of a connection leaves the identity with exactly one record, in
/// the state that the call names and touched at the time of the call,
/// whether or not it had a record; every other identity is as it was.
pub proof fn lemma_con_done(
    s: StateView,
    now: u64,
    id: PeerId,
    should_block: bool,
    reason: Option<BlockReason>,
)
    requires
        s.wf(),
    ensures
        s.con_done(now, id, should_block, reason).wf(),
        s.con_done(now, id, should_block, reason).records_of(id) == 1,
        s.con_done(now, id, should_block, reason).get(id).state == closed_state(
            now,
            should_block,
            reason,
        ),
        s.con_done(now, id, should_block, reason).get(id).last_touch == now,
        s.has(id) ==> s.con_done(now, id, should_block, reason).peers.len() == s.peers.len(),
        !s.has(id) ==> s.con_done(now, id, should_block, reason).peers.len() == s.peers.len() + 1,
        forall|other: PeerId|
            other != id ==> (#[trigger] s.con_done(now, id, should_block, reason).has(other))
                == s.has(other),
        forall|other: PeerId|
            other != id && s.has(other) ==> #[trigger] s.con_done(
                now,
                id,
                should_block,
                reason,
            ).get(other) == s.get(other),
{
    let state = closed_state(now, should_block, reason);
    let r = s.con_done(now, id, should_block, reason);
    if s.has(id) {
        let i = s.index_of(id);
        lemma_with_record(s, i, s.peers[i].moved(state, now));
    } else {
        lemma_with_new(s, PeerInfoView::fresh(id, state, now));
    }
    lemma_records_of(r, id);
}

/// Two ends of a connection for one identity leave one record, which is
/// wholly as the second call names it; the table is no longer than after
/// the first call, and a repeated call with the same arguments changes
/// nothing.
pub proof fn lemma_con_done_twice(
    s: StateView,
    id: PeerId,
    now1: u64,
    block1: bool,
    reason1: Option<BlockReason>,
    now2: u64,
    block2: bool,
    reason2: Option<BlockReason>,
)
    requires
        s.wf(),
    ensures
        ({
            let once = s.con_done(now1, id, block1, reason1);
            let twice = once.con_done(now2, id, block2, reason2);
            &&& twice.wf()
            &&& twice.records_of(id) == 1
            &&& twice.peers.len() == once.peers.len()
            &&& twice.get(id).state == closed_state(now2, block2, reason2)
            &&& twice.get(id).last_touch == now2
            &&& twice.get(id).friendly_name == once.get(id).friendly_name
            &&& twice.get(id).shoutout == once.get(id).shoutout
            &&& once.con_done(now1, id, block1, reason1) == once
        }),
{
    let once = s.con_done(now1, id, block1, reason1);
    lemma_con_done(s, now1, id, block1, reason1);
    lemma_con_done(once, now2, id, block2, reason2);
    lemma_records_of(once, id);
    let i = once.index_of(id);
    assert(once.peers[i].id == id);
    let same = once.con_done(now1, id, block1, reason1);
    assert(same.peers =~= once.peers);
}

/// An identity is among those promoted from the first `n` records exactly
/// if one of these records is its own and is promoted; none is named twice.
pub proof fn lemma_promoted_members(t: StateView, n: int, budget: nat)
    requires
        t.wf(),
        0 <= n <= t.peers.len(),
    ensures
        t.promoted_upto(n, budget).no_duplicates(),
        forall|id: PeerId| #[trigger]
            t.promoted_upto(n, budget).contains(id) <==> exists|j: int|
                0 <= j < n && t.promotes(j, budget) && (#[trigger] t.peers[j]).id == id,
    decreases n,
{
    if n > 0 {
        lemma_promoted_members(t, n - 1, budget);
        let front = t.promoted_upto(n - 1, budget);
        let all = t.promoted_upto(n, budget);
        let last = t.peers[n - 1].id;
        if t.promotes(n - 1, budget) {
            assert(all == front.push(last));
            if front.contains(last) {
                let j = choose|j: int|
                    0 <= j < n - 1 && t.promotes(j, budget) && (#[trigger] t.peers[j]).id == last;
                assert(t.peers[j].id != t.peers[n - 1].id);
            }
            assert forall|id: PeerId| #[trigger]
                all.contains(id) <==> exists|j: int|
                    0 <= j < n && t.promotes(j, budget) && (#[trigger] t.peers[j]).id == id by {
                if all.contains(id) {
                    let k = choose|k: int| 0 <= k < all.len() && all[k] == id;
                    if k < front.len() {
                        assert(front[k] == id);
                        assert(front.contains(id));
                        let j = choose|j: int|
                            0 <= j < n - 1 && t.promotes(j, budget) && (#[trigger] t.peers[j]).id
                                == id;
                        assert(0 <= j < n && t.promotes(j, budget) && t.peers[j].id == id);
                    } else {
                        assert(t.peers[n - 1].id == id);
                    }
                }
                if exists|j: int|
                    0 <= j < n && t.promotes(j, budget) && (#[trigger] t.peers[j]).id == id {
                    let j = choose|j: int|
                        0 <= j < n && t.promotes(j, budget) && (#[trigger] t.peers[j]).id == id;
                    if j < n - 1 {
                        assert(front.contains(id));
                        let k = choose|k: int| 0 <= k < front.len() && front[k] == id;
                        assert(all[k] == id);
                    } else {
                        assert(all[all.len() - 1] == id);
                    }
                }
            }
            assert forall|a: int, b: int| 0 <= a < b < all.len() implies all[a] != all[b] by {
                if b == all.len() - 1 {
                    assert(front[a] == all[a]);
                    assert(front.contains(all[a]));
                }
            }
        } else {
            assert(all == front);
            assert forall|id: PeerId| #[trigger]
                all.contains(id) <==> exists|j: int|
                    0 <= j < n && t.promotes(j, budget) && (#[trigger] t.peers[j]).id == id by {
                if all.contains(id) {
                    let j = choose|j: int|
                        0 <= j < n - 1 && t.promotes(j, budget) && (#[trigger] t.peers[j]).id == id;
                    assert(0 <= j < n && t.promotes(j, budget) && t.peers[j].id == id);
                }
                if exists|j: int|
                    0 <= j < n && t.promotes(j, budget) && (#[trigger] t.peers[j]).id == id {
                    let j = choose|j: int|
                        0 <= j < n && t.promotes(j, budget) && (#[trigger] t.peers[j]).id == id;
                    assert(0 <= j < n - 1 && t.promotes(j, budget) && t.peers[j].id == id);
                }
            }
        }
    }
}

/// What the periodic scan does to each identity. It names no identity
/// twice. An identity that it names had a record that was `Discovered` or
/// had rested for its whole cooldown, held no admission slot, and is
/// `ConnectingOut` afterwards. An identity holds a slot afterwards exactly
/// if it held one before or the scan names it. No record comes or goes.
pub proof fn lemma_outgoing_members(s: StateView, now: u64, max_concurrent: usize)
    requires
        s.wf(),
    ensures
        s.check_want_outgoing(now, max_concurrent).wf(),
        s.check_want_outgoing(now, max_concurrent).peers.len() == s.peers.len(),
        s.wanted_outgoing(now, max_concurrent).no_duplicates(),
        forall|id: PeerId| #[trigger]
            s.check_want_outgoing(now, max_concurrent).has(id) == s.has(id),
        forall|id: PeerId| #[trigger]
            s.wanted_outgoing(now, max_concurrent).contains(id) ==> {
                &&& s.has(id)
                &&& !s.holds_slot(id)
                &&& s.get(id).state is Discovered || s.get(id).cooled(now)
                &&& s.check_want_outgoing(now, max_concurrent).get(id) == s.get(id).moved(
                    PeerState::ConnectingOut,
                    now,
                )
            },
        forall|id: PeerId| #[trigger]
            s.check_want_outgoing(now, max_concurrent).holds_slot(id) == (s.holds_slot(id)
                || s.wanted_outgoing(now, max_concurrent).contains(id)),
{
    let t = s.thaw(now);
    let n = s.peers.len() as int;
    let budget = t.budget(max_concurrent);
    let r = s.check_want_outgoing(now, max_concurrent);
    let out = s.wanted_outgoing(now, max_concurrent);
    lemma_thaw(s, now, n);
    lemma_promoted_members(t, n, budget);
    assert forall|a: int, b: int| 0 <= a < b < r.peers.len() implies r.peers[a].id
        != r.peers[b].id by {
        assert(t.peers[a].id == s.peers[a].id);
        assert(t.peers[b].id == s.peers[b].id);
    }
    assert forall|a: int| 0 <= a < r.peers.len() implies (#[trigger] r.peers[a]).wf() by {
        assert(t.peers[a].wf());
    }
    assert forall|id: PeerId| #[trigger] r.has(id) == s.has(id) by {
        if s.has(id) {
            let i = s.index_of(id);
            assert(r.peers[i].id == t.peers[i].id);
        }
        if r.has(id) {
            let i = r.index_of(id);
            assert(r.peers[i].id == t.peers[i].id);
            assert(s.peers[i].id == id);
        }
    }
    assert forall|id: PeerId| #[trigger] out.contains(id) implies {
        &&& s.has(id)
        &&& !s.holds_slot(id)
        &&& s.get(id).state is Discovered || s.get(id).cooled(now)
        &&& r.get(id) == s.get(id).moved(PeerState::ConnectingOut, now)
    } by {
        let j = choose|j: int|
            0 <= j < n && t.promotes(j, budget) && (#[trigger] t.peers[j]).id == id;
        assert(s.peers[j].id == id);
        lemma_place(s, j);
        lemma_place(r, j);
    }
    assert forall|id: PeerId| #[trigger]
        r.holds_slot(id) == (s.holds_slot(id) || out.contains(id)) by {
        if s.has(id) {
            let i = s.index_of(id);
            assert(s.peers[i].id == id);
            assert(t.peers[i].id == id);
            lemma_place(s, i);
            lemma_place(r, i);
            if t.promotes(i, budget) {
                assert(out.contains(id));
            } else {
                if out.contains(id) {
                    let j = choose|j: int|
                        0 <= j < n && t.promotes(j, budget) && (#[trigger] t.peers[j]).id == id;
                    assert(s.peers[j].id == id);
                    lemma_place(s, j);
                }
            }
        }
    }
}

/// The periodic scan promotes no more identities than slots are free, and
/// each promotion takes one slot: where at most `max_concurrent` slots
/// were held before, at most `max_concurrent` are held afterwards.
pub proof fn lemma_outgoing_bound(s: StateView, now: u64, max_concurrent: usize)
    requires
        s.wf(),
    ensures
        s.wanted_outgoing(now, max_concurrent).len() <= s.budget(max_concurrent),
        s.check_want_outgoing(now, max_concurrent).in_flight_count() == s.in_flight_count()
            + s.wanted_outgoing(now, max_concurrent).len(),
        s.in_flight_count() <= max_concurrent ==> s.check_want_outgoing(
            now,
            max_concurrent,
        ).in_flight_count() <= max_concurrent,
        s.in_flight_count() >= max_concurrent ==> s.wanted_outgoing(now, max_concurrent).len() == 0,
{
    let t = s.thaw(now);
    let n = s.peers.len() as int;
    lemma_thaw(s, now, n);
    lemma_promote(t, now, t.budget(max_concurrent), n);
}

/// The table after one periodic scan at each of the times `nows`, in turn.
pub open spec fn scan_all(s: StateView, nows: Seq<u64>, max_concurrent: usize) -> StateView
    decreases nows.len(),
{
    if nows.len() == 0 {
        s
    } else {
        scan_all(s, nows.drop_last(), max_concurrent).check_want_outgoing(
            nows.last(),
            max_concurrent,
        )
    }
}

/// However often the table is scanned, with nothing else done to it, no
/// more than `max_concurrent` slots are held if no more were held before.
pub proof fn lemma_scan_repeated(s: StateView, nows: Seq<u64>, max_concurrent: usize)
    requires
        s.wf(),
        s.in_flight_count() <= max_concurrent,
    ensures
        scan_all(s, nows, max_concurrent).wf(),
        scan_all(s, nows, max_concurrent).in_flight_count() <= max_concurrent,
    decreases nows.len(),
{
    if nows.len() > 0 {
        lemma_scan_repeated(s, nows.drop_last(), max_concurrent);
        let mid = scan_all(s, nows.drop_last(), max_concurrent);
        lemma_outgoing_members(mid, nows.last(), max_concurrent);
        lemma_outgoing_bound(mid, nows.last(), max_concurrent);
    }
}

/// A record that rests is left alone by the periodic scan, and its
/// identity is not named, while less than its cooldown has passed since
/// its last touch: 300 seconds for `Blocked`, 60 for `Done`.
pub proof fn lemma_cooldown(s: StateView, now: u64, max_concurrent: usize, id: PeerId)
    requires
        s.wf(),
        s.has(id),
    ensures
        s.get(id).state is Blocked && now - s.get(id).last_touch < BLOCK_COOLDOWN_SECS ==> {
            &&& !s.wanted_outgoing(now, max_concurrent).contains(id)
            &&& s.check_want_outgoing(now, max_concurrent).get(id) == s.get(id)
        },
        s.get(id).state is Done && now - s.get(id).last_touch < DONE_COOLDOWN_SECS ==> {
            &&& !s.wanted_outgoing(now, max_concurrent).contains(id)
            &&& s.check_want_outgoing(now, max_concurrent).get(id) == s.get(id)
        },
        s.wanted_outgoing(now, max_concurrent).contains(id) && s.get(id).state is Blocked ==> now
            - s.get(id).last_touch >= BLOCK_COOLDOWN_SECS,
        s.wanted_outgoing(now, max_concurrent).contains(id) && s.get(id).state is Done ==> now
            - s.get(id).last_touch >= DONE_COOLDOWN_SECS,
{
    lemma_outgoing_members(s, now, max_concurrent);
    let i = s.index_of(id);
    assert(s.peers[i].id == id);
    let r = s.check_want_outgoing(now, max_concurrent);
    let t = s.thaw(now);
    lemma_thaw(s, now, s.peers.len() as int);
    lemma_place(r, i);
}

/// Discovery and handshakes give and take no admission slot.
pub proof fn lemma_slots_kept(
    s: StateView,
    now: u64,
    id: PeerId,
    friendly_name: Seq<char>,
    shoutout: Seq<char>,
)
    requires
        s.wf(),
    ensures
        s.discover(now, id).wf(),
        s.contact(now, id, friendly_name, shoutout).wf(),
        s.connected(now, id).wf(),
        forall|p: PeerId| #[trigger] s.discover(now, id).holds_slot(p) == s.holds_slot(p),
        forall|p: PeerId| #[trigger]
            s.contact(now, id, friendly_name, shoutout).holds_slot(p) == s.holds_slot(p),
        forall|p: PeerId| #[trigger] s.connected(now, id).holds_slot(p) == s.holds_slot(p),
        s.contact(now, id, friendly_name, shoutout).has(id),
        s.contact(now, id, friendly_name, shoutout).get(id).friendly_name == Some(friendly_name),
        s.contact(now, id, friendly_name, shoutout).get(id).shoutout == Some(shoutout),
        s.contact(now, id, friendly_name, shoutout).get(id).last_touch == now,
        s.is_negotiating(id) ==> s.connected(now, id).get(id).state is Connected,
{
    lemma_discover(s, now, id);
    if id != s.loc && !s.has(id) {
        lemma_with_new(s, PeerInfoView::fresh(id, PeerState::Discovered, now));
    }
    if s.has(id) {
        let i = s.index_of(id);
        assert(s.peers[i].id == id);
        lemma_with_record(s, i, s.peers[i].greeted(now, friendly_name, shoutout));
        if s.is_negotiating(id) {
            lemma_with_record(s, i, s.peers[i].moved(PeerState::Connected, now));
        }
    } else {
        lemma_with_new(
            s,
            PeerInfoView::fresh(id, PeerState::Discovered, now).greeted(now, friendly_name, shoutout),
        );
    }
}

/// An accepted offer gives its sender an admission slot and touches no
/// other; a refused one changes nothing.
pub proof fn lemma_slots_incoming(s: StateView, now: u64, id: PeerId)
    requires
        s.wf(),
    ensures
        s.check_want_incoming(now, id).wf(),
        s.wants_incoming(id) ==> !s.holds_slot(id),
        forall|p: PeerId| #[trigger]
            s.check_want_incoming(now, id).holds_slot(p) == (s.holds_slot(p) || (p == id
                && s.wants_incoming(id))),
{
    lemma_incoming_once(s, now, now, id);
    if !s.has(id) {
        lemma_with_new(s, PeerInfoView::fresh(id, PeerState::ConnectingIn, now));
    } else {
        let i = s.index_of(id);
        assert(s.peers[i].id == id);
        if s.get(id).state is Discovered {
            lemma_with_record(s, i, s.peers[i].moved(PeerState::ConnectingIn, now));
        }
    }
}

/// The end of a connection frees the slot of its peer and touches no other.
pub proof fn lemma_slots_done(
    s: StateView,
    now: u64,
    id: PeerId,
    should_block: bool,
    reason: Option<BlockReason>,
)
    requires
        s.wf(),
    ensures
        s.con_done(now, id, should_block, reason).wf(),
        forall|p: PeerId| #[trigger]
            s.con_done(now, id, should_block, reason).holds_slot(p) == (s.holds_slot(p) && p != id),
{
    lemma_con_done(s, now, id, should_block, reason);
}

} // verus!
