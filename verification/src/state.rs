//! The peer table: one lifecycle record per known peer, and the rules by
//! which a record moves between lifecycle states.
//!
//! Time is a count of seconds on a clock chosen by the caller; every
//! operation that stamps or compares a time takes the current reading as
//! `now`. The table never reads a clock itself.

use crate::id::Id;
use crate::id::PeerId;
use crate::msg::blocks;
use crate::msg::decode;
use crate::msg::encode;
use crate::msg::lemma_decode_encode;
use crate::msg::pad32;
use crate::msg::put_peer;
use crate::msg::put_text;
use crate::msg::DemoMsgView;
use vstd::prelude::*;
use vstd::utf8::encode_utf8;

verus! {

/// Seconds that a peer stays `Done` before it may be tried again.
pub const DONE_COOLDOWN_SECS: u64 = 60;

/// Seconds that a peer stays `Blocked` before it may be tried again.
pub const BLOCK_COOLDOWN_SECS: u64 = 300;

/// Upper bound on negotiations and live connections that the periodic scan
/// promotes together.
pub const MAX_CON: usize = 10;

/// Why a peer was blocked.
#[derive(Clone, Copy, Debug, PartialEq, Eq, Structural)]
pub enum BlockReason {
    /// The caller gave no reason.
    Unspecified,
    /// Negotiation with the peer ended in an error.
    NegotiationFailed,
    /// The peer broke the protocol.
    Misbehaved,
}

/// Where a peer stands in its lifecycle.
#[derive(Clone, Copy, Debug, PartialEq, Eq, Structural)]
pub enum PeerState {
    /// Known, never contacted.
    Discovered,
    /// We started a negotiation with the peer.
    ConnectingOut,
    /// The peer started a negotiation with us.
    ConnectingIn,
    /// Negotiation succeeded and the connection is live.
    Connected,
    /// A connection was closed without error; the peer rests for
    /// [`DONE_COOLDOWN_SECS`].
    Done,
    /// A connection failed or the peer misbehaved; the peer rests for
    /// [`BLOCK_COOLDOWN_SECS`]. `until` is the second at which the rest
    /// ends, capped at the largest second the clock can show.
    Blocked { reason: BlockReason, until: u64 },
}

/// The lifecycle record of one peer.
#[derive(Clone, Debug)]
pub struct PeerInfo {
    pub id: PeerId,
    pub state: PeerState,
    pub last_touch: u64,
    pub friendly_name: Option<String>,
    pub shoutout: Option<String>,
}

/// What a [`PeerInfo`] holds, with text as sequences of characters.
pub struct PeerInfoView {
    pub id: PeerId,
    pub state: PeerState,
    pub last_touch: u64,
    pub friendly_name: Option<Seq<char>>,
    pub shoutout: Option<Seq<char>>,
}

/// The characters of an optional text.
pub open spec fn text_of(t: Option<String>) -> Option<Seq<char>> {
    match t {
        Some(s) => Some(s@),
        None => None,
    }
}

impl View for PeerInfo {
    type V = PeerInfoView;

    open spec fn view(&self) -> PeerInfoView {
        PeerInfoView {
            id: self.id,
            state: self.state,
            last_touch: self.last_touch,
            friendly_name: text_of(self.friendly_name),
            shoutout: text_of(self.shoutout),
        }
    }
}

/// The second at which a rest of `cooldown` seconds that began at `since`
/// ends, capped at the largest second the clock can show.
pub open spec fn deadline(since: u64, cooldown: u64) -> u64 {
    if since + cooldown <= u64::MAX {
        (since + cooldown) as u64
    } else {
        u64::MAX
    }
}

/// Whether a negotiation or a live connection holds an admission slot for
/// a peer in this state.
pub open spec fn in_flight(state: PeerState) -> bool {
    state is ConnectingOut || state is ConnectingIn || state is Connected
}

/// The state in which a connection ends: blocked for `reason` until the
/// block cooldown after `now` has passed, or done.
pub open spec fn closed_state(now: u64, should_block: bool, reason: Option<BlockReason>) -> PeerState {
    if should_block {
        PeerState::Blocked {
            reason: match reason {
                Some(r) => r,
                None => BlockReason::Unspecified,
            },
            until: deadline(now, BLOCK_COOLDOWN_SECS),
        }
    } else {
        PeerState::Done
    }
}

impl PeerInfoView {
    /// A record without metadata, touched at `now`.
    pub open spec fn fresh(id: PeerId, state: PeerState, now: u64) -> PeerInfoView {
        PeerInfoView { id, state, last_touch: now, friendly_name: None, shoutout: None }
    }

    /// A blocked record carries the deadline that follows from its last touch.
    pub open spec fn wf(self) -> bool {
        self.state matches PeerState::Blocked { until, .. } ==> until == deadline(
            self.last_touch,
            BLOCK_COOLDOWN_SECS,
        )
    }

    /// Whether the record rests (`Done` or `Blocked`) and at least its
    /// cooldown has passed between its last touch and `now`.
    pub open spec fn cooled(self, now: u64) -> bool {
        match self.state {
            PeerState::Done => now - self.last_touch >= DONE_COOLDOWN_SECS,
            PeerState::Blocked { .. } => now - self.last_touch >= BLOCK_COOLDOWN_SECS,
            _ => false,
        }
    }

    /// The record moved to `state` at `now`, its metadata kept.
    pub open spec fn moved(self, state: PeerState, now: u64) -> PeerInfoView {
        PeerInfoView { state, last_touch: now, ..self }
    }

    /// The record as the periodic scan leaves it before admission: back to
    /// `Discovered` if its cooldown has passed, unchanged otherwise.
    pub open spec fn thawed(self, now: u64) -> PeerInfoView {
        if self.cooled(now) {
            self.moved(PeerState::Discovered, now)
        } else {
            self
        }
    }

    /// The record after a handshake at `now`: metadata set, lifecycle kept.
    /// A blocked record stays blocked for the same reason, and its rest
    /// starts again at `now`.
    pub open spec fn greeted(self, now: u64, friendly_name: Seq<char>, shoutout: Seq<char>) -> PeerInfoView {
        PeerInfoView {
            id: self.id,
            state: match self.state {
                PeerState::Blocked { reason, .. } => PeerState::Blocked {
                    reason,
                    until: deadline(now, BLOCK_COOLDOWN_SECS),
                },
                s => s,
            },
            last_touch: now,
            friendly_name: Some(friendly_name),
            shoutout: Some(shoutout),
        }
    }
}

/// The views of a sequence of records.
pub open spec fn views(records: Seq<PeerInfo>) -> Seq<PeerInfoView> {
    Seq::new(records.len(), |i: int| records[i]@)
}

/// Number of records among the first `n` of `peers` that hold an admission slot.
pub open spec fn in_flight_upto(peers: Seq<PeerInfoView>, n: int) -> nat
    decreases n,
{
    if n <= 0 {
        0
    } else {
        in_flight_upto(peers, n - 1) + if in_flight(peers[n - 1].state) {
            1nat
        } else {
            0nat
        }
    }
}

/// Number of records among the first `n` of `peers` that are `Discovered`.
pub open spec fn discovered_upto(peers: Seq<PeerInfoView>, n: int) -> nat
    decreases n,
{
    if n <= 0 {
        0
    } else {
        discovered_upto(peers, n - 1) + if peers[n - 1].state is Discovered {
            1nat
        } else {
            0nat
        }
    }
}

/// Number of records among the first `n` of `peers` that belong to `id`.
pub open spec fn records_upto(peers: Seq<PeerInfoView>, id: PeerId, n: int) -> nat
    decreases n,
{
    if n <= 0 {
        0
    } else {
        records_upto(peers, id, n - 1) + if peers[n - 1].id == id {
            1nat
        } else {
            0nat
        }
    }
}

/// What a [`State`] holds: the local identity and self-description, and
/// the records in the order in which their peers became known.
pub struct StateView {
    pub loc: PeerId,
    pub friendly_name: Seq<char>,
    pub shoutout: Seq<char>,
    pub peers: Seq<PeerInfoView>,
}

impl StateView {
    /// No identity has two records, and every record is well formed.
    pub open spec fn wf(self) -> bool {
        &&& forall|i: int, j: int|
            0 <= i < j < self.peers.len() ==> self.peers[i].id != self.peers[j].id
        &&& forall|i: int| 0 <= i < self.peers.len() ==> (#[trigger] self.peers[i]).wf()
    }

    /// Whether `id` has a record.
    pub open spec fn has(self, id: PeerId) -> bool {
        exists|i: int| 0 <= i < self.peers.len() && (#[trigger] self.peers[i]).id == id
    }

    /// The place of the record of `id`, where it has one.
    pub open spec fn index_of(self, id: PeerId) -> int {
        choose|i: int| 0 <= i < self.peers.len() && (#[trigger] self.peers[i]).id == id
    }

    /// The record of `id`, where it has one.
    pub open spec fn get(self, id: PeerId) -> PeerInfoView {
        self.peers[self.index_of(id)]
    }

    /// Number of records that belong to `id`.
    pub open spec fn records_of(self, id: PeerId) -> nat {
        records_upto(self.peers, id, self.peers.len() as int)
    }

    /// Whether `id` holds an admission slot: it has a record, and a
    /// negotiation or a live connection stands behind it.
    pub open spec fn holds_slot(self, id: PeerId) -> bool {
        self.has(id) && in_flight(self.get(id).state)
    }

    /// Number of records that hold an admission slot.
    pub open spec fn in_flight_count(self) -> nat {
        in_flight_upto(self.peers, self.peers.len() as int)
    }

    /// The table with the record at place `i` replaced.
    pub open spec fn with_record(self, i: int, record: PeerInfoView) -> StateView {
        StateView { peers: self.peers.update(i, record), ..self }
    }

    /// The table with one more record at the end.
    pub open spec fn with_new(self, record: PeerInfoView) -> StateView {
        StateView { peers: self.peers.push(record), ..self }
    }

    /// The table with another local identity.
    pub open spec fn set_loc(self, loc: PeerId) -> StateView {
        StateView { loc, ..self }
    }

    /// Discovery of `id` at `now`: a new `Discovered` record, unless `id`
    /// is the local identity or has a record already.
    pub open spec fn discover(self, now: u64, id: PeerId) -> StateView {
        if id == self.loc || self.has(id) {
            self
        } else {
            self.with_new(PeerInfoView::fresh(id, PeerState::Discovered, now))
        }
    }

    /// A handshake with `id` at `now`: its record, made `Discovered` if it
    /// had none, gets the metadata and the time.
    pub open spec fn contact(self, now: u64, id: PeerId, friendly_name: Seq<char>, shoutout: Seq<char>) -> StateView {
        if self.has(id) {
            let i = self.index_of(id);
            self.with_record(i, self.peers[i].greeted(now, friendly_name, shoutout))
        } else {
            self.with_new(
                PeerInfoView::fresh(id, PeerState::Discovered, now).greeted(now, friendly_name, shoutout),
            )
        }
    }

    /// The end of a connection with `id` at `now`: its record, made if it
    /// had none, rests as `Done` or as `Blocked`.
    pub open spec fn con_done(self, now: u64, id: PeerId, should_block: bool, reason: Option<BlockReason>) -> StateView {
        let state = closed_state(now, should_block, reason);
        if self.has(id) {
            let i = self.index_of(id);
            self.with_record(i, self.peers[i].moved(state, now))
        } else {
            self.with_new(PeerInfoView::fresh(id, state, now))
        }
    }

    /// Whether an offer from `id` is accepted: it has no record, or its
    /// record is `Discovered`.
    pub open spec fn wants_incoming(self, id: PeerId) -> bool {
        !self.has(id) || self.get(id).state is Discovered
    }

    /// An offer from `id` at `now`: where it is accepted the record of
    /// `id`, made if it had none, becomes `ConnectingIn`.
    pub open spec fn check_want_incoming(self, now: u64, id: PeerId) -> StateView {
        if !self.has(id) {
            self.with_new(PeerInfoView::fresh(id, PeerState::ConnectingIn, now))
        } else if self.get(id).state is Discovered {
            let i = self.index_of(id);
            self.with_record(i, self.peers[i].moved(PeerState::ConnectingIn, now))
        } else {
            self
        }
    }

    /// Whether the negotiation with `id` can be marked as succeeded: `id`
    /// has a record that is `ConnectingOut` or `ConnectingIn`.
    pub open spec fn is_negotiating(self, id: PeerId) -> bool {
        self.has(id) && (self.get(id).state is ConnectingOut || self.get(id).state is ConnectingIn)
    }

    /// Success of the negotiation with `id` at `now`.
    pub open spec fn connected(self, now: u64, id: PeerId) -> StateView {
        if self.is_negotiating(id) {
            let i = self.index_of(id);
            self.with_record(i, self.peers[i].moved(PeerState::Connected, now))
        } else {
            self
        }
    }

    /// The identities among the first `n` records that are not blocked,
    /// in table order.
    pub open spec fn announced_upto(self, n: int) -> Seq<PeerId>
        decreases n,
    {
        if n <= 0 {
            Seq::empty()
        } else if self.peers[n - 1].state is Blocked {
            self.announced_upto(n - 1)
        } else {
            self.announced_upto(n - 1).push(self.peers[n - 1].id)
        }
    }

    /// The identities that the self-description names: those of all
    /// records that are not blocked, in table order.
    pub open spec fn announced(self) -> Seq<PeerId> {
        self.announced_upto(self.peers.len() as int)
    }

    /// The self-description of this node as it goes over the wire.
    pub open spec fn gen_msg(self) -> Seq<u8> {
        encode(encode_utf8(self.friendly_name), encode_utf8(self.shoutout), self.announced())
    }

    /// The table after the first half of the periodic scan: every record
    /// whose cooldown has passed at `now` is `Discovered` again.
    pub open spec fn thaw(self, now: u64) -> StateView {
        StateView { peers: Seq::new(self.peers.len(), |i: int| self.peers[i].thawed(now)), ..self }
    }

    /// Admission slots that are free when at most `max_concurrent` may be held.
    pub open spec fn budget(self, max_concurrent: usize) -> nat {
        if self.in_flight_count() >= max_concurrent {
            0
        } else {
            (max_concurrent - self.in_flight_count()) as nat
        }
    }

    /// Whether the second half of the periodic scan promotes the record at
    /// place `i`: it is `Discovered`, and fewer than `budget` `Discovered`
    /// records stand before it.
    pub open spec fn promotes(self, i: int, budget: nat) -> bool {
        self.peers[i].state is Discovered && discovered_upto(self.peers, i) < budget
    }

    /// The table after the second half of the periodic scan at `now`: the
    /// first `budget` of the `Discovered` records are `ConnectingOut`.
    pub open spec fn promote(self, now: u64, budget: nat) -> StateView {
        StateView {
            peers: Seq::new(
                self.peers.len(),
                |i: int|
                    if self.promotes(i, budget) {
                        self.peers[i].moved(PeerState::ConnectingOut, now)
                    } else {
                        self.peers[i]
                    },
            ),
            ..self
        }
    }

    /// The identities among the first `n` records that the second half of
    /// the periodic scan promotes, in table order.
    pub open spec fn promoted_upto(self, n: int, budget: nat) -> Seq<PeerId>
        decreases n,
    {
        if n <= 0 {
            Seq::empty()
        } else if self.promotes(n - 1, budget) {
            self.promoted_upto(n - 1, budget).push(self.peers[n - 1].id)
        } else {
            self.promoted_upto(n - 1, budget)
        }
    }

    /// The table after the periodic scan at `now` with room for
    /// `max_concurrent` slots: cooled records thawed, then `Discovered`
    /// records promoted in table order while a slot is free.
    pub open spec fn check_want_outgoing(self, now: u64, max_concurrent: usize) -> StateView {
        self.thaw(now).promote(now, self.thaw(now).budget(max_concurrent))
    }

    /// The identities that the periodic scan promotes, in table order.
    pub open spec fn wanted_outgoing(self, now: u64, max_concurrent: usize) -> Seq<PeerId> {
        let t = self.thaw(now);
        t.promoted_upto(t.peers.len() as int, t.budget(max_concurrent))
    }
}

impl PeerInfo {
    /// Whether the record rests and its cooldown has passed at `now`.
    fn cooled(&self, now: u64) -> (yes: bool)
        requires
            self@.wf(),
        ensures
            yes == self@.cooled(now),
    {
        match self.state {
            PeerState::Done => now >= self.last_touch && now - self.last_touch
                >= DONE_COOLDOWN_SECS,
            PeerState::Blocked { until, .. } => now >= until && until - self.last_touch
                >= BLOCK_COOLDOWN_SECS,
            _ => false,
        }
    }
}

/// The smaller of two counts.
pub open spec fn least(a: nat, b: nat) -> nat {
    if a <= b {
        a
    } else {
        b
    }
}

/// Thawing keeps every identity, keeps records well formed, and frees or
/// takes no admission slot.
pub proof fn lemma_thaw(s: StateView, now: u64, n: int)
    requires
        s.wf(),
        0 <= n <= s.peers.len(),
    ensures
        s.thaw(now).wf(),
        s.thaw(now).peers.len() == s.peers.len(),
        forall|i: int| 0 <= i < s.peers.len() ==> (#[trigger] s.thaw(now).peers[i]).id == s.peers[i].id,
        in_flight_upto(s.thaw(now).peers, n) == in_flight_upto(s.peers, n),
    decreases n,
{
    let t = s.thaw(now);
    assert forall|i: int| 0 <= i < t.peers.len() implies (#[trigger] t.peers[i]).wf() by {
        assert(s.peers[i].wf());
    }
    if n > 0 {
        lemma_thaw(s, now, n - 1);
    }
}

/// Among the first `n` records the scan promotes as many as are
/// `Discovered`, but no more than `budget`, and each promotion takes one
/// admission slot.
pub proof fn lemma_promote(s: StateView, now: u64, budget: nat, n: int)
    requires
        0 <= n <= s.peers.len(),
    ensures
        s.promoted_upto(n, budget).len() == least(discovered_upto(s.peers, n), budget),
        in_flight_upto(s.promote(now, budget).peers, n) == in_flight_upto(s.peers, n)
            + s.promoted_upto(n, budget).len(),
    decreases n,
{
    if n > 0 {
        lemma_promote(s, now, budget, n - 1);
    }
}

/// The peer table.
pub struct State {
    loc_id: Id,
    loc_pk: Id,
    friendly_name: String,
    shoutout: String,
    map: Vec<PeerInfo>,
}

impl View for State {
    type V = StateView;

    closed spec fn view(&self) -> StateView {
        StateView {
            loc: PeerId { rem_id: self.loc_id, rem_pk: self.loc_pk },
            friendly_name: self.friendly_name@,
            shoutout: self.shoutout@,
            peers: views(self.map@),
        }
    }
}

impl State {
    #[verifier::type_invariant]
    spec fn inv(&self) -> bool {
        self@.wf()
    }

    /// An empty table for a node that describes itself with
    /// `friendly_name` and `shoutout`. Its local identity is all zero
    /// until [`State::set_loc`] is called.
    pub fn new(friendly_name: String, shoutout: String) -> (state: State)
        ensures
            state@.wf(),
            state@.loc.rem_id@ == Id::zeros(),
            state@.loc.rem_pk@ == Id::zeros(),
            state@.friendly_name == friendly_name@,
            state@.shoutout == shoutout@,
            state@.peers.len() == 0,
    {
        State { loc_id: Id::zero(), loc_pk: Id::zero(), friendly_name, shoutout, map: Vec::new() }
    }

    /// The place of the record of `id`, if it has one.
    fn find(&self, id: &PeerId) -> (place: Option<usize>)
        ensures
            self@.wf(),
            place matches Some(i) ==> i < self@.peers.len() && self@.peers[i as int].id == *id
                && self@.has(*id) && self@.index_of(*id) == i,
            place is None ==> !self@.has(*id),
    {
        proof {
            use_type_invariant(self);
        }
        let mut i: usize = 0;
        while i < self.map.len()
            invariant
                i <= self.map.len(),
                self@.wf(),
                self@.peers.len() == self.map.len(),
                forall|j: int| 0 <= j < i ==> (#[trigger] self@.peers[j]).id != *id,
            decreases self.map.len() - i,
        {
            if self.map[i].id == *id {
                assert(self@.peers[i as int].id == *id);
                return Some(i);
            }
            i = i + 1;
        }
        None
    }

    /// Appends a record for an identity that has none.
    fn add(&mut self, info: PeerInfo)
        requires
            !old(self)@.has(info.id),
            info@.wf(),
        ensures
            final(self)@ == old(self)@.with_new(info@),
            final(self)@.wf(),
    {
        proof {
            use_type_invariant(&*self);
        }
        // The records leave the table while they change: whenever the table
        // can be seen it is well formed.
        let mut map: Vec<PeerInfo> = Vec::new();
        std::mem::swap(&mut self.map, &mut map);
        map.push(info);
        assert forall|i: int, j: int| 0 <= i < j < map@.len() implies map@[i]@.id != map@[j]@.id by {
            assert(old(self)@.peers[i].id == map@[i]@.id);
            if j < map@.len() - 1 {
                assert(old(self)@.peers[j].id == map@[j]@.id);
            }
        }
        assert forall|i: int| 0 <= i < map@.len() implies (#[trigger] map@[i])@.wf() by {
            if i < map@.len() - 1 {
                assert(old(self)@.peers[i].wf());
            }
        }
        self.map = map;
        assert(self@.peers =~= old(self)@.peers.push(info@));
    }

    /// Moves the record at place `i` to `state`, touched at `now`.
    fn move_to(&mut self, i: usize, state: PeerState, now: u64)
        requires
            i < old(self)@.peers.len(),
            state matches PeerState::Blocked { until, .. } ==> until == deadline(
                now,
                BLOCK_COOLDOWN_SECS,
            ),
        ensures
            final(self)@ == old(self)@.with_record(
                i as int,
                old(self)@.peers[i as int].moved(state, now),
            ),
            final(self)@.wf(),
    {
        proof {
            use_type_invariant(&*self);
        }
        let mut map: Vec<PeerInfo> = Vec::new();
        std::mem::swap(&mut self.map, &mut map);
        map[i].state = state;
        map[i].last_touch = now;
        proof {
            let before = old(self)@.peers;
            assert forall|a: int, b: int| 0 <= a < b < map@.len() implies map@[a]@.id
                != map@[b]@.id by {
                assert(before[a].id == map@[a]@.id);
                assert(before[b].id == map@[b]@.id);
            }
            assert forall|a: int| 0 <= a < map@.len() implies (#[trigger] map@[a])@.wf() by {
                if a != i {
                    assert(before[a].wf());
                }
            }
        }
        self.map = map;
        assert(self@.peers =~= old(self)@.peers.update(
            i as int,
            old(self)@.peers[i as int].moved(state, now),
        ));
    }

    /// Sets the metadata of the record at place `i`, touched at `now`.
    fn greet(&mut self, i: usize, now: u64, friendly_name: String, shoutout: String)
        requires
            i < old(self)@.peers.len(),
        ensures
            final(self)@ == old(self)@.with_record(
                i as int,
                old(self)@.peers[i as int].greeted(now, friendly_name@, shoutout@),
            ),
            final(self)@.wf(),
    {
        proof {
            use_type_invariant(&*self);
        }
        let mut map: Vec<PeerInfo> = Vec::new();
        std::mem::swap(&mut self.map, &mut map);
        if let PeerState::Blocked { reason, .. } = map[i].state {
            map[i].state = PeerState::Blocked { reason, until: now.saturating_add(BLOCK_COOLDOWN_SECS) };
        }
        map[i].last_touch = now;
        map[i].friendly_name = Some(friendly_name);
        map[i].shoutout = Some(shoutout);
        proof {
            let before = old(self)@.peers;
            assert forall|a: int, b: int| 0 <= a < b < map@.len() implies map@[a]@.id
                != map@[b]@.id by {
                assert(before[a].id == map@[a]@.id);
                assert(before[b].id == map@[b]@.id);
            }
            assert forall|a: int| 0 <= a < map@.len() implies (#[trigger] map@[a])@.wf() by {
                if a != i {
                    assert(before[a].wf());
                }
            }
        }
        self.map = map;
        assert(self@.peers =~= old(self)@.peers.update(
            i as int,
            old(self)@.peers[i as int].greeted(now, friendly_name@, shoutout@),
        ));
    }

    /// Sets the local identity, which [`State::discover`] leaves out.
    pub fn set_loc(&mut self, loc_id: Id, loc_pk: Id)
        ensures
            final(self)@ == old(self)@.set_loc(PeerId { rem_id: loc_id, rem_pk: loc_pk }),
            final(self)@.wf(),
    {
        proof {
            use_type_invariant(&*self);
        }
        self.loc_id = loc_id;
        self.loc_pk = loc_pk;
    }

    /// Records that the peer `rem_id`, `rem_pk` exists. The first
    /// discovery makes a `Discovered` record touched at `now`; a later one
    /// changes nothing, and neither does discovery of the local identity.
    pub fn discover(&mut self, now: u64, rem_id: Id, rem_pk: Id)
        ensures
            final(self)@ == old(self)@.discover(now, PeerId { rem_id, rem_pk }),
            final(self)@.wf(),
    {
        proof {
            use_type_invariant(&*self);
        }
        if rem_id == self.loc_id && rem_pk == self.loc_pk {
            return ;
        }
        let id = PeerId { rem_id, rem_pk };
        if self.find(&id).is_none() {
            let info = PeerInfo {
                id,
                state: PeerState::Discovered,
                last_touch: now,
                friendly_name: None,
                shoutout: None,
            };
            self.add(info);
        }
    }

    /// Records a handshake with `id` at `now`: its record gets the
    /// metadata and the time and keeps its lifecycle state. An identity
    /// without a record gets a `Discovered` one.
    pub fn contact(&mut self, now: u64, id: PeerId, friendly_name: String, shoutout: String)
        ensures
            final(self)@ == old(self)@.contact(now, id, friendly_name@, shoutout@),
            final(self)@.wf(),
    {
        match self.find(&id) {
            Some(i) => {
                self.greet(i, now, friendly_name, shoutout);
            },
            None => {
                let info = PeerInfo {
                    id,
                    state: PeerState::Discovered,
                    last_touch: now,
                    friendly_name: Some(friendly_name),
                    shoutout: Some(shoutout),
                };
                self.add(info);
            },
        }
    }

    /// Records that the connection with `id` ended at `now`. The record,
    /// made if `id` had none, becomes `Blocked` for `reason` when
    /// `should_block`, and `Done` otherwise.
    pub fn con_done(&mut self, now: u64, id: PeerId, should_block: bool, reason: Option<BlockReason>)
        ensures
            final(self)@ == old(self)@.con_done(now, id, should_block, reason),
            final(self)@.wf(),
    {
        let state = if should_block {
            PeerState::Blocked {
                reason: match reason {
                    Some(r) => r,
                    None => BlockReason::Unspecified,
                },
                until: now.saturating_add(BLOCK_COOLDOWN_SECS),
            }
        } else {
            PeerState::Done
        };
        match self.find(&id) {
            Some(i) => {
                self.move_to(i, state, now);
            },
            None => {
                let info = PeerInfo { id, state, last_touch: now, friendly_name: None, shoutout: None };
                self.add(info);
            },
        }
    }

    /// Decides at `now` whether an offer from `id` starts a negotiation.
    /// It does when `id` has no record or a `Discovered` one; the record,
    /// made if `id` had none, is then `ConnectingIn`. Otherwise nothing
    /// changes.
    pub fn check_want_incoming(&mut self, now: u64, id: PeerId) -> (accept: bool)
        ensures
            accept == old(self)@.wants_incoming(id),
            final(self)@ == old(self)@.check_want_incoming(now, id),
            final(self)@.wf(),
    {
        match self.find(&id) {
            Some(i) => {
                proof {
                    use_type_invariant(&*self);
                }
                match self.map[i].state {
                    PeerState::Discovered => {
                        self.move_to(i, PeerState::ConnectingIn, now);
                        true
                    },
                    _ => false,
                }
            },
            None => {
                let info = PeerInfo {
                    id,
                    state: PeerState::ConnectingIn,
                    last_touch: now,
                    friendly_name: None,
                    shoutout: None,
                };
                self.add(info);
                true
            },
        }
    }

    /// Records at `now` that the negotiation with `id` succeeded. A record
    /// that is `ConnectingOut` or `ConnectingIn` becomes `Connected`;
    /// otherwise nothing changes.
    pub fn connected(&mut self, now: u64, id: PeerId) -> (changed: bool)
        ensures
            changed == old(self)@.is_negotiating(id),
            final(self)@ == old(self)@.connected(now, id),
            final(self)@.wf(),
    {
        match self.find(&id) {
            Some(i) => {
                proof {
                    use_type_invariant(&*self);
                }
                match self.map[i].state {
                    PeerState::ConnectingOut | PeerState::ConnectingIn => {
                        self.move_to(i, PeerState::Connected, now);
                        true
                    },
                    _ => false,
                }
            },
            None => false,
        }
    }

    /// Whether `id` is the local identity.
    pub fn is_loc(&self, id: &PeerId) -> (yes: bool)
        ensures
            yes == (*id == self@.loc),
            self@.wf(),
    {
        proof {
            use_type_invariant(self);
        }
        id.rem_id == self.loc_id && id.rem_pk == self.loc_pk
    }

    /// Number of records.
    pub fn len(&self) -> (n: usize)
        ensures
            n == self@.peers.len(),
            self@.wf(),
    {
        proof {
            use_type_invariant(self);
        }
        self.map.len()
    }

    /// The record of `id`, if it has one.
    pub fn get(&self, id: &PeerId) -> (info: Option<&PeerInfo>)
        ensures
            self@.wf(),
            info.is_some() == self@.has(*id),
            info matches Some(r) ==> r@ == self@.get(*id),
    {
        match self.find(id) {
            Some(i) => Some(&self.map[i]),
            None => None,
        }
    }

    /// The lifecycle state of `id`, if it has a record.
    pub fn state_of(&self, id: &PeerId) -> (state: Option<PeerState>)
        ensures
            self@.wf(),
            state.is_some() == self@.has(*id),
            state matches Some(s) ==> s == self@.get(*id).state,
    {
        match self.find(id) {
            Some(i) => Some(self.map[i].state),
            None => None,
        }
    }

    /// The periodic scan at `now`. Every record that rests and whose
    /// cooldown has passed becomes `Discovered` again. Then, in table
    /// order, `Discovered` records become `ConnectingOut` as long as fewer
    /// than `max_concurrent` records hold an admission slot. Returns the
    /// identities promoted, in table order.
    pub fn check_want_outgoing(&mut self, now: u64, max_concurrent: usize) -> (out: Vec<PeerId>)
        ensures
            final(self)@ == old(self)@.check_want_outgoing(now, max_concurrent),
            out@ == old(self)@.wanted_outgoing(now, max_concurrent),
            final(self)@.wf(),
            out@.len() <= old(self)@.budget(max_concurrent),
            final(self)@.in_flight_count() == old(self)@.in_flight_count() + out@.len(),
    {
        proof {
            use_type_invariant(&*self);
        }
        let ghost before = self@;
        let ghost th = before.thaw(now);
        let ghost budget = th.budget(max_concurrent);
        let ghost fin = th.promote(now, budget);
        proof {
            lemma_thaw(before, now, before.peers.len() as int);
            lemma_promote(th, now, budget, th.peers.len() as int);
        }
        let mut map: Vec<PeerInfo> = Vec::new();
        std::mem::swap(&mut self.map, &mut map);
        let n = map.len();

        let mut con_count: usize = 0;
        let mut k: usize = 0;
        while k < n
            invariant
                k <= n,
                n == map.len(),
                views(map@) == before.peers,
                con_count == in_flight_upto(before.peers, k as int),
                con_count <= k,
            decreases n - k,
        {
            match map[k].state {
                PeerState::ConnectingOut | PeerState::ConnectingIn | PeerState::Connected => {
                    con_count = con_count + 1;
                },
                _ => {},
            }
            k = k + 1;
        }
        let ghost in_flight0 = con_count as nat;

        let mut out: Vec<PeerId> = Vec::new();
        let mut i: usize = 0;
        while i < n
            invariant
                i <= n,
                n == map.len(),
                n == before.peers.len(),
                before.wf(),
                th == before.thaw(now),
                fin == th.promote(now, budget),
                in_flight0 == th.in_flight_count(),
                budget == th.budget(max_concurrent),
                forall|j: int| 0 <= j < i ==> (#[trigger] map@[j])@ == fin.peers[j],
                forall|j: int| i <= j < n ==> (#[trigger] map@[j])@ == before.peers[j],
                out@ == th.promoted_upto(i as int, budget),
                out@.len() == least(discovered_upto(th.peers, i as int), budget),
                con_count == in_flight0 + out@.len(),
            decreases n - i,
        {
            assert(before.peers[i as int].wf());
            if map[i].cooled(now) {
                map[i].state = PeerState::Discovered;
                map[i].last_touch = now;
            }
            assert(map@[i as int]@ == th.peers[i as int]);
            let promote = match map[i].state {
                PeerState::Discovered => con_count < max_concurrent,
                _ => false,
            };
            assert(promote == th.promotes(i as int, budget));
            if promote {
                map[i].state = PeerState::ConnectingOut;
                map[i].last_touch = now;
                out.push(map[i].id);
                con_count = con_count + 1;
            }
            i = i + 1;
        }
        proof {
            assert(views(map@) =~= fin.peers);
            assert forall|a: int| 0 <= a < fin.peers.len() implies (#[trigger] fin.peers[a]).wf() by {
                assert(th.peers[a].wf());
            }
            assert forall|a: int, b: int| 0 <= a < b < fin.peers.len() implies fin.peers[a].id
                != fin.peers[b].id by {
                assert(th.peers[a].id == before.peers[a].id);
                assert(th.peers[b].id == before.peers[b].id);
            }
            lemma_promote(th, now, budget, n as int);
        }
        self.map = map;
        assert(self@.peers =~= fin.peers);
        out
    }

    /// Writes the self-description of this node: its friendly name and its
    /// shoutout as UTF-8, each cut or zero-padded to 32 bytes, then the
    /// 64-byte block of every peer whose record is not blocked, in table
    /// order.
    pub fn gen_msg(&self) -> (out: Vec<u8>)
        ensures
            out@ == self@.gen_msg(),
            decode(out@) == Some(
                DemoMsgView {
                    friendly_name: pad32(encode_utf8(self@.friendly_name)),
                    shoutout: pad32(encode_utf8(self@.shoutout)),
                    peers: blocks(self@.announced()),
                },
            ),
    {
        let mut out: Vec<u8> = Vec::new();
        put_text(&mut out, self.friendly_name.as_str().as_bytes());
        put_text(&mut out, self.shoutout.as_str().as_bytes());
        let ghost head = out@;
        let mut i: usize = 0;
        while i < self.map.len()
            invariant
                i <= self.map.len(),
                self@.peers.len() == self.map.len(),
                out@ == head + crate::msg::wire_all(self@.announced_upto(i as int)),
            decreases self.map.len() - i,
        {
            match self.map[i].state {
                PeerState::Blocked { .. } => {},
                _ => {
                    put_peer(&mut out, &self.map[i].id);
                    proof {
                        let next = self@.announced_upto(i + 1);
                        assert(next.drop_last() =~= self@.announced_upto(i as int));
                        assert(out@ =~= head + crate::msg::wire_all(next));
                    }
                },
            }
            i = i + 1;
        }
        proof {
            assert(head =~= pad32(encode_utf8(self@.friendly_name)) + pad32(
                encode_utf8(self@.shoutout),
            ));
            lemma_decode_encode(
                encode_utf8(self@.friendly_name),
                encode_utf8(self@.shoutout),
                self@.announced(),
            );
        }
        out
    }
}

} // verus!
