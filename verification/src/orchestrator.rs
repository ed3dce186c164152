//! The orchestrator: the one place that decides whether a connection is
//! attempted. It owns the peer table and the set of live connections,
//! takes one command at a time, and answers each with the actions that
//! its surroundings are to carry out.

use crate::id::Id;
use crate::id::PeerId;
use crate::laws::lemma_outgoing_members;
use crate::laws::lemma_slots_done;
use crate::laws::lemma_slots_incoming;
use crate::laws::lemma_slots_kept;
use crate::state::BlockReason;
use crate::state::State;
use crate::state::StateView;
use crate::state::MAX_CON;
use vstd::prelude::*;

verus! {

/// Seconds between two periodic scans.
pub const TICK_SECS: u64 = 5;

/// What a peer tells about itself.
#[derive(Clone, Debug, PartialEq, Eq)]
pub struct Metadata {
    pub friendly_name: String,
    pub shoutout: String,
}

/// A message that the relay delivers.
#[derive(Clone, Debug, PartialEq, Eq)]
pub enum SigMessage {
    /// A peer wants to negotiate a connection.
    Offer { rem_id: Id, rem_pk: Id, offer: String },
    /// A peer answers our offer.
    Answer { rem_id: Id, rem_pk: Id, answer: String },
    /// A peer names a candidate route.
    ICE { rem_id: Id, rem_pk: Id, ice: String },
    /// A peer announces that it exists.
    Demo { rem_id: Id, rem_pk: Id, metadata: Option<Metadata> },
}

/// A command to the orchestrator.
#[derive(Clone, Debug, PartialEq, Eq)]
pub enum CoreCmd {
    /// Stop for good.
    Shutdown,
    /// The periodic timer fired.
    Tick,
    /// The relay assigned this node the identity `loc_id`, `loc_pk`.
    Addr { loc_id: Id, loc_pk: Id },
    /// The relay supplied a new set of ICE servers.
    ICE(String),
    /// A relay session is ready to send.
    Sig,
    /// The relay delivered a message.
    SigMsg(SigMessage),
    /// The negotiation with a peer succeeded.
    ConOpen(PeerId),
    /// The connection with a peer ended; `true` if it ended in an error.
    DropCon(PeerId, bool),
    /// A connection asks to relay its offer to its peer.
    SendOffer(PeerId, String),
    /// A connection asks to relay its answer to its peer.
    SendAnswer(PeerId, String),
    /// A connection asks to relay a candidate route to its peer.
    SendICE(PeerId, String),
}

/// What the orchestrator asks its surroundings to do.
#[derive(Clone, Debug, PartialEq, Eq)]
pub enum CoreAction {
    /// Start a connection actor for `id`, offering if `is_out` and
    /// answering otherwise, and register it as live.
    SpawnCon { id: PeerId, ice_servers: String, is_out: bool },
    /// Hand the offer of `id` to its connection actor.
    ConOffer { id: PeerId, offer: String },
    /// Hand the answer of `id` to its connection actor.
    ConAnswer { id: PeerId, answer: String },
    /// Hand a candidate route of `id` to its connection actor.
    ConICE { id: PeerId, ice: String },
    /// Take the connection actor of `id` out of the live set.
    CloseCon { id: PeerId },
    /// Send our offer to `id` through the relay session.
    SigOffer { id: PeerId, offer: String },
    /// Send our answer to `id` through the relay session.
    SigAnswer { id: PeerId, answer: String },
    /// Send a candidate route to `id` through the relay session.
    SigICE { id: PeerId, ice: String },
    /// Leave the command loop and drop every connection actor.
    Stop,
}

/// What a [`CoreAction`] holds, with text as sequences of characters.
pub enum CoreActionView {
    SpawnCon { id: PeerId, ice_servers: Seq<char>, is_out: bool },
    ConOffer { id: PeerId, offer: Seq<char> },
    ConAnswer { id: PeerId, answer: Seq<char> },
    ConICE { id: PeerId, ice: Seq<char> },
    CloseCon { id: PeerId },
    SigOffer { id: PeerId, offer: Seq<char> },
    SigAnswer { id: PeerId, answer: Seq<char> },
    SigICE { id: PeerId, ice: Seq<char> },
    Stop,
}

impl View for CoreAction {
    type V = CoreActionView;

    open spec fn view(&self) -> CoreActionView {
        match *self {
            CoreAction::SpawnCon { id, ice_servers, is_out } => CoreActionView::SpawnCon {
                id,
                ice_servers: ice_servers@,
                is_out,
            },
            CoreAction::ConOffer { id, offer } => CoreActionView::ConOffer { id, offer: offer@ },
            CoreAction::ConAnswer { id, answer } => CoreActionView::ConAnswer { id, answer: answer@ },
            CoreAction::ConICE { id, ice } => CoreActionView::ConICE { id, ice: ice@ },
            CoreAction::CloseCon { id } => CoreActionView::CloseCon { id },
            CoreAction::SigOffer { id, offer } => CoreActionView::SigOffer { id, offer: offer@ },
            CoreAction::SigAnswer { id, answer } => CoreActionView::SigAnswer { id, answer: answer@ },
            CoreAction::SigICE { id, ice } => CoreActionView::SigICE { id, ice: ice@ },
            CoreAction::Stop => CoreActionView::Stop,
        }
    }
}

/// The views of a sequence of actions.
pub open spec fn actions_of(actions: Seq<CoreAction>) -> Seq<CoreActionView> {
    Seq::new(actions.len(), |i: int| actions[i]@)
}

/// The identity that a relay message comes from.
pub open spec fn sender(msg: SigMessage) -> PeerId {
    match msg {
        SigMessage::Offer { rem_id, rem_pk, .. } => PeerId { rem_id, rem_pk },
        SigMessage::Answer { rem_id, rem_pk, .. } => PeerId { rem_id, rem_pk },
        SigMessage::ICE { rem_id, rem_pk, .. } => PeerId { rem_id, rem_pk },
        SigMessage::Demo { rem_id, rem_pk, .. } => PeerId { rem_id, rem_pk },
    }
}

/// The reason recorded for a connection that ended in an error.
pub open spec fn drop_reason(should_block: bool) -> Option<BlockReason> {
    if should_block {
        Some(BlockReason::NegotiationFailed)
    } else {
        None
    }
}

/// The live identities once `id` has left them.
pub open spec fn without(live: Seq<PeerId>, id: PeerId) -> Seq<PeerId> {
    if live.contains(id) {
        live.remove(live.index_of(id))
    } else {
        live
    }
}

/// Whether a table and a sequence of live identities belong together: the
/// table is well formed, no identity is live twice, and an identity is
/// live exactly if it holds an admission slot.
pub open spec fn paired(state: StateView, live: Seq<PeerId>) -> bool {
    &&& state.wf()
    &&& live.no_duplicates()
    &&& forall|id: PeerId| #[trigger] live.contains(id) == state.holds_slot(id)
}

/// What a [`Core`] holds.
pub struct CoreModel {
    /// The peer table.
    pub state: StateView,
    /// The identities with a live connection actor, in the order in which
    /// the actors were started.
    pub live: Seq<PeerId>,
    /// The ICE servers handed to every new connection actor, as a JSON list.
    pub ice_servers: Seq<char>,
    /// Whether a relay session is ready to send.
    pub sig_ready: bool,
    /// Whether commands are still taken.
    pub running: bool,
}

impl CoreModel {
    /// The table is well formed, no identity is live twice, and an
    /// identity is live exactly if it holds an admission slot.
    pub open spec fn wf(self) -> bool {
        paired(self.state, self.live)
    }

    /// The action that starts the actor of `id`.
    pub open spec fn spawn(self, id: PeerId, is_out: bool) -> CoreActionView {
        CoreActionView::SpawnCon { id, ice_servers: self.ice_servers, is_out }
    }

    /// After the periodic timer fired at `now`: the table scanned with
    /// room for [`MAX_CON`] slots, every promoted identity live.
    pub open spec fn tick(self, now: u64) -> CoreModel {
        if self.running {
            CoreModel {
                state: self.state.check_want_outgoing(now, MAX_CON),
                live: self.live + self.state.wanted_outgoing(now, MAX_CON),
                ..self
            }
        } else {
            self
        }
    }

    /// The actions of a tick at `now`: an offering actor for every
    /// promoted identity, in table order.
    pub open spec fn tick_actions(self, now: u64) -> Seq<CoreActionView> {
        if self.running {
            let out = self.state.wanted_outgoing(now, MAX_CON);
            Seq::new(out.len(), |k: int| self.spawn(out[k], true))
        } else {
            Seq::empty()
        }
    }

    /// After the relay assigned the local identity.
    pub open spec fn addr(self, loc: PeerId) -> CoreModel {
        if self.running {
            CoreModel { state: self.state.set_loc(loc), ..self }
        } else {
            self
        }
    }

    /// After the relay supplied ICE servers: the new set replaces the old.
    pub open spec fn ice(self, ice_servers: Seq<char>) -> CoreModel {
        if self.running {
            CoreModel { ice_servers, ..self }
        } else {
            self
        }
    }

    /// After a relay session became ready.
    pub open spec fn sig(self) -> CoreModel {
        if self.running {
            CoreModel { sig_ready: true, ..self }
        } else {
            self
        }
    }

    /// Whether an offer from `id` starts an answering actor.
    pub open spec fn accepts(self, id: PeerId) -> bool {
        self.running && self.state.wants_incoming(id)
    }

    /// After an offer from `id` at `now`.
    pub open spec fn offer(self, now: u64, id: PeerId) -> CoreModel {
        if self.accepts(id) {
            CoreModel {
                state: self.state.check_want_incoming(now, id),
                live: self.live.push(id),
                ..self
            }
        } else {
            self
        }
    }

    /// The actions of an offer from `id`: where it is accepted, an
    /// answering actor is started and given the offer.
    pub open spec fn offer_actions(self, id: PeerId, offer: Seq<char>) -> Seq<CoreActionView> {
        if self.accepts(id) {
            seq![self.spawn(id, false), CoreActionView::ConOffer { id, offer }]
        } else {
            Seq::empty()
        }
    }

    /// Whether a message for the actor of `id` finds it.
    pub open spec fn routes(self, id: PeerId) -> bool {
        self.running && self.live.contains(id)
    }

    /// After an announcement of `id` at `now`: a remote identity is
    /// discovered, and its metadata, if it sent any, recorded.
    pub open spec fn demo(self, now: u64, id: PeerId, metadata: Option<Metadata>) -> CoreModel {
        if self.running && id != self.state.loc {
            let found = self.state.discover(now, id);
            CoreModel {
                state: match metadata {
                    Some(m) => found.contact(now, id, m.friendly_name@, m.shoutout@),
                    None => found,
                },
                ..self
            }
        } else {
            self
        }
    }

    /// After the relay delivered `msg` at `now`.
    pub open spec fn sig_msg(self, now: u64, msg: SigMessage) -> CoreModel {
        match msg {
            SigMessage::Offer { .. } => self.offer(now, sender(msg)),
            SigMessage::Answer { .. } => self,
            SigMessage::ICE { .. } => self,
            SigMessage::Demo { metadata, .. } => self.demo(now, sender(msg), metadata),
        }
    }

    /// The actions for a message that the relay delivered. An answer or a
    /// candidate route goes to the actor of its sender, and nowhere if the
    /// sender has none.
    pub open spec fn sig_msg_actions(self, msg: SigMessage) -> Seq<CoreActionView> {
        let id = sender(msg);
        match msg {
            SigMessage::Offer { offer, .. } => self.offer_actions(id, offer@),
            SigMessage::Answer { answer, .. } => if self.routes(id) {
                seq![CoreActionView::ConAnswer { id, answer: answer@ }]
            } else {
                Seq::empty()
            },
            SigMessage::ICE { ice, .. } => if self.routes(id) {
                seq![CoreActionView::ConICE { id, ice: ice@ }]
            } else {
                Seq::empty()
            },
            SigMessage::Demo { .. } => Seq::empty(),
        }
    }

    /// After the negotiation with `id` succeeded at `now`.
    pub open spec fn con_open(self, now: u64, id: PeerId) -> CoreModel {
        if self.running {
            CoreModel { state: self.state.connected(now, id), ..self }
        } else {
            self
        }
    }

    /// After the connection with `id` ended at `now`: `id` is no longer
    /// live, and its record rests.
    pub open spec fn drop_con(self, now: u64, id: PeerId, should_block: bool) -> CoreModel {
        if self.running {
            CoreModel {
                state: self.state.con_done(now, id, should_block, drop_reason(should_block)),
                live: without(self.live, id),
                ..self
            }
        } else {
            self
        }
    }

    /// The actions for the end of the connection with `id`.
    pub open spec fn drop_con_actions(self, id: PeerId) -> Seq<CoreActionView> {
        if self.routes(id) {
            seq![CoreActionView::CloseCon { id }]
        } else {
            Seq::empty()
        }
    }

    /// Whether a request to send through the relay is passed on.
    pub open spec fn sends(self) -> bool {
        self.running && self.sig_ready
    }

    /// The actions for a request to send through the relay: `action`
    /// where a relay session is ready, and none otherwise.
    pub open spec fn relay(self, action: CoreActionView) -> Seq<CoreActionView> {
        if self.sends() {
            seq![action]
        } else {
            Seq::empty()
        }
    }

    /// After a shutdown: no further command has any effect.
    pub open spec fn shutdown(self) -> CoreModel {
        CoreModel { running: false, ..self }
    }

    /// The actions of a shutdown: one request to stop, the first time.
    pub open spec fn shutdown_actions(self) -> Seq<CoreActionView> {
        if self.running {
            seq![CoreActionView::Stop]
        } else {
            Seq::empty()
        }
    }

    /// The orchestrator after `cmd` at `now`.
    pub open spec fn step(self, now: u64, cmd: CoreCmd) -> CoreModel {
        match cmd {
            CoreCmd::Shutdown => self.shutdown(),
            CoreCmd::Tick => self.tick(now),
            CoreCmd::Addr { loc_id, loc_pk } => self.addr(PeerId { rem_id: loc_id, rem_pk: loc_pk }),
            CoreCmd::ICE(ice_servers) => self.ice(ice_servers@),
            CoreCmd::Sig => self.sig(),
            CoreCmd::SigMsg(msg) => self.sig_msg(now, msg),
            CoreCmd::ConOpen(id) => self.con_open(now, id),
            CoreCmd::DropCon(id, should_block) => self.drop_con(now, id, should_block),
            CoreCmd::SendOffer(..) => self,
            CoreCmd::SendAnswer(..) => self,
            CoreCmd::SendICE(..) => self,
        }
    }

    /// The actions that answer `cmd` at `now`.
    pub open spec fn step_actions(self, now: u64, cmd: CoreCmd) -> Seq<CoreActionView> {
        match cmd {
            CoreCmd::Shutdown => self.shutdown_actions(),
            CoreCmd::Tick => self.tick_actions(now),
            CoreCmd::Addr { .. } => Seq::empty(),
            CoreCmd::ICE(_) => Seq::empty(),
            CoreCmd::Sig => Seq::empty(),
            CoreCmd::SigMsg(msg) => self.sig_msg_actions(msg),
            CoreCmd::ConOpen(_) => Seq::empty(),
            CoreCmd::DropCon(id, _) => self.drop_con_actions(id),
            CoreCmd::SendOffer(id, offer) => self.relay(CoreActionView::SigOffer { id, offer: offer@ }),
            CoreCmd::SendAnswer(id, answer) => self.relay(
                CoreActionView::SigAnswer { id, answer: answer@ },
            ),
            CoreCmd::SendICE(id, ice) => self.relay(CoreActionView::SigICE { id, ice: ice@ }),
        }
    }
}

/// The peer table and the live identities, which change together.
struct Book {
    state: State,
    live: Vec<PeerId>,
}

/// The orchestrator.
pub struct Core {
    book: Book,
    ice_servers: String,
    sig_ready: bool,
    running: bool,
}

impl View for Core {
    type V = CoreModel;

    closed spec fn view(&self) -> CoreModel {
        CoreModel {
            state: self.book.state@,
            live: self.book.live@,
            ice_servers: self.ice_servers@,
            sig_ready: self.sig_ready,
            running: self.running,
        }
    }
}

/// Taking `id` out of live identities without repeats leaves the others, in order.
proof fn lemma_without(live: Seq<PeerId>, id: PeerId)
    requires
        live.no_duplicates(),
    ensures
        without(live, id).no_duplicates(),
        forall|p: PeerId| #[trigger] without(live, id).contains(p) == (live.contains(p) && p != id),
{
    if live.contains(id) {
        let i = live.index_of(id);
        let rest = live.remove(i);
        assert forall|a: int, b: int| 0 <= a < b < rest.len() implies rest[a] != rest[b] by {
            let a0 = if a < i {
                a
            } else {
                a + 1
            };
            let b0 = if b < i {
                b
            } else {
                b + 1
            };
            assert(rest[a] == live[a0] && rest[b] == live[b0]);
        }
        assert forall|p: PeerId| #[trigger] rest.contains(p) == (live.contains(p) && p != id) by {
            if rest.contains(p) {
                let a = choose|a: int| 0 <= a < rest.len() && rest[a] == p;
                let a0 = if a < i {
                    a
                } else {
                    a + 1
                };
                assert(live[a0] == p);
                assert(a0 != i);
            }
            if live.contains(p) && p != id {
                let a0 = choose|a0: int| 0 <= a0 < live.len() && live[a0] == p;
                let a = if a0 < i {
                    a0
                } else {
                    a0 - 1
                };
                assert(rest[a] == p);
            }
        }
    }
}

/// One more live identity, which was not live, keeps the set without repeats.
proof fn lemma_with(live: Seq<PeerId>, id: PeerId)
    requires
        live.no_duplicates(),
        !live.contains(id),
    ensures
        live.push(id).no_duplicates(),
        forall|p: PeerId| #[trigger] live.push(id).contains(p) == (live.contains(p) || p == id),
{
    let more = live.push(id);
    assert forall|a: int, b: int| 0 <= a < b < more.len() implies more[a] != more[b] by {
        assert(more[a] == live[a]);
        if b < live.len() {
            assert(more[b] == live[b]);
        } else {
            assert(live.contains(more[a]));
        }
    }
    assert forall|p: PeerId| #[trigger] more.contains(p) == (live.contains(p) || p == id) by {
        if more.contains(p) {
            let a = choose|a: int| 0 <= a < more.len() && more[a] == p;
            if a < live.len() {
                assert(live[a] == p);
            }
        }
        if live.contains(p) {
            let a = choose|a: int| 0 <= a < live.len() && live[a] == p;
            assert(more[a] == p);
        }
        if p == id {
            assert(more[live.len() as int] == p);
        }
    }
}

/// A tick leaves the orchestrator well formed: the identities it starts
/// actors for held no slot and were not live.
pub proof fn lemma_tick_wf(c: CoreModel, now: u64)
    requires
        c.wf(),
    ensures
        c.tick(now).wf(),
{
    if c.running {
        lemma_outgoing_members(c.state, now, MAX_CON);
        let out = c.state.wanted_outgoing(now, MAX_CON);
        let after = c.tick(now);
        let live = after.live;
        let n = c.live.len();
        assert forall|a: int, b: int| 0 <= a < b < live.len() implies live[a] != live[b] by {
            if b < n {
            } else if a < n {
                assert(c.live.contains(live[a]));
                assert(out.contains(live[b]));
            } else {
                assert(out[a - n] != out[b - n]);
            }
        }
        assert forall|id: PeerId| #[trigger] live.contains(id) == after.state.holds_slot(id) by {
            if live.contains(id) {
                let a = choose|a: int| 0 <= a < live.len() && live[a] == id;
                if a < n {
                    assert(c.live.contains(id));
                } else {
                    assert(out[a - n] == id);
                }
            }
            if c.live.contains(id) {
                let a = choose|a: int| 0 <= a < n && c.live[a] == id;
                assert(live[a] == id);
            }
            if out.contains(id) {
                let a = choose|a: int| 0 <= a < out.len() && out[a] == id;
                assert(live[n + a] == id);
            }
        }
    }
}

/// Another local identity leaves the orchestrator well formed.
pub proof fn lemma_addr_wf(c: CoreModel, loc: PeerId)
    requires
        c.wf(),
    ensures
        c.addr(loc).wf(),
{
    let after = c.addr(loc).state;
    assert forall|id: PeerId| #[trigger] after.holds_slot(id) == c.state.holds_slot(id) by {
        assert(after.has(id) == c.state.has(id));
        assert(after.index_of(id) == c.state.index_of(id));
    }
}

/// A message from the relay leaves the orchestrator well formed: an
/// accepted offer makes its sender live, which it was not.
pub proof fn lemma_sig_msg_wf(c: CoreModel, now: u64, msg: SigMessage)
    requires
        c.wf(),
    ensures
        c.sig_msg(now, msg).wf(),
{
    let id = sender(msg);
    match msg {
        SigMessage::Offer { .. } => {
            lemma_slots_incoming(c.state, now, id);
            if c.accepts(id) {
                lemma_with(c.live, id);
            }
        },
        SigMessage::Demo { metadata, .. } => {
            if c.running && id != c.state.loc {
                let found = c.state.discover(now, id);
                lemma_slots_kept(c.state, now, id, Seq::empty(), Seq::empty());
                match metadata {
                    Some(m) => {
                        lemma_slots_kept(found, now, id, m.friendly_name@, m.shoutout@);
                    },
                    None => {},
                }
            }
        },
        _ => {},
    }
}

/// A negotiation that succeeded leaves the orchestrator well formed.
pub proof fn lemma_con_open_wf(c: CoreModel, now: u64, id: PeerId)
    requires
        c.wf(),
    ensures
        c.con_open(now, id).wf(),
{
    lemma_slots_kept(c.state, now, id, Seq::empty(), Seq::empty());
}

/// The end of a connection leaves the orchestrator well formed: its peer
/// is no longer live and holds no slot.
pub proof fn lemma_drop_con_wf(c: CoreModel, now: u64, id: PeerId, should_block: bool)
    requires
        c.wf(),
    ensures
        c.drop_con(now, id, should_block).wf(),
        !c.drop_con(now, id, should_block).live.contains(id) || !c.running,
{
    lemma_without(c.live, id);
    lemma_slots_done(c.state, now, id, should_block, drop_reason(should_block));
}

/// Every command leaves the orchestrator well formed: the table stays
/// well formed, no identity is live twice, and the live identities are
/// those that hold an admission slot. Once the orchestrator is stopped no
/// command changes it or is answered with an action.
pub proof fn lemma_step_wf(c: CoreModel, now: u64, cmd: CoreCmd)
    requires
        c.wf(),
    ensures
        c.step(now, cmd).wf(),
        !c.running ==> c.step(now, cmd) == c && c.step_actions(now, cmd) =~= Seq::empty(),
{
    match cmd {
        CoreCmd::Tick => lemma_tick_wf(c, now),
        CoreCmd::Addr { loc_id, loc_pk } => lemma_addr_wf(c, PeerId { rem_id: loc_id, rem_pk: loc_pk }),
        CoreCmd::SigMsg(msg) => lemma_sig_msg_wf(c, now, msg),
        CoreCmd::ConOpen(id) => lemma_con_open_wf(c, now, id),
        CoreCmd::DropCon(id, should_block) => lemma_drop_con_wf(c, now, id, should_block),
        _ => {},
    }
}

/// The orchestrator after each of `cmds`, taken in turn at the times `nows`.
pub open spec fn run(c: CoreModel, nows: Seq<u64>, cmds: Seq<CoreCmd>) -> CoreModel
    decreases cmds.len(),
{
    if cmds.len() == 0 {
        c
    } else {
        run(c, nows.drop_last(), cmds.drop_last()).step(nows.last(), cmds.last())
    }
}

/// Whatever commands come in whatever order, the orchestrator stays well
/// formed: at any time no identity has two records or two live actors, and
/// an identity has a live actor exactly if its record is `ConnectingOut`,
/// `ConnectingIn` or `Connected`.
pub proof fn lemma_run_wf(c: CoreModel, nows: Seq<u64>, cmds: Seq<CoreCmd>)
    requires
        c.wf(),
        nows.len() == cmds.len(),
    ensures
        run(c, nows, cmds).wf(),
    decreases cmds.len(),
{
    if cmds.len() > 0 {
        lemma_run_wf(c, nows.drop_last(), cmds.drop_last());
        lemma_step_wf(run(c, nows.drop_last(), cmds.drop_last()), nows.last(), cmds.last());
    }
}

impl Book {
    /// An empty table with nothing live.
    fn empty(friendly_name: String, shoutout: String) -> (book: Book)
        ensures
            book.state@.peers.len() == 0,
            book.state@.friendly_name == friendly_name@,
            book.state@.shoutout == shoutout@,
            book.live@.len() == 0,
            paired(book.state@, book.live@),
    {
        let book = Book { state: State::new(friendly_name, shoutout), live: Vec::new() };
        proof {
            assert forall|id: PeerId| #[trigger]
                book.live@.contains(id) == book.state@.holds_slot(id) by {
                if book.state@.has(id) {
                    let i = book.state@.index_of(id);
                    assert(0 <= i < book.state@.peers.len());
                }
            }
        }
        book
    }

    /// The place of `id` among the live identities, if it is live.
    fn live_place(&self, id: &PeerId) -> (place: Option<usize>)
        ensures
            place.is_some() == self.live@.contains(*id),
            place matches Some(i) ==> i < self.live@.len() && self.live@[i as int] == *id,
            place matches Some(i) ==> self.live@.no_duplicates() ==> self.live@.index_of(*id) == i,
    {
        let mut i: usize = 0;
        while i < self.live.len()
            invariant
                i <= self.live.len(),
                forall|j: int| 0 <= j < i ==> self.live@[j] != *id,
            decreases self.live.len() - i,
        {
            if self.live[i] == *id {
                proof {
                    let j = self.live@.index_of(*id);
                    assert(self.live@[j] == *id);
                }
                return Some(i);
            }
            i = i + 1;
        }
        None
    }
}

impl Core {
    #[verifier::type_invariant]
    spec fn inv(&self) -> bool {
        self@.wf()
    }

    /// An orchestrator for a node that describes itself with
    /// `friendly_name` and `shoutout`: an empty table, nothing live, an
    /// empty JSON list of ICE servers, no relay session.
    pub fn new(friendly_name: String, shoutout: String) -> (core: Core)
        ensures
            core@.wf(),
            core@.running,
            !core@.sig_ready,
            core@.live.len() == 0,
            core@.ice_servers == "[]"@,
            core@.state.peers.len() == 0,
            core@.state.friendly_name == friendly_name@,
            core@.state.shoutout == shoutout@,
    {
        Core {
            book: Book::empty(friendly_name, shoutout),
            ice_servers: "[]".to_owned(),
            sig_ready: false,
            running: true,
        }
    }

    /// Takes the table and the live identities out, to be changed and put
    /// back together: whenever the orchestrator can be seen, the two
    /// belong together.
    fn open_book(&mut self) -> (book: Book)
        ensures
            book.state@ == old(self)@.state,
            book.live@ == old(self)@.live,
            paired(book.state@, book.live@),
            final(self)@.ice_servers == old(self)@.ice_servers,
            final(self)@.sig_ready == old(self)@.sig_ready,
            final(self)@.running == old(self)@.running,
            final(self).ice_servers == old(self).ice_servers,
    {
        proof {
            use_type_invariant(&*self);
        }
        let mut book = Book::empty(String::new(), String::new());
        std::mem::swap(&mut self.book, &mut book);
        book
    }

    /// The peer table.
    pub fn state(&self) -> (state: &State)
        ensures
            state@ == self@.state,
            self@.wf(),
    {
        proof {
            use_type_invariant(self);
        }
        &self.book.state
    }

    /// Whether `id` has a live connection actor.
    pub fn is_live(&self, id: &PeerId) -> (yes: bool)
        ensures
            yes == self@.live.contains(*id),
    {
        self.book.live_place(id).is_some()
    }

    /// Number of live connection actors.
    pub fn live_len(&self) -> (n: usize)
        ensures
            n == self@.live.len(),
    {
        self.book.live.len()
    }

    /// Whether commands are still taken.
    pub fn is_running(&self) -> (yes: bool)
        ensures
            yes == self@.running,
    {
        self.running
    }

    /// The periodic scan at `now`: starts an offering actor for every
    /// identity that the table promotes with room for [`MAX_CON`] slots.
    pub fn tick(&mut self, now: u64) -> (actions: Vec<CoreAction>)
        ensures
            final(self)@ == old(self)@.tick(now),
            actions_of(actions@) == old(self)@.tick_actions(now),
            final(self)@.wf(),
    {
        proof {
            use_type_invariant(&*self);
            lemma_tick_wf(self@, now);
        }
        let mut actions: Vec<CoreAction> = Vec::new();
        if !self.running {
            assert(actions_of(actions@) =~= old(self)@.tick_actions(now));
            return actions;
        }
        let ghost before = self@;
        let mut book = self.open_book();
        let out = book.state.check_want_outgoing(now, MAX_CON);
        let mut k: usize = 0;
        while k < out.len()
            invariant
                k <= out.len(),
                book.state@ == before.state.check_want_outgoing(now, MAX_CON),
                book.live@ == before.live + out@.subrange(0, k as int),
                self@.ice_servers == before.ice_servers,
                self@.sig_ready == before.sig_ready,
                self@.running == before.running,
                actions@.len() == k,
                forall|j: int| 0 <= j < k ==> (#[trigger] actions@[j])@ == before.spawn(out@[j], true),
            decreases out.len() - k,
        {
            let id = out[k];
            book.live.push(id);
            actions.push(CoreAction::SpawnCon { id, ice_servers: self.ice_servers.clone(), is_out: true });
            assert(book.live@ =~= before.live + out@.subrange(0, k + 1));
            k = k + 1;
        }
        proof {
            assert(out@.subrange(0, out@.len() as int) =~= out@);
            assert(actions_of(actions@) =~= before.tick_actions(now));
        }
        self.book = book;
        actions
    }

    /// Takes the identity that the relay assigned to this node, so that
    /// announcements of this node itself are passed over.
    pub fn addr(&mut self, loc_id: Id, loc_pk: Id)
        ensures
            final(self)@ == old(self)@.addr(PeerId { rem_id: loc_id, rem_pk: loc_pk }),
            final(self)@.wf(),
    {
        proof {
            use_type_invariant(&*self);
            lemma_addr_wf(self@, PeerId { rem_id: loc_id, rem_pk: loc_pk });
        }
        if self.running {
            let mut book = self.open_book();
            book.state.set_loc(loc_id, loc_pk);
            self.book = book;
        }
    }

    /// Takes a new set of ICE servers, which replaces the one held.
    /// Connection actors started from now on get the new set.
    pub fn ice(&mut self, ice_servers: String)
        ensures
            final(self)@ == old(self)@.ice(ice_servers@),
            final(self)@.wf(),
    {
        proof {
            use_type_invariant(&*self);
        }
        if self.running {
            self.ice_servers = ice_servers;
        }
    }

    /// Notes that a relay session is ready, so that requests to send
    /// through the relay are passed on.
    pub fn sig(&mut self)
        ensures
            final(self)@ == old(self)@.sig(),
            final(self)@.wf(),
    {
        proof {
            use_type_invariant(&*self);
        }
        if self.running {
            self.sig_ready = true;
        }
    }

    /// Handles a message that the relay delivered at `now`. An offer is
    /// put to the table, and an answering actor started if it is
    /// accepted. An answer or a candidate route goes to the live actor of
    /// its sender, and is dropped if there is none. An announcement makes
    /// the sender known, unless the sender is this node.
    pub fn sig_msg(&mut self, now: u64, msg: SigMessage) -> (actions: Vec<CoreAction>)
        ensures
            final(self)@ == old(self)@.sig_msg(now, msg),
            actions_of(actions@) == old(self)@.sig_msg_actions(msg),
            final(self)@.wf(),
    {
        proof {
            use_type_invariant(&*self);
            lemma_sig_msg_wf(self@, now, msg);
        }
        let mut actions: Vec<CoreAction> = Vec::new();
        if !self.running {
            assert(actions_of(actions@) =~= old(self)@.sig_msg_actions(msg));
            return actions;
        }
        match msg {
            SigMessage::Offer { rem_id, rem_pk, offer } => {
                let id = PeerId { rem_id, rem_pk };
                let mut book = self.open_book();
                if book.state.check_want_incoming(now, id) {
                    book.live.push(id);
                    actions.push(
                        CoreAction::SpawnCon { id, ice_servers: self.ice_servers.clone(), is_out: false },
                    );
                    actions.push(CoreAction::ConOffer { id, offer });
                }
                self.book = book;
            },
            SigMessage::Answer { rem_id, rem_pk, answer } => {
                let id = PeerId { rem_id, rem_pk };
                if self.book.live_place(&id).is_some() {
                    actions.push(CoreAction::ConAnswer { id, answer });
                }
            },
            SigMessage::ICE { rem_id, rem_pk, ice } => {
                let id = PeerId { rem_id, rem_pk };
                if self.book.live_place(&id).is_some() {
                    actions.push(CoreAction::ConICE { id, ice });
                }
            },
            SigMessage::Demo { rem_id, rem_pk, metadata } => {
                let id = PeerId { rem_id, rem_pk };
                if !self.book.state.is_loc(&id) {
                    let mut book = self.open_book();
                    book.state.discover(now, rem_id, rem_pk);
                    match metadata {
                        Some(m) => {
                            book.state.contact(now, id, m.friendly_name, m.shoutout);
                        },
                        None => {},
                    }
                    self.book = book;
                }
            },
        }
        assert(actions_of(actions@) =~= old(self)@.sig_msg_actions(msg));
        actions
    }

    /// Notes at `now` that the negotiation with `id` succeeded: a record
    /// that was negotiating is `Connected`.
    pub fn con_open(&mut self, now: u64, id: PeerId)
        ensures
            final(self)@ == old(self)@.con_open(now, id),
            final(self)@.wf(),
    {
        proof {
            use_type_invariant(&*self);
            lemma_con_open_wf(self@, now, id);
        }
        if self.running {
            let mut book = self.open_book();
            book.state.connected(now, id);
            self.book = book;
        }
    }

    /// Handles the end of the connection with `id` at `now`: its actor
    /// leaves the live set, and its record rests, `Blocked` if the
    /// connection ended in an error and `Done` otherwise.
    pub fn drop_con(&mut self, now: u64, id: PeerId, should_block: bool) -> (actions: Vec<CoreAction>)
        ensures
            final(self)@ == old(self)@.drop_con(now, id, should_block),
            actions_of(actions@) == old(self)@.drop_con_actions(id),
            final(self)@.wf(),
    {
        proof {
            use_type_invariant(&*self);
            lemma_drop_con_wf(self@, now, id, should_block);
        }
        let mut actions: Vec<CoreAction> = Vec::new();
        if self.running {
            let mut book = self.open_book();
            match book.live_place(&id) {
                Some(i) => {
                    book.live.remove(i);
                    actions.push(CoreAction::CloseCon { id });
                },
                None => {},
            }
            let reason = if should_block {
                Some(BlockReason::NegotiationFailed)
            } else {
                None
            };
            book.state.con_done(now, id, should_block, reason);
            self.book = book;
        }
        assert(actions_of(actions@) =~= old(self)@.drop_con_actions(id));
        actions
    }

    /// Passes the offer of a connection actor on to the relay session, if
    /// one is ready; otherwise the offer is dropped.
    pub fn send_offer(&self, id: PeerId, offer: String) -> (actions: Vec<CoreAction>)
        ensures
            actions_of(actions@) == self@.relay(CoreActionView::SigOffer { id, offer: offer@ }),
    {
        let mut actions: Vec<CoreAction> = Vec::new();
        if self.running && self.sig_ready {
            actions.push(CoreAction::SigOffer { id, offer });
        }
        assert(actions_of(actions@) =~= self@.relay(CoreActionView::SigOffer { id, offer: offer@ }));
        actions
    }

    /// Passes the answer of a connection actor on to the relay session, if
    /// one is ready; otherwise the answer is dropped.
    pub fn send_answer(&self, id: PeerId, answer: String) -> (actions: Vec<CoreAction>)
        ensures
            actions_of(actions@) == self@.relay(CoreActionView::SigAnswer { id, answer: answer@ }),
    {
        let mut actions: Vec<CoreAction> = Vec::new();
        if self.running && self.sig_ready {
            actions.push(CoreAction::SigAnswer { id, answer });
        }
        assert(actions_of(actions@) =~= self@.relay(
            CoreActionView::SigAnswer { id, answer: answer@ },
        ));
        actions
    }

    /// Passes a candidate route of a connection actor on to the relay
    /// session, if one is ready; otherwise the candidate is dropped.
    pub fn send_ice(&self, id: PeerId, ice: String) -> (actions: Vec<CoreAction>)
        ensures
            actions_of(actions@) == self@.relay(CoreActionView::SigICE { id, ice: ice@ }),
    {
        let mut actions: Vec<CoreAction> = Vec::new();
        if self.running && self.sig_ready {
            actions.push(CoreAction::SigICE { id, ice });
        }
        assert(actions_of(actions@) =~= self@.relay(CoreActionView::SigICE { id, ice: ice@ }));
        actions
    }

    /// Stops the orchestrator: the first call asks to stop, and from then
    /// on no command has any effect.
    pub fn shutdown(&mut self) -> (actions: Vec<CoreAction>)
        ensures
            final(self)@ == old(self)@.shutdown(),
            actions_of(actions@) == old(self)@.shutdown_actions(),
            final(self)@.wf(),
    {
        proof {
            use_type_invariant(&*self);
        }
        let mut actions: Vec<CoreAction> = Vec::new();
        if self.running {
            self.running = false;
            actions.push(CoreAction::Stop);
        }
        assert(actions_of(actions@) =~= old(self)@.shutdown_actions());
        actions
    }

    /// Handles one command at `now` and returns the actions that answer
    /// it, in the order in which they are to be carried out.
    pub fn step(&mut self, now: u64, cmd: CoreCmd) -> (actions: Vec<CoreAction>)
        ensures
            final(self)@ == old(self)@.step(now, cmd),
            actions_of(actions@) == old(self)@.step_actions(now, cmd),
            final(self)@.wf(),
    {
        proof {
            use_type_invariant(&*self);
        }
        match cmd {
            CoreCmd::Shutdown => self.shutdown(),
            CoreCmd::Tick => self.tick(now),
            CoreCmd::Addr { loc_id, loc_pk } => {
                self.addr(loc_id, loc_pk);
                let actions: Vec<CoreAction> = Vec::new();
                assert(actions_of(actions@) =~= Seq::empty());
                actions
            },
            CoreCmd::ICE(ice_servers) => {
                self.ice(ice_servers);
                let actions: Vec<CoreAction> = Vec::new();
                assert(actions_of(actions@) =~= Seq::empty());
                actions
            },
            CoreCmd::Sig => {
                self.sig();
                let actions: Vec<CoreAction> = Vec::new();
                assert(actions_of(actions@) =~= Seq::empty());
                actions
            },
            CoreCmd::SigMsg(msg) => self.sig_msg(now, msg),
            CoreCmd::ConOpen(id) => {
                self.con_open(now, id);
                let actions: Vec<CoreAction> = Vec::new();
                assert(actions_of(actions@) =~= Seq::empty());
                actions
            },
            CoreCmd::DropCon(id, should_block) => self.drop_con(now, id, should_block),
            CoreCmd::SendOffer(id, offer) => self.send_offer(id, offer),
            CoreCmd::SendAnswer(id, answer) => self.send_answer(id, answer),
            CoreCmd::SendICE(id, ice) => self.send_ice(id, ice),
        }
    }
}

} // verus!
