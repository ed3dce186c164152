//! The connection actor: one negotiation with one peer, from the first
//! step to the single notice that tells the orchestrator it is over. The
//! actor takes one event at a time and answers each with one action.

use crate::id::PeerId;
use crate::state::text_of;
use vstd::prelude::*;

verus! {

/// Where a connection actor stands.
#[derive(Clone, Copy, Debug, PartialEq, Eq, Structural)]
pub enum ConPhase {
    /// Made, not started.
    New,
    /// The connection engine is preparing a context.
    Preparing,
    /// The context is ready; the offer of the peer is awaited.
    AwaitOffer,
    /// Offer and answer are under way.
    Negotiating,
    /// The connection is live.
    Connected,
    /// The actor is over; the orchestrator was told.
    Closed,
}

/// What happened to a connection actor.
#[derive(Clone, Debug, PartialEq, Eq)]
pub enum ConEvent {
    /// The actor is to begin.
    Start,
    /// The engine prepared a context.
    Prepared,
    /// The engine made our offer.
    OfferCreated(String),
    /// The engine took the offer of the peer and made our answer.
    AnswerCreated(String),
    /// The engine found a candidate route on our side.
    LocalICE(String),
    /// The owner hands in the offer of the peer.
    Offer(String),
    /// The owner hands in the answer of the peer.
    Answer(String),
    /// The owner hands in a candidate route of the peer.
    ICE(String),
    /// The engine reports that the connection is live.
    Connected,
    /// The engine reports that the connection closed without error.
    Disconnected,
    /// The engine reports an error.
    Failed,
    /// The owner asks the actor to end, or dropped it.
    Shutdown,
}

/// What a connection actor asks its surroundings to do.
#[derive(Clone, Debug, PartialEq, Eq)]
pub enum ConAction {
    /// Ask the engine to prepare a context with this configuration.
    Prepare(String),
    /// Ask the engine for a data channel and an offer.
    CreateOffer,
    /// Give the engine the offer of the peer and ask for an answer.
    AcceptOffer(String),
    /// Give the engine the answer of the peer.
    ApplyAnswer(String),
    /// Give the engine a candidate route of the peer.
    AddICE(String),
    /// Ask the orchestrator to relay our offer.
    SendOffer(String),
    /// Ask the orchestrator to relay our answer.
    SendAnswer(String),
    /// Ask the orchestrator to relay a candidate route of ours.
    SendICE(String),
    /// Tell the orchestrator that the negotiation succeeded.
    Opened,
    /// Release the context and tell the orchestrator that the connection
    /// is over, and whether the peer is to be blocked.
    Closed { should_block: bool },
    /// Nothing.
    Idle,
}

/// What a [`ConAction`] holds, with text as sequences of characters.
pub enum ConActionView {
    Prepare(Seq<char>),
    CreateOffer,
    AcceptOffer(Seq<char>),
    ApplyAnswer(Seq<char>),
    AddICE(Seq<char>),
    SendOffer(Seq<char>),
    SendAnswer(Seq<char>),
    SendICE(Seq<char>),
    Opened,
    Closed { should_block: bool },
    Idle,
}

impl View for ConAction {
    type V = ConActionView;

    open spec fn view(&self) -> ConActionView {
        match *self {
            ConAction::Prepare(t) => ConActionView::Prepare(t@),
            ConAction::CreateOffer => ConActionView::CreateOffer,
            ConAction::AcceptOffer(t) => ConActionView::AcceptOffer(t@),
            ConAction::ApplyAnswer(t) => ConActionView::ApplyAnswer(t@),
            ConAction::AddICE(t) => ConActionView::AddICE(t@),
            ConAction::SendOffer(t) => ConActionView::SendOffer(t@),
            ConAction::SendAnswer(t) => ConActionView::SendAnswer(t@),
            ConAction::SendICE(t) => ConActionView::SendICE(t@),
            ConAction::Opened => ConActionView::Opened,
            ConAction::Closed { should_block } => ConActionView::Closed { should_block },
            ConAction::Idle => ConActionView::Idle,
        }
    }
}

/// Whether `evt` ends an actor that is not over yet.
pub open spec fn is_final(evt: ConEvent) -> bool {
    evt is Shutdown || evt is Failed || evt is Disconnected
}

/// The name of the member that holds the ICE servers in the configuration
/// of a connection engine.
pub open spec fn ice_member() -> Seq<char> {
    "iceServers"@
}

/// The JSON object with the single member `key`, whose value is the JSON
/// text `value`, as JSON text; nothing where `value` is not JSON.
pub uninterp spec fn json_object_of(key: Seq<char>, value: Seq<char>) -> Option<Seq<char>>;

/// The configuration that a connection engine takes for the JSON list
/// `ice_servers`; nothing where `ice_servers` is not JSON.
pub open spec fn engine_config_of(ice_servers: Seq<char>) -> Option<Seq<char>> {
    json_object_of(ice_member(), ice_servers)
}

/// What a [`Con`] holds.
pub struct ConView {
    /// The peer.
    pub id: PeerId,
    /// The ICE servers that the connection is to use.
    pub ice_servers: Seq<char>,
    /// Whether this side makes the offer.
    pub is_out: bool,
    pub phase: ConPhase,
    /// The offer of the peer, where it came before the context was ready.
    pub pending: Option<Seq<char>>,
}

impl ConView {
    /// Whether the engine takes candidate routes.
    pub open spec fn takes_ice(self) -> bool {
        self.phase is Negotiating || self.phase is Connected
    }

    /// Whether an offer that the owner hands in is kept for later.
    pub open spec fn keeps_offer(self) -> bool {
        !self.is_out && (self.phase is New || self.phase is Preparing)
    }

    /// The actor once it is over.
    pub open spec fn over(self) -> ConView {
        ConView { phase: ConPhase::Closed, pending: None, ..self }
    }

    /// The actor after it was asked to begin and `conf` was made of its
    /// ICE servers: a new actor prepares if there is a configuration, and
    /// is over if there is none.
    pub open spec fn begin(self, conf: Option<Seq<char>>) -> ConView {
        if self.phase is New {
            if conf is Some {
                ConView { phase: ConPhase::Preparing, ..self }
            } else {
                self.over()
            }
        } else {
            self
        }
    }

    /// The action that answers the request to begin.
    pub open spec fn begin_action(self, conf: Option<Seq<char>>) -> ConActionView {
        if self.phase is New {
            match conf {
                Some(text) => ConActionView::Prepare(text),
                None => ConActionView::Closed { should_block: false },
            }
        } else {
            ConActionView::Idle
        }
    }

    /// The actor after `evt`.
    pub open spec fn step(self, evt: ConEvent) -> ConView {
        if self.phase is Closed {
            self
        } else if is_final(evt) {
            self.over()
        } else {
            match evt {
                ConEvent::Start => self.begin(engine_config_of(self.ice_servers)),
                ConEvent::Prepared => if self.phase is Preparing {
                    if self.is_out || self.pending is Some {
                        ConView { phase: ConPhase::Negotiating, pending: None, ..self }
                    } else {
                        ConView { phase: ConPhase::AwaitOffer, ..self }
                    }
                } else {
                    self
                },
                ConEvent::Offer(t) => if self.keeps_offer() {
                    ConView { pending: Some(t@), ..self }
                } else if !self.is_out && self.phase is AwaitOffer {
                    ConView { phase: ConPhase::Negotiating, ..self }
                } else {
                    self
                },
                ConEvent::Connected => if self.phase is Negotiating {
                    ConView { phase: ConPhase::Connected, ..self }
                } else {
                    self
                },
                _ => self,
            }
        }
    }

    /// The action that answers `evt`.
    pub open spec fn action(self, evt: ConEvent) -> ConActionView {
        if self.phase is Closed {
            ConActionView::Idle
        } else if is_final(evt) {
            ConActionView::Closed { should_block: evt is Failed }
        } else {
            match evt {
                ConEvent::Start => self.begin_action(engine_config_of(self.ice_servers)),
                ConEvent::Prepared => if self.phase is Preparing {
                    if self.is_out {
                        ConActionView::CreateOffer
                    } else {
                        match self.pending {
                            Some(t) => ConActionView::AcceptOffer(t),
                            None => ConActionView::Idle,
                        }
                    }
                } else {
                    ConActionView::Idle
                },
                ConEvent::OfferCreated(t) => if self.is_out && self.phase is Negotiating {
                    ConActionView::SendOffer(t@)
                } else {
                    ConActionView::Idle
                },
                ConEvent::AnswerCreated(t) => if !self.is_out && self.phase is Negotiating {
                    ConActionView::SendAnswer(t@)
                } else {
                    ConActionView::Idle
                },
                ConEvent::LocalICE(t) => if self.takes_ice() {
                    ConActionView::SendICE(t@)
                } else {
                    ConActionView::Idle
                },
                ConEvent::Offer(t) => if !self.is_out && self.phase is AwaitOffer {
                    ConActionView::AcceptOffer(t@)
                } else {
                    ConActionView::Idle
                },
                ConEvent::Answer(t) => if self.is_out && self.phase is Negotiating {
                    ConActionView::ApplyAnswer(t@)
                } else {
                    ConActionView::Idle
                },
                ConEvent::ICE(t) => if self.takes_ice() {
                    ConActionView::AddICE(t@)
                } else {
                    ConActionView::Idle
                },
                ConEvent::Connected => if self.phase is Negotiating {
                    ConActionView::Opened
                } else {
                    ConActionView::Idle
                },
                _ => ConActionView::Idle,
            }
        }
    }

    /// The actor after each of `events`, in turn.
    pub open spec fn run(self, events: Seq<ConEvent>) -> ConView
        decreases events.len(),
    {
        if events.len() == 0 {
            self
        } else {
            self.run(events.drop_last()).step(events.last())
        }
    }

    /// Number of `Closed` actions that answer `events`, taken in turn.
    pub open spec fn closed_count(self, events: Seq<ConEvent>) -> nat
        decreases events.len(),
    {
        if events.len() == 0 {
            0
        } else {
            self.closed_count(events.drop_last()) + if self.run(events.drop_last()).action(
                events.last(),
            ) is Closed {
                1nat
            } else {
                0nat
            }
        }
    }
}

/// The connection actor.
pub struct Con {
    id: PeerId,
    ice_servers: String,
    is_out: bool,
    phase: ConPhase,
    pending: Option<String>,
}

impl View for Con {
    type V = ConView;

    closed spec fn view(&self) -> ConView {
        ConView {
            id: self.id,
            ice_servers: self.ice_servers@,
            is_out: self.is_out,
            phase: self.phase,
            pending: match self.pending {
                Some(t) => Some(t@),
                None => None,
            },
        }
    }
}

impl Con {
    /// An actor for the negotiation with `id` over `ice_servers`,
    /// offering if `is_out` and answering otherwise.
    pub fn new(id: PeerId, ice_servers: String, is_out: bool) -> (con: Con)
        ensures
            con@ == (ConView {
                id,
                ice_servers: ice_servers@,
                is_out,
                phase: ConPhase::New,
                pending: None,
            }),
    {
        Con { id, ice_servers, is_out, phase: ConPhase::New, pending: None }
    }

    /// The peer.
    pub fn id(&self) -> (id: PeerId)
        ensures
            id == self@.id,
    {
        self.id
    }

    /// Whether this side makes the offer.
    pub fn is_out(&self) -> (is_out: bool)
        ensures
            is_out == self@.is_out,
    {
        self.is_out
    }

    /// Where the actor stands.
    pub fn phase(&self) -> (phase: ConPhase)
        ensures
            phase == self@.phase,
    {
        self.phase
    }

    /// Begins the actor with `conf`, the configuration made of its ICE
    /// servers. A new actor asks the engine to prepare with the
    /// configuration; without one it is over at once, and the peer is not
    /// to be blocked. An actor that has begun passes the request over.
    pub fn begin(&mut self, conf: Option<String>) -> (action: ConAction)
        ensures
            final(self)@ == old(self)@.begin(text_of(conf)),
            action@ == old(self)@.begin_action(text_of(conf)),
    {
        match self.phase {
            ConPhase::New => match conf {
                Some(text) => {
                    self.phase = ConPhase::Preparing;
                    ConAction::Prepare(text)
                },
                None => {
                    self.phase = ConPhase::Closed;
                    self.pending = None;
                    ConAction::Closed { should_block: false }
                },
            },
            _ => ConAction::Idle,
        }
    }

    /// Takes one event and returns the action that answers it.
    ///
    /// A start makes the engine configuration of the ICE servers and
    /// begins with it, as [`Con::begin`] says. The first shutdown, error
    /// or disconnect ends the actor and is answered with `Closed`, which
    /// asks to block the peer only after an error. Nothing that comes
    /// after the actor is over is answered with anything but `Idle`. An
    /// event that does not fit the role or the phase is passed over. An
    /// offer that the owner hands in before the context is ready is kept
    /// and given to the engine once it is.
    pub fn step(&mut self, evt: ConEvent) -> (action: ConAction)
        ensures
            final(self)@ == old(self)@.step(evt),
            action@ == old(self)@.action(evt),
            action is Closed <==> !(old(self)@.phase is Closed) && final(self)@.phase is Closed,
            is_final(evt) ==> final(self)@.phase is Closed,
    {
        match self.phase {
            ConPhase::Closed => {
                return ConAction::Idle;
            },
            _ => {},
        }
        match evt {
            ConEvent::Shutdown | ConEvent::Disconnected => {
                self.phase = ConPhase::Closed;
                self.pending = None;
                ConAction::Closed { should_block: false }
            },
            ConEvent::Failed => {
                self.phase = ConPhase::Closed;
                self.pending = None;
                ConAction::Closed { should_block: true }
            },
            ConEvent::Start => {
                let conf = json_object("iceServers", self.ice_servers.as_str());
                self.begin(conf)
            },
            ConEvent::Prepared => match self.phase {
                ConPhase::Preparing => {
                    if self.is_out {
                        self.phase = ConPhase::Negotiating;
                        self.pending = None;
                        ConAction::CreateOffer
                    } else {
                        let mut kept: Option<String> = None;
                        std::mem::swap(&mut self.pending, &mut kept);
                        match kept {
                            Some(t) => {
                                self.phase = ConPhase::Negotiating;
                                ConAction::AcceptOffer(t)
                            },
                            None => {
                                self.phase = ConPhase::AwaitOffer;
                                ConAction::Idle
                            },
                        }
                    }
                },
                _ => ConAction::Idle,
            },
            ConEvent::OfferCreated(t) => match (self.is_out, self.phase) {
                (true, ConPhase::Negotiating) => ConAction::SendOffer(t),
                _ => ConAction::Idle,
            },
            ConEvent::AnswerCreated(t) => match (self.is_out, self.phase) {
                (false, ConPhase::Negotiating) => ConAction::SendAnswer(t),
                _ => ConAction::Idle,
            },
            ConEvent::LocalICE(t) => match self.phase {
                ConPhase::Negotiating | ConPhase::Connected => ConAction::SendICE(t),
                _ => ConAction::Idle,
            },
            ConEvent::Offer(t) => match (self.is_out, self.phase) {
                (false, ConPhase::New) | (false, ConPhase::Preparing) => {
                    self.pending = Some(t);
                    ConAction::Idle
                },
                (false, ConPhase::AwaitOffer) => {
                    self.phase = ConPhase::Negotiating;
                    ConAction::AcceptOffer(t)
                },
                _ => ConAction::Idle,
            },
            ConEvent::Answer(t) => match (self.is_out, self.phase) {
                (true, ConPhase::Negotiating) => ConAction::ApplyAnswer(t),
                _ => ConAction::Idle,
            },
            ConEvent::ICE(t) => match self.phase {
                ConPhase::Negotiating | ConPhase::Connected => ConAction::AddICE(t),
                _ => ConAction::Idle,
            },
            ConEvent::Connected => match self.phase {
                ConPhase::Negotiating => {
                    self.phase = ConPhase::Connected;
                    ConAction::Opened
                },
                _ => ConAction::Idle,
            },
        }
    }
}

/// Writes the JSON object with the single member `key` whose value is the
/// JSON text `value`.
///
/// Trusted: calls `serde_json::from_str` to read `value`,
/// `serde_json::Map::insert` to put it under `key`, and
/// `serde_json::to_string` to write the object. The contract claims only
/// that the outcome depends on `key` and `value` alone; what the text is,
/// and for which `value` there is none, is left to the name.
#[verifier::external_body]
fn json_object(key: &str, value: &str) -> (text: Option<String>)
    ensures
        text_of(text) == json_object_of(key@, value@),
{
    let member: serde_json::Value = serde_json::from_str(value).ok()?;
    let mut object = serde_json::Map::new();
    object.insert(key.to_owned(), member);
    serde_json::to_string(&serde_json::Value::Object(object)).ok()
}

/// Once an actor is over it stays over, and nothing is answered with `Closed`.
pub proof fn lemma_closed_stays(c: ConView, events: Seq<ConEvent>)
    requires
        c.phase is Closed,
    ensures
        c.run(events) == c,
        c.closed_count(events) == 0,
    decreases events.len(),
{
    if events.len() > 0 {
        lemma_closed_stays(c, events.drop_last());
    }
}

/// Whatever events come in whatever order, an actor answers with `Closed`
/// exactly once if it is over at the end, and never if it is not; and it
/// is over at the end if a shutdown, an error or a disconnect was among
/// the events.
pub proof fn lemma_closed_once(c: ConView, events: Seq<ConEvent>)
    requires
        !(c.phase is Closed),
    ensures
        c.closed_count(events) == if c.run(events).phase is Closed {
            1nat
        } else {
            0nat
        },
        (exists|i: int| 0 <= i < events.len() && is_final(#[trigger] events[i])) ==> c.run(
            events,
        ).phase is Closed,
    decreases events.len(),
{
    if events.len() > 0 {
        let front = events.drop_last();
        lemma_closed_once(c, front);
        let mid = c.run(front);
        if exists|i: int| 0 <= i < events.len() && is_final(#[trigger] events[i]) {
            let i = choose|i: int| 0 <= i < events.len() && is_final(#[trigger] events[i]);
            if i < front.len() {
                assert(front[i] == events[i]);
            }
        }
    }
}

} // verus!
