//! The relay session: which relay endpoint to try next, how long to wait
//! after a failure, and what to do once a link stands or breaks. The
//! session takes one event at a time and answers each with one action.

use rand::Rng;
use vstd::prelude::*;

verus! {

/// Seconds of backoff before any attempt failed.
pub const BACKOFF_START_SECS: u64 = 1;

/// Largest backoff, in seconds.
pub const BACKOFF_CAP_SECS: u64 = 60;

/// Seconds to which the backoff falls back when a link stands.
pub const BACKOFF_FLOOR_SECS: u64 = 2;

/// Fewest seconds between two announcements.
pub const DEMO_MIN_SECS: u64 = 30;

/// Seconds between two announcements stay below this.
pub const DEMO_MAX_SECS: u64 = 60;

/// Where a relay session stands.
#[derive(Clone, Copy, Debug, PartialEq, Eq, Structural)]
pub enum SigPhase {
    /// No link, and no attempt under way.
    Disconnected,
    /// An attempt to link to an endpoint is under way.
    Connecting,
    /// The link stands, and the first announcement is under way.
    Greeting,
    /// The link stands, and the relay knows this node.
    Linked,
    /// The session was shut down.
    Stopped,
}

/// What happened to a relay session.
#[derive(Clone, Copy, Debug, PartialEq, Eq, Structural)]
pub enum SigEvent {
    /// The session is to begin linking.
    Start,
    /// The attempt to link failed.
    ConnectFailed,
    /// The attempt to link succeeded.
    Connected,
    /// An announcement was sent.
    DemoSent,
    /// The time for the next announcement has come.
    DemoDue,
    /// The link broke: an announcement could not be sent, or the relay
    /// closed the link.
    LinkLost,
    /// The session is to end.
    Shutdown,
}

/// What a relay session asks its surroundings to do.
#[derive(Clone, Copy, Debug, PartialEq, Eq, Structural)]
pub enum SigAction {
    /// Wait `after_secs` seconds, then try to link to the endpoint at
    /// place `endpoint` of the configured list.
    Connect { endpoint: usize, after_secs: u64 },
    /// Hand the ICE servers of the relay to the orchestrator, then send
    /// the first announcement.
    Greet,
    /// Hand the local address that the relay assigned to the orchestrator.
    Publish,
    /// Send an announcement.
    Demo,
    /// Nothing.
    Idle,
    /// End the session.
    Stop,
}

/// Twice `secs`, but no more than [`BACKOFF_CAP_SECS`].
pub open spec fn doubled(secs: u64) -> u64 {
    if 2 * secs > BACKOFF_CAP_SECS {
        BACKOFF_CAP_SECS
    } else {
        (2 * secs) as u64
    }
}

/// The backoff after `fails` failed attempts in a row that began with a
/// backoff of `start` seconds.
pub open spec fn backoff_after(start: u64, fails: nat) -> u64
    decreases fails,
{
    if fails == 0 {
        start
    } else {
        doubled(backoff_after(start, (fails - 1) as nat))
    }
}

/// What a [`Sig`] holds.
pub struct SigView {
    /// Number of configured endpoints.
    pub endpoints: usize,
    /// Place of the endpoint that the next attempt goes to.
    pub cursor: usize,
    /// Seconds of backoff after the last failure.
    pub backoff: u64,
    pub phase: SigPhase,
}

impl SigView {
    /// There is an endpoint, the cursor points at one, and the backoff is
    /// within its bounds.
    pub open spec fn wf(self) -> bool {
        &&& 0 < self.endpoints
        &&& self.cursor < self.endpoints
        &&& BACKOFF_START_SECS <= self.backoff <= BACKOFF_CAP_SECS
    }

    /// The place after the cursor, going round.
    pub open spec fn next_cursor(self) -> usize {
        if self.cursor + 1 < self.endpoints {
            (self.cursor + 1) as usize
        } else {
            0
        }
    }

    /// The session as it begins an attempt at the endpoint under the cursor.
    pub open spec fn attempt(self, backoff: u64) -> SigView {
        SigView { cursor: self.next_cursor(), backoff, phase: SigPhase::Connecting, ..self }
    }

    /// The session after `evt`.
    pub open spec fn step(self, evt: SigEvent) -> SigView {
        match (self.phase, evt) {
            (SigPhase::Stopped, _) => self,
            (_, SigEvent::Shutdown) => SigView { phase: SigPhase::Stopped, ..self },
            (SigPhase::Disconnected, SigEvent::Start) => self.attempt(self.backoff),
            (SigPhase::Connecting, SigEvent::ConnectFailed) => self.attempt(doubled(self.backoff)),
            (SigPhase::Connecting, SigEvent::Connected) => SigView {
                backoff: BACKOFF_FLOOR_SECS,
                phase: SigPhase::Greeting,
                ..self
            },
            (SigPhase::Greeting, SigEvent::DemoSent) => SigView { phase: SigPhase::Linked, ..self },
            (SigPhase::Greeting, SigEvent::LinkLost) => self.attempt(self.backoff),
            (SigPhase::Linked, SigEvent::LinkLost) => self.attempt(self.backoff),
            _ => self,
        }
    }

    /// The action that answers `evt`.
    pub open spec fn action(self, evt: SigEvent) -> SigAction {
        match (self.phase, evt) {
            (SigPhase::Stopped, _) => SigAction::Idle,
            (_, SigEvent::Shutdown) => SigAction::Stop,
            (SigPhase::Disconnected, SigEvent::Start) => SigAction::Connect {
                endpoint: self.cursor,
                after_secs: 0,
            },
            (SigPhase::Connecting, SigEvent::ConnectFailed) => SigAction::Connect {
                endpoint: self.cursor,
                after_secs: doubled(self.backoff),
            },
            (SigPhase::Connecting, SigEvent::Connected) => SigAction::Greet,
            (SigPhase::Greeting, SigEvent::DemoSent) => SigAction::Publish,
            (SigPhase::Greeting, SigEvent::LinkLost) => SigAction::Connect {
                endpoint: self.cursor,
                after_secs: 0,
            },
            (SigPhase::Linked, SigEvent::LinkLost) => SigAction::Connect {
                endpoint: self.cursor,
                after_secs: 0,
            },
            (SigPhase::Linked, SigEvent::DemoDue) => SigAction::Demo,
            _ => SigAction::Idle,
        }
    }

    /// The session after each of `events`, in turn.
    pub open spec fn run(self, events: Seq<SigEvent>) -> SigView
        decreases events.len(),
    {
        if events.len() == 0 {
            self
        } else {
            self.run(events.drop_last()).step(events.last())
        }
    }
}

/// The relay session.
pub struct Sig {
    endpoints: usize,
    cursor: usize,
    backoff: u64,
    phase: SigPhase,
}

impl View for Sig {
    type V = SigView;

    closed spec fn view(&self) -> SigView {
        SigView {
            endpoints: self.endpoints,
            cursor: self.cursor,
            backoff: self.backoff,
            phase: self.phase,
        }
    }
}

impl Sig {
    #[verifier::type_invariant]
    spec fn inv(&self) -> bool {
        self@.wf()
    }

    /// A session over a list of `endpoints` relay endpoints, which must
    /// not be empty. It is disconnected, its first attempt goes to the
    /// first endpoint, and its backoff is [`BACKOFF_START_SECS`].
    pub fn new(endpoints: usize) -> (sig: Sig)
        requires
            endpoints > 0,
        ensures
            sig@ == (SigView {
                endpoints,
                cursor: 0,
                backoff: BACKOFF_START_SECS,
                phase: SigPhase::Disconnected,
            }),
            sig@.wf(),
    {
        Sig { endpoints, cursor: 0, backoff: BACKOFF_START_SECS, phase: SigPhase::Disconnected }
    }

    /// Where the session stands.
    pub fn phase(&self) -> (phase: SigPhase)
        ensures
            phase == self@.phase,
            self@.wf(),
    {
        proof {
            use_type_invariant(self);
        }
        self.phase
    }

    /// Seconds of backoff after the last failure.
    pub fn backoff_secs(&self) -> (secs: u64)
        ensures
            secs == self@.backoff,
            self@.wf(),
    {
        proof {
            use_type_invariant(self);
        }
        self.backoff
    }

    /// Begins an attempt at the endpoint under the cursor, to start after
    /// `after_secs` seconds, with `backoff` as the new backoff.
    fn attempt(&mut self, backoff: u64, after_secs: u64) -> (action: SigAction)
        requires
            BACKOFF_START_SECS <= backoff <= BACKOFF_CAP_SECS,
        ensures
            final(self)@ == old(self)@.attempt(backoff),
            final(self)@.wf(),
            action == (SigAction::Connect { endpoint: old(self)@.cursor, after_secs }),
    {
        proof {
            use_type_invariant(&*self);
        }
        let endpoint = self.cursor;
        self.backoff = backoff;
        self.phase = SigPhase::Connecting;
        if self.cursor + 1 < self.endpoints {
            self.cursor = self.cursor + 1;
        } else {
            self.cursor = 0;
        }
        SigAction::Connect { endpoint, after_secs }
    }

    /// Takes one event and returns the action that answers it.
    ///
    /// A start, a failed attempt and a lost link each lead to an attempt
    /// at the next endpoint, going round the list. Only a failed attempt
    /// waits first: it doubles the backoff, up to [`BACKOFF_CAP_SECS`],
    /// and waits that long. A link that stands sets the backoff to
    /// [`BACKOFF_FLOOR_SECS`]. An event that does not fit the phase is
    /// passed over, and so is every event after a shutdown.
    pub fn step(&mut self, evt: SigEvent) -> (action: SigAction)
        ensures
            final(self)@ == old(self)@.step(evt),
            action == old(self)@.action(evt),
            final(self)@.wf(),
            final(self)@.endpoints == old(self)@.endpoints,
    {
        proof {
            use_type_invariant(&*self);
        }
        match (self.phase, evt) {
            (SigPhase::Stopped, _) => SigAction::Idle,
            (_, SigEvent::Shutdown) => {
                self.phase = SigPhase::Stopped;
                SigAction::Stop
            },
            (SigPhase::Disconnected, SigEvent::Start) => {
                let backoff = self.backoff;
                self.attempt(backoff, 0)
            },
            (SigPhase::Connecting, SigEvent::ConnectFailed) => {
                let backoff = if self.backoff > BACKOFF_CAP_SECS / 2 {
                    BACKOFF_CAP_SECS
                } else {
                    self.backoff * 2
                };
                self.attempt(backoff, backoff)
            },
            (SigPhase::Connecting, SigEvent::Connected) => {
                self.backoff = BACKOFF_FLOOR_SECS;
                self.phase = SigPhase::Greeting;
                SigAction::Greet
            },
            (SigPhase::Greeting, SigEvent::DemoSent) => {
                self.phase = SigPhase::Linked;
                SigAction::Publish
            },
            (SigPhase::Greeting, SigEvent::LinkLost) | (SigPhase::Linked, SigEvent::LinkLost) => {
                let backoff = self.backoff;
                self.attempt(backoff, 0)
            },
            (SigPhase::Linked, SigEvent::DemoDue) => SigAction::Demo,
            _ => SigAction::Idle,
        }
    }
}

/// Draws a number from `low` up to, but not including, `high`.
///
/// Trusted: calls `rand::Rng::random_range` on the generator that
/// `rand::rng` returns. The contract claims what the documentation of
/// `random_range` says of a half-open range that is not empty: the value
/// lies in the range. Which value comes is left open.
#[verifier::external_body]
fn random_below(low: u64, high: u64) -> (n: u64)
    requires
        low < high,
    ensures
        low <= n < high,
{
    rand::rng().random_range(low..high)
}

/// Seconds to wait before the next announcement: a number drawn anew at
/// each call, at least [`DEMO_MIN_SECS`] and less than [`DEMO_MAX_SECS`].
pub fn demo_delay_secs() -> (secs: u64)
    ensures
        DEMO_MIN_SECS <= secs < DEMO_MAX_SECS,
{
    random_below(DEMO_MIN_SECS, DEMO_MAX_SECS)
}

/// A session that keeps failing to link waits 2, 4, 8, 16 and 32 seconds
/// after its first five failures, and 60 seconds after each later one.
pub proof fn lemma_backoff_doubles(fails: nat)
    ensures
        backoff_after(BACKOFF_START_SECS, fails) == if fails == 0 {
            1u64
        } else if fails == 1 {
            2u64
        } else if fails == 2 {
            4u64
        } else if fails == 3 {
            8u64
        } else if fails == 4 {
            16u64
        } else if fails == 5 {
            32u64
        } else {
            60u64
        },
    decreases fails,
{
    if fails > 0 {
        lemma_backoff_doubles((fails - 1) as nat);
    }
}

/// The events of `fails` failed attempts in a row.
pub open spec fn failures(fails: nat) -> Seq<SigEvent> {
    Seq::new(fails, |i: int| SigEvent::ConnectFailed)
}

/// While attempts fail one after the other, each failure doubles the
/// backoff up to the cap and moves the cursor one endpoint on, going
/// round; the link that then stands sets the backoff to the floor.
pub proof fn lemma_failures(s: SigView, fails: nat)
    requires
        s.wf(),
        s.phase is Connecting,
    ensures
        s.run(failures(fails)).wf(),
        s.run(failures(fails)).phase is Connecting,
        s.run(failures(fails)).endpoints == s.endpoints,
        s.run(failures(fails)).backoff == backoff_after(s.backoff, fails),
        s.run(failures(fails)).cursor == (s.cursor + fails) % (s.endpoints as int),
        s.run(failures(fails)).step(SigEvent::Connected).backoff == BACKOFF_FLOOR_SECS,
        s.run(failures(fails)).step(SigEvent::Connected).phase is Greeting,
    decreases fails,
{
    if fails == 0 {
        assert(failures(0).len() == 0);
        assert(s.cursor % s.endpoints == s.cursor) by (nonlinear_arith)
            requires
                0 <= s.cursor < s.endpoints,
        ;
    } else {
        let before = (fails - 1) as nat;
        lemma_failures(s, before);
        assert(failures(fails).drop_last() =~= failures(before));
        let mid = s.run(failures(before));
        let n = s.endpoints as int;
        let c = s.cursor as int + before;
        assert(mid.cursor == c % n);
        assert((c + 1) % n == if c % n + 1 < n {
            c % n + 1
        } else {
            0
        }) by (nonlinear_arith)
            requires
                n > 0,
                c >= 0,
        ;
    }
}

} // verus!
