use hc_rtc_demo::id::Id;
use hc_rtc_demo::id::PeerId;
use hc_rtc_demo::msg::DemoMsg;
use hc_rtc_demo::state::BlockReason;
use hc_rtc_demo::state::PeerState;
use hc_rtc_demo::state::State;
use hc_rtc_demo::state::BLOCK_COOLDOWN_SECS;
use hc_rtc_demo::state::DONE_COOLDOWN_SECS;
use hc_rtc_demo::state::MAX_CON;

fn id(b: u8) -> Id {
    Id { bytes: [b; 32] }
}

fn peer(b: u8) -> PeerId {
    PeerId { rem_id: id(b), rem_pk: id(b.wrapping_add(100)) }
}

fn table() -> State {
    State::new("n".to_string(), "s".to_string())
}

#[test]
fn cooldowns_are_sixty_and_three_hundred_seconds() {
    assert_eq!(DONE_COOLDOWN_SECS, 60);
    assert_eq!(BLOCK_COOLDOWN_SECS, 300);
    assert_eq!(MAX_CON, 10);
}

#[test]
fn discover_makes_one_discovered_record() {
    let mut s = table();
    let p = peer(1);
    s.discover(5, p.rem_id, p.rem_pk);
    assert_eq!(s.len(), 1);
    assert_eq!(s.state_of(&p), Some(PeerState::Discovered));
    let r = s.get(&p).unwrap();
    assert_eq!(r.id, p);
    assert_eq!(r.last_touch, 5);
    assert_eq!(r.friendly_name, None);
    assert_eq!(r.shoutout, None);
}

#[test]
fn discover_again_changes_nothing() {
    let mut s = table();
    let p = peer(1);
    s.discover(5, p.rem_id, p.rem_pk);
    s.discover(9, p.rem_id, p.rem_pk);
    s.discover(2, p.rem_id, p.rem_pk);
    assert_eq!(s.len(), 1);
    assert_eq!(s.state_of(&p), Some(PeerState::Discovered));
    assert_eq!(s.get(&p).unwrap().last_touch, 5);
}

#[test]
fn discover_does_not_reset_a_negotiation() {
    let mut s = table();
    let p = peer(1);
    assert!(s.check_want_incoming(1, p));
    s.discover(2, p.rem_id, p.rem_pk);
    assert_eq!(s.len(), 1);
    assert_eq!(s.state_of(&p), Some(PeerState::ConnectingIn));
    assert_eq!(s.get(&p).unwrap().last_touch, 1);
}

#[test]
fn discover_passes_over_the_local_identity() {
    let mut s = table();
    s.discover(1, Id::zero(), Id::zero());
    assert_eq!(s.len(), 0);
    let me = peer(7);
    s.set_loc(me.rem_id, me.rem_pk);
    assert!(s.is_loc(&me));
    s.discover(2, me.rem_id, me.rem_pk);
    assert_eq!(s.len(), 0);
    s.discover(3, Id::zero(), Id::zero());
    assert_eq!(s.len(), 1);
}

#[test]
fn identities_differ_by_either_half() {
    let mut s = table();
    s.discover(1, id(1), id(2));
    s.discover(1, id(1), id(3));
    s.discover(1, id(4), id(2));
    assert_eq!(s.len(), 3);
    assert_eq!(s.state_of(&PeerId { rem_id: id(4), rem_pk: id(3) }), None);
}

#[test]
fn outgoing_promotes_in_table_order() {
    let mut s = table();
    for b in 1..=3u8 {
        s.discover(b as u64, peer(b).rem_id, peer(b).rem_pk);
    }
    let out = s.check_want_outgoing(10, 2);
    assert_eq!(out, vec![peer(1), peer(2)]);
    assert_eq!(s.state_of(&peer(1)), Some(PeerState::ConnectingOut));
    assert_eq!(s.state_of(&peer(2)), Some(PeerState::ConnectingOut));
    assert_eq!(s.state_of(&peer(3)), Some(PeerState::Discovered));
    assert_eq!(s.get(&peer(1)).unwrap().last_touch, 10);
    assert_eq!(s.get(&peer(3)).unwrap().last_touch, 3);
}

#[test]
fn outgoing_repeated_stays_within_the_cap() {
    let mut s = table();
    for b in 1..=25u8 {
        s.discover(0, peer(b).rem_id, peer(b).rem_pk);
    }
    let first = s.check_want_outgoing(1, MAX_CON);
    assert_eq!(first.len(), 10);
    for t in 2..20u64 {
        assert_eq!(s.check_want_outgoing(t, MAX_CON), vec![]);
    }
    let mut in_flight = 0;
    for b in 1..=25u8 {
        if s.state_of(&peer(b)) == Some(PeerState::ConnectingOut) {
            in_flight += 1;
        }
    }
    assert_eq!(in_flight, 10);
}

#[test]
fn outgoing_counts_incoming_and_connected() {
    let mut s = table();
    assert!(s.check_want_incoming(0, peer(1)));
    assert!(s.check_want_incoming(0, peer(2)));
    assert!(s.connected(1, peer(2)));
    for b in 3..=6u8 {
        s.discover(0, peer(b).rem_id, peer(b).rem_pk);
    }
    let out = s.check_want_outgoing(2, 3);
    assert_eq!(out, vec![peer(3)]);
    assert_eq!(s.check_want_outgoing(3, 3), vec![]);
    assert_eq!(s.check_want_outgoing(3, 2), vec![]);
    assert_eq!(s.check_want_outgoing(3, 0), vec![]);
    assert_eq!(s.check_want_outgoing(4, 5), vec![peer(4), peer(5)]);
}

#[test]
fn outgoing_with_more_in_flight_than_the_cap() {
    let mut s = table();
    for b in 1..=4u8 {
        assert!(s.check_want_incoming(0, peer(b)));
    }
    s.discover(0, peer(9).rem_id, peer(9).rem_pk);
    assert_eq!(s.check_want_outgoing(1, 2), vec![]);
    assert_eq!(s.state_of(&peer(9)), Some(PeerState::Discovered));
}

#[test]
fn blocked_peer_waits_three_hundred_seconds() {
    let mut s = table();
    let p = peer(1);
    s.con_done(1000, p, true, Some(BlockReason::Misbehaved));
    assert_eq!(
        s.state_of(&p),
        Some(PeerState::Blocked { reason: BlockReason::Misbehaved, until: 1300 })
    );
    assert_eq!(s.check_want_outgoing(1299, MAX_CON), vec![]);
    assert_eq!(
        s.state_of(&p),
        Some(PeerState::Blocked { reason: BlockReason::Misbehaved, until: 1300 })
    );
    assert_eq!(s.get(&p).unwrap().last_touch, 1000);
    assert_eq!(s.check_want_outgoing(1300, MAX_CON), vec![p]);
    assert_eq!(s.state_of(&p), Some(PeerState::ConnectingOut));
    assert_eq!(s.get(&p).unwrap().last_touch, 1300);
}

#[test]
fn done_peer_waits_sixty_seconds() {
    let mut s = table();
    let p = peer(1);
    s.con_done(1000, p, false, None);
    assert_eq!(s.state_of(&p), Some(PeerState::Done));
    assert_eq!(s.check_want_outgoing(1059, MAX_CON), vec![]);
    assert_eq!(s.state_of(&p), Some(PeerState::Done));
    assert_eq!(s.check_want_outgoing(1060, MAX_CON), vec![p]);
    assert_eq!(s.state_of(&p), Some(PeerState::ConnectingOut));
}

#[test]
fn cooled_peer_is_discovered_again_when_no_slot_is_free() {
    let mut s = table();
    assert!(s.check_want_incoming(0, peer(1)));
    s.con_done(0, peer(2), true, None);
    s.con_done(0, peer(3), false, None);
    assert_eq!(s.check_want_outgoing(500, 1), vec![]);
    assert_eq!(s.state_of(&peer(2)), Some(PeerState::Discovered));
    assert_eq!(s.state_of(&peer(3)), Some(PeerState::Discovered));
    assert_eq!(s.get(&peer(2)).unwrap().last_touch, 500);
}

#[test]
fn clock_that_runs_backwards_frees_nobody() {
    let mut s = table();
    s.con_done(1000, peer(1), false, None);
    s.con_done(1000, peer(2), true, None);
    assert_eq!(s.check_want_outgoing(10, MAX_CON), vec![]);
    assert_eq!(s.state_of(&peer(1)), Some(PeerState::Done));
}

#[test]
fn block_near_the_end_of_the_clock_never_ends() {
    let mut s = table();
    let p = peer(1);
    s.con_done(u64::MAX - 10, p, true, None);
    assert_eq!(
        s.state_of(&p),
        Some(PeerState::Blocked { reason: BlockReason::Unspecified, until: u64::MAX })
    );
    assert_eq!(s.check_want_outgoing(u64::MAX, MAX_CON), vec![]);
    let q = peer(2);
    s.con_done(u64::MAX - 300, q, true, None);
    assert_eq!(s.check_want_outgoing(u64::MAX, MAX_CON), vec![q]);
}

#[test]
fn incoming_is_accepted_once() {
    let mut s = table();
    let p = peer(1);
    assert!(s.check_want_incoming(3, p));
    assert_eq!(s.state_of(&p), Some(PeerState::ConnectingIn));
    assert_eq!(s.get(&p).unwrap().last_touch, 3);
    assert!(!s.check_want_incoming(4, p));
    assert_eq!(s.get(&p).unwrap().last_touch, 3);
    assert!(s.connected(5, p));
    assert!(!s.check_want_incoming(6, p));
    s.con_done(7, p, false, None);
    assert!(!s.check_want_incoming(8, p));
    assert_eq!(s.check_want_outgoing(67, 0), vec![]);
    assert_eq!(s.state_of(&p), Some(PeerState::Discovered));
    assert!(s.check_want_incoming(68, p));
    assert_eq!(s.len(), 1);
}

#[test]
fn incoming_from_a_discovered_peer_is_accepted() {
    let mut s = table();
    let p = peer(1);
    s.discover(1, p.rem_id, p.rem_pk);
    assert!(s.check_want_incoming(2, p));
    assert_eq!(s.state_of(&p), Some(PeerState::ConnectingIn));
    assert_eq!(s.get(&p).unwrap().last_touch, 2);
}

#[test]
fn incoming_is_refused_while_we_offer_or_block() {
    let mut s = table();
    s.discover(1, peer(1).rem_id, peer(1).rem_pk);
    assert_eq!(s.check_want_outgoing(2, MAX_CON), vec![peer(1)]);
    assert!(!s.check_want_incoming(3, peer(1)));
    assert_eq!(s.state_of(&peer(1)), Some(PeerState::ConnectingOut));
    s.con_done(4, peer(2), true, None);
    assert!(!s.check_want_incoming(5, peer(2)));
}

#[test]
fn con_done_twice_leaves_one_record() {
    let mut s = table();
    let p = peer(1);
    s.con_done(10, p, false, None);
    s.con_done(10, p, false, None);
    assert_eq!(s.len(), 1);
    assert_eq!(s.state_of(&p), Some(PeerState::Done));
    s.con_done(20, p, true, Some(BlockReason::NegotiationFailed));
    assert_eq!(s.len(), 1);
    assert_eq!(
        s.state_of(&p),
        Some(PeerState::Blocked { reason: BlockReason::NegotiationFailed, until: 320 })
    );
    assert_eq!(s.get(&p).unwrap().last_touch, 20);
    s.con_done(30, p, false, Some(BlockReason::Misbehaved));
    assert_eq!(s.len(), 1);
    assert_eq!(s.state_of(&p), Some(PeerState::Done));
    assert_eq!(s.get(&p).unwrap().last_touch, 30);
}

#[test]
fn con_done_keeps_metadata_and_other_records() {
    let mut s = table();
    s.contact(1, peer(1), "ann".to_string(), "hi".to_string());
    s.discover(2, peer(2).rem_id, peer(2).rem_pk);
    s.con_done(3, peer(1), true, None);
    assert_eq!(s.len(), 2);
    let r = s.get(&peer(1)).unwrap();
    assert_eq!(r.friendly_name, Some("ann".to_string()));
    assert_eq!(r.shoutout, Some("hi".to_string()));
    assert_eq!(r.state, PeerState::Blocked { reason: BlockReason::Unspecified, until: 303 });
    assert_eq!(s.state_of(&peer(2)), Some(PeerState::Discovered));
    assert_eq!(s.get(&peer(2)).unwrap().last_touch, 2);
}

#[test]
fn contact_sets_metadata_and_keeps_the_state() {
    let mut s = table();
    let p = peer(1);
    assert!(s.check_want_incoming(1, p));
    s.contact(9, p, "bob".to_string(), "yo".to_string());
    let r = s.get(&p).unwrap();
    assert_eq!(r.state, PeerState::ConnectingIn);
    assert_eq!(r.last_touch, 9);
    assert_eq!(r.friendly_name, Some("bob".to_string()));
    assert_eq!(r.shoutout, Some("yo".to_string()));
    assert_eq!(s.len(), 1);
}

#[test]
fn contact_makes_a_discovered_record() {
    let mut s = table();
    s.contact(4, peer(1), "a".to_string(), "b".to_string());
    assert_eq!(s.state_of(&peer(1)), Some(PeerState::Discovered));
    assert_eq!(s.get(&peer(1)).unwrap().last_touch, 4);
}

#[test]
fn contact_restarts_the_rest_of_a_blocked_peer() {
    let mut s = table();
    let p = peer(1);
    s.con_done(100, p, true, Some(BlockReason::Misbehaved));
    s.contact(250, p, "a".to_string(), "b".to_string());
    assert_eq!(
        s.state_of(&p),
        Some(PeerState::Blocked { reason: BlockReason::Misbehaved, until: 550 })
    );
    assert_eq!(s.check_want_outgoing(400, MAX_CON), vec![]);
    assert_eq!(s.check_want_outgoing(549, MAX_CON), vec![]);
    assert_eq!(s.check_want_outgoing(550, MAX_CON), vec![p]);
}

#[test]
fn connected_needs_a_negotiation() {
    let mut s = table();
    let p = peer(1);
    assert!(!s.connected(1, p));
    assert_eq!(s.len(), 0);
    s.discover(1, p.rem_id, p.rem_pk);
    assert!(!s.connected(2, p));
    assert_eq!(s.state_of(&p), Some(PeerState::Discovered));
    assert_eq!(s.check_want_outgoing(3, MAX_CON), vec![p]);
    assert!(s.connected(4, p));
    assert_eq!(s.state_of(&p), Some(PeerState::Connected));
    assert_eq!(s.get(&p).unwrap().last_touch, 4);
    assert!(!s.connected(5, p));
    assert_eq!(s.get(&p).unwrap().last_touch, 4);
}

fn zeros(n: usize) -> Vec<u8> {
    vec![0u8; n]
}

#[test]
fn gen_msg_of_an_empty_table() {
    let s = State::new("ab".to_string(), "xyz".to_string());
    let mut want = zeros(64);
    want[0] = b'a';
    want[1] = b'b';
    want[32] = b'x';
    want[33] = b'y';
    want[34] = b'z';
    assert_eq!(s.gen_msg(), want);
}

#[test]
fn gen_msg_names_peers_that_are_not_blocked() {
    let mut s = State::new("".to_string(), "".to_string());
    s.discover(1, id(1), id(2));
    s.con_done(1, peer(50), true, None);
    s.con_done(1, PeerId { rem_id: id(3), rem_pk: id(4) }, false, None);
    assert!(s.check_want_incoming(1, PeerId { rem_id: id(5), rem_pk: id(6) }));
    let msg = s.gen_msg();
    let mut want = zeros(64);
    for b in [1u8, 2, 3, 4, 5, 6] {
        want.extend_from_slice(&[b; 32]);
    }
    assert_eq!(msg, want);
}

#[test]
fn gen_msg_cuts_long_text() {
    let name = "0123456789012345678901234567890123456789".to_string();
    let shout = "é".repeat(20);
    let s = State::new(name.clone(), shout.clone());
    let msg = s.gen_msg();
    assert_eq!(msg.len(), 64);
    assert_eq!(&msg[0..32], &name.as_bytes()[0..32]);
    assert_eq!(&msg[32..64], &shout.as_bytes()[0..32]);
}

#[test]
fn gen_msg_reads_back() {
    let mut s = State::new("Holochain<3".to_string(), "Holochain rocks!".to_string());
    s.discover(1, id(1), id(2));
    s.con_done(1, peer(9), true, None);
    s.discover(1, id(3), id(4));
    let msg = DemoMsg::parse(&s.gen_msg()).unwrap();
    let mut name = b"Holochain<3".to_vec();
    name.resize(32, 0);
    let mut shout = b"Holochain rocks!".to_vec();
    shout.resize(32, 0);
    assert_eq!(msg.friendly_name, name);
    assert_eq!(msg.shoutout, shout);
    assert_eq!(
        msg.peers,
        vec![PeerId { rem_id: id(1), rem_pk: id(2) }, PeerId { rem_id: id(3), rem_pk: id(4) }]
    );
}
