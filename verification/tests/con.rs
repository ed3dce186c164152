use hc_rtc_demo::con::Con;
use hc_rtc_demo::con::ConAction;
use hc_rtc_demo::con::ConEvent;
use hc_rtc_demo::con::ConPhase;
use hc_rtc_demo::id::Id;
use hc_rtc_demo::id::PeerId;

fn peer() -> PeerId {
    PeerId { rem_id: Id { bytes: [1; 32] }, rem_pk: Id { bytes: [2; 32] } }
}

fn text(s: &str) -> String {
    s.to_string()
}

#[test]
fn new_actor() {
    let con = Con::new(peer(), text("[]"), true);
    assert_eq!(con.id(), peer());
    assert!(con.is_out());
    assert_eq!(con.phase(), ConPhase::New);
}

#[test]
fn start_makes_the_engine_configuration() {
    let mut con = Con::new(peer(), text(" [ {\"urls\": [\"stun:a\"]}, 7 ] "), true);
    assert_eq!(con.step(ConEvent::Prepared), ConAction::Idle);
    assert_eq!(
        con.step(ConEvent::Start),
        ConAction::Prepare(text("{\"iceServers\":[{\"urls\":[\"stun:a\"]},7]}"))
    );
    assert_eq!(con.phase(), ConPhase::Preparing);
    assert_eq!(con.step(ConEvent::Start), ConAction::Idle);
}

#[test]
fn start_without_configuration_ends_the_actor() {
    let mut con = Con::new(peer(), text("[1,"), false);
    assert_eq!(con.step(ConEvent::Start), ConAction::Closed { should_block: false });
    assert_eq!(con.phase(), ConPhase::Closed);
    assert_eq!(con.step(ConEvent::Start), ConAction::Idle);
    assert_eq!(con.step(ConEvent::Shutdown), ConAction::Idle);
}

#[test]
fn begin_takes_the_configuration_as_given() {
    let mut con = Con::new(peer(), text("[]"), true);
    assert_eq!(con.begin(Some(text("conf"))), ConAction::Prepare(text("conf")));
    assert_eq!(con.phase(), ConPhase::Preparing);
    assert_eq!(con.begin(Some(text("conf"))), ConAction::Idle);
    let mut con = Con::new(peer(), text("[]"), true);
    assert_eq!(con.begin(None), ConAction::Closed { should_block: false });
    assert_eq!(con.phase(), ConPhase::Closed);
    assert_eq!(con.begin(None), ConAction::Idle);
}

#[test]
fn offering_side_runs_to_connected_and_closes_clean() {
    let mut con = Con::new(peer(), text("[]"), true);
    assert_eq!(con.step(ConEvent::Start), ConAction::Prepare(text("{\"iceServers\":[]}")));
    assert_eq!(con.step(ConEvent::Prepared), ConAction::CreateOffer);
    assert_eq!(con.phase(), ConPhase::Negotiating);
    assert_eq!(con.step(ConEvent::OfferCreated(text("o"))), ConAction::SendOffer(text("o")));
    assert_eq!(con.step(ConEvent::LocalICE(text("l"))), ConAction::SendICE(text("l")));
    assert_eq!(con.step(ConEvent::Answer(text("a"))), ConAction::ApplyAnswer(text("a")));
    assert_eq!(con.step(ConEvent::ICE(text("c"))), ConAction::AddICE(text("c")));
    assert_eq!(con.step(ConEvent::Connected), ConAction::Opened);
    assert_eq!(con.phase(), ConPhase::Connected);
    assert_eq!(con.step(ConEvent::ICE(text("c2"))), ConAction::AddICE(text("c2")));
    assert_eq!(con.step(ConEvent::Disconnected), ConAction::Closed { should_block: false });
    assert_eq!(con.phase(), ConPhase::Closed);
}

#[test]
fn answering_side_waits_for_the_offer() {
    let mut con = Con::new(peer(), text("[]"), false);
    assert_eq!(con.step(ConEvent::Start), ConAction::Prepare(text("{\"iceServers\":[]}")));
    assert_eq!(con.step(ConEvent::Prepared), ConAction::Idle);
    assert_eq!(con.phase(), ConPhase::AwaitOffer);
    assert_eq!(con.step(ConEvent::ICE(text("early"))), ConAction::Idle);
    assert_eq!(con.step(ConEvent::Offer(text("o"))), ConAction::AcceptOffer(text("o")));
    assert_eq!(con.phase(), ConPhase::Negotiating);
    assert_eq!(con.step(ConEvent::AnswerCreated(text("a"))), ConAction::SendAnswer(text("a")));
    assert_eq!(con.step(ConEvent::Offer(text("again"))), ConAction::Idle);
    assert_eq!(con.step(ConEvent::Connected), ConAction::Opened);
}

#[test]
fn offer_that_comes_early_is_kept() {
    let mut con = Con::new(peer(), text("[]"), false);
    assert_eq!(con.step(ConEvent::Offer(text("first"))), ConAction::Idle);
    assert_eq!(con.step(ConEvent::Start), ConAction::Prepare(text("{\"iceServers\":[]}")));
    assert_eq!(con.step(ConEvent::Offer(text("second"))), ConAction::Idle);
    assert_eq!(con.step(ConEvent::Prepared), ConAction::AcceptOffer(text("second")));
    assert_eq!(con.phase(), ConPhase::Negotiating);
}

#[test]
fn events_for_the_other_role_are_passed_over() {
    let mut con = Con::new(peer(), text("[]"), true);
    con.step(ConEvent::Start);
    assert_eq!(con.step(ConEvent::Offer(text("o"))), ConAction::Idle);
    con.step(ConEvent::Prepared);
    assert_eq!(con.step(ConEvent::Offer(text("o"))), ConAction::Idle);
    assert_eq!(con.step(ConEvent::AnswerCreated(text("a"))), ConAction::Idle);
    assert_eq!(con.phase(), ConPhase::Negotiating);

    let mut con = Con::new(peer(), text("[]"), false);
    con.step(ConEvent::Start);
    con.step(ConEvent::Prepared);
    con.step(ConEvent::Offer(text("o")));
    assert_eq!(con.step(ConEvent::Answer(text("a"))), ConAction::Idle);
    assert_eq!(con.step(ConEvent::OfferCreated(text("o"))), ConAction::Idle);
}

#[test]
fn error_asks_to_block() {
    let mut con = Con::new(peer(), text("[]"), true);
    con.step(ConEvent::Start);
    assert_eq!(con.step(ConEvent::Failed), ConAction::Closed { should_block: true });
    assert_eq!(con.phase(), ConPhase::Closed);

    let mut con = Con::new(peer(), text("[]"), false);
    con.step(ConEvent::Start);
    con.step(ConEvent::Prepared);
    con.step(ConEvent::Offer(text("o")));
    con.step(ConEvent::Connected);
    assert_eq!(con.step(ConEvent::Failed), ConAction::Closed { should_block: true });
}

#[test]
fn shutdown_does_not_ask_to_block() {
    let mut con = Con::new(peer(), text("[]"), true);
    assert_eq!(con.step(ConEvent::Shutdown), ConAction::Closed { should_block: false });
    let mut con = Con::new(peer(), text("[]"), true);
    con.step(ConEvent::Start);
    con.step(ConEvent::Prepared);
    assert_eq!(con.step(ConEvent::Shutdown), ConAction::Closed { should_block: false });
}

#[test]
fn closed_is_said_once() {
    let events = vec![
        ConEvent::Start,
        ConEvent::Prepared,
        ConEvent::Failed,
        ConEvent::Shutdown,
        ConEvent::Disconnected,
        ConEvent::Failed,
        ConEvent::Start,
        ConEvent::Offer(text("o")),
        ConEvent::Connected,
        ConEvent::Shutdown,
    ];
    let mut con = Con::new(peer(), text("[]"), true);
    let mut closed = 0;
    for evt in events {
        match con.step(evt) {
            ConAction::Closed { should_block } => {
                assert!(should_block);
                closed += 1;
            }
            ConAction::Idle | ConAction::Prepare(_) | ConAction::CreateOffer => {}
            other => panic!("unexpected {:?}", other),
        }
    }
    assert_eq!(closed, 1);
    assert_eq!(con.phase(), ConPhase::Closed);
}
