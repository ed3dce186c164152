use hc_rtc_demo::sig::demo_delay_secs;
use hc_rtc_demo::sig::Sig;
use hc_rtc_demo::sig::SigAction;
use hc_rtc_demo::sig::SigEvent;
use hc_rtc_demo::sig::SigPhase;
use hc_rtc_demo::sig::BACKOFF_CAP_SECS;
use hc_rtc_demo::sig::BACKOFF_FLOOR_SECS;
use hc_rtc_demo::sig::BACKOFF_START_SECS;

fn connect(endpoint: usize, after_secs: u64) -> SigAction {
    SigAction::Connect { endpoint, after_secs }
}

#[test]
fn backoff_constants() {
    assert_eq!(BACKOFF_START_SECS, 1);
    assert_eq!(BACKOFF_FLOOR_SECS, 2);
    assert_eq!(BACKOFF_CAP_SECS, 60);
}

#[test]
fn new_session_is_disconnected() {
    let sig = Sig::new(3);
    assert_eq!(sig.phase(), SigPhase::Disconnected);
    assert_eq!(sig.backoff_secs(), 1);
}

#[test]
fn backoff_doubles_up_to_sixty() {
    let mut sig = Sig::new(1);
    assert_eq!(sig.step(SigEvent::Start), connect(0, 0));
    let mut waits = Vec::new();
    for _ in 0..8 {
        match sig.step(SigEvent::ConnectFailed) {
            SigAction::Connect { endpoint, after_secs } => {
                assert_eq!(endpoint, 0);
                waits.push(after_secs);
            }
            other => panic!("unexpected {:?}", other),
        }
    }
    assert_eq!(waits, vec![2, 4, 8, 16, 32, 60, 60, 60]);
    assert_eq!(sig.backoff_secs(), 60);
}

#[test]
fn endpoints_go_round() {
    let mut sig = Sig::new(3);
    assert_eq!(sig.step(SigEvent::Start), connect(0, 0));
    assert_eq!(sig.step(SigEvent::ConnectFailed), connect(1, 2));
    assert_eq!(sig.step(SigEvent::ConnectFailed), connect(2, 4));
    assert_eq!(sig.step(SigEvent::ConnectFailed), connect(0, 8));
    assert_eq!(sig.step(SigEvent::ConnectFailed), connect(1, 16));
}

#[test]
fn link_drop_reconnects_at_the_next_endpoint() {
    let mut sig = Sig::new(3);
    assert_eq!(sig.step(SigEvent::Start), connect(0, 0));
    assert_eq!(sig.step(SigEvent::ConnectFailed), connect(1, 2));
    assert_eq!(sig.step(SigEvent::ConnectFailed), connect(2, 4));
    assert_eq!(sig.step(SigEvent::Connected), SigAction::Greet);
    assert_eq!(sig.phase(), SigPhase::Greeting);
    assert_eq!(sig.backoff_secs(), 2);
    assert_eq!(sig.step(SigEvent::DemoSent), SigAction::Publish);
    assert_eq!(sig.phase(), SigPhase::Linked);
    assert_eq!(sig.step(SigEvent::DemoDue), SigAction::Demo);
    assert_eq!(sig.step(SigEvent::DemoSent), SigAction::Idle);

    assert_eq!(sig.step(SigEvent::LinkLost), connect(0, 0));
    assert_eq!(sig.phase(), SigPhase::Connecting);
    assert_eq!(sig.step(SigEvent::ConnectFailed), connect(1, 4));
    assert_eq!(sig.step(SigEvent::ConnectFailed), connect(2, 8));
    assert_eq!(sig.step(SigEvent::Connected), SigAction::Greet);
    assert_eq!(sig.backoff_secs(), 2);
}

#[test]
fn failed_first_announcement_reconnects_at_once() {
    let mut sig = Sig::new(2);
    sig.step(SigEvent::Start);
    assert_eq!(sig.step(SigEvent::Connected), SigAction::Greet);
    assert_eq!(sig.step(SigEvent::LinkLost), connect(1, 0));
    assert_eq!(sig.backoff_secs(), 2);
}

#[test]
fn events_out_of_place_are_passed_over() {
    let mut sig = Sig::new(2);
    assert_eq!(sig.step(SigEvent::DemoDue), SigAction::Idle);
    assert_eq!(sig.step(SigEvent::ConnectFailed), SigAction::Idle);
    assert_eq!(sig.step(SigEvent::Connected), SigAction::Idle);
    assert_eq!(sig.step(SigEvent::LinkLost), SigAction::Idle);
    assert_eq!(sig.phase(), SigPhase::Disconnected);
    assert_eq!(sig.backoff_secs(), 1);
    assert_eq!(sig.step(SigEvent::Start), connect(0, 0));
    assert_eq!(sig.step(SigEvent::Start), SigAction::Idle);
    assert_eq!(sig.step(SigEvent::DemoDue), SigAction::Idle);
    assert_eq!(sig.step(SigEvent::ConnectFailed), connect(1, 2));
}

#[test]
fn shutdown_ends_the_session() {
    let mut sig = Sig::new(2);
    sig.step(SigEvent::Start);
    assert_eq!(sig.step(SigEvent::Shutdown), SigAction::Stop);
    assert_eq!(sig.phase(), SigPhase::Stopped);
    assert_eq!(sig.step(SigEvent::Shutdown), SigAction::Idle);
    assert_eq!(sig.step(SigEvent::Start), SigAction::Idle);
    assert_eq!(sig.step(SigEvent::ConnectFailed), SigAction::Idle);
    assert_eq!(sig.phase(), SigPhase::Stopped);
}

#[test]
fn announcement_delay_is_drawn_between_thirty_and_sixty() {
    let mut seen = Vec::new();
    for _ in 0..400 {
        let secs = demo_delay_secs();
        assert!((30..60).contains(&secs), "{}", secs);
        if !seen.contains(&secs) {
            seen.push(secs);
        }
    }
    assert!(seen.len() > 1);
}
