use std::time::Instant;

use bitbridge::gather::GatherFailure;
use bitbridge::sdp_answer::{answer_offer, channel_plan, finish_answer, gathering_failed, AnswerError, ConnectError};
use str0m::Rtc;

fn offer_sdp() -> String {
    let mut offerer = Rtc::new(Instant::now());
    let mut change = offerer.sdp_api();
    change.add_channel("data".to_string());
    let (offer, _pending) = change.apply().unwrap();
    offer.to_sdp_string()
}

#[test]
fn an_offer_is_answered_and_marked_relay_only_on_request() {
    let offer = format!("{}a=candidate:1 1 udp 2130706431 192.0.2.1 5000 typ host\r\n", offer_sdp());
    let mut rtc = Rtc::new(Instant::now());
    let answer = answer_offer(&mut rtc, &offer, true).0.unwrap().0;
    assert!(answer.starts_with("v=0"));
    assert!(!answer.contains("a=ice-options:trickle\r\n"));

    let mut rtc = Rtc::new(Instant::now());
    let answer = answer_offer(&mut rtc, &offer_sdp(), false).0.unwrap().0;
    assert!(!answer.contains("relay-only"));
}

#[test]
fn text_that_is_no_session_description_is_refused() {
    let mut rtc = Rtc::new(Instant::now());
    assert!(matches!(answer_offer(&mut rtc, "hello", false).0, Err(AnswerError::Sdp)));
    let mut rtc = Rtc::new(Instant::now());
    assert!(matches!(answer_offer(&mut rtc, "a=candidate:1 1 udp 1 192.0.2.1 5000 typ host", true).0, Err(AnswerError::Sdp)));
}

#[test]
fn an_answer_is_marked_relay_only_exactly_for_a_relay_only_client() {
    let raw = "v=0\r\na=ice-options:trickle\r\nm=application 9\r\n";
    assert_eq!(finish_answer(raw, true), "v=0\r\na=ice-options:trickle relay-only\r\nm=application 9\r\n");
    assert_eq!(finish_answer(raw, false), raw);
}

#[test]
fn a_gathering_failure_becomes_a_signalling_error() {
    match gathering_failed(GatherFailure::NoStunBindings) {
        ConnectError::Signalling(m) => assert_eq!(m, "STUN error: no STUN bindings succeeded"),
        other => panic!("unexpected {other:?}"),
    }
    match gathering_failed(GatherFailure::TurnTimedOut) {
        ConnectError::Signalling(m) => assert_eq!(m, "TURN error: TURN gathering timed out after 5s"),
        other => panic!("unexpected {other:?}"),
    }
}

#[test]
fn three_negotiated_channels_are_opened() {
    assert_eq!(
        channel_plan(),
        vec![("reliable", false, 1u16), ("unordered_msg", false, 2u16), ("ordered_msg", true, 3u16)]
    );
    let mut rtc = Rtc::new(Instant::now());
    let (answer, ids) = answer_offer(&mut rtc, &offer_sdp(), false).0.unwrap();
    assert!(answer.starts_with("v=0\r\n"));
    assert!(ids.reliable != ids.ordered_msg);
}
