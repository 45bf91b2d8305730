use rpc_cache::backend::{
    backend_replied, Attempt, BackendStep, Flight, Verdict, MAX_ATTEMPTS, RETRY_DELAY_MILLIS,
};
use rpc_cache::error::Reply;
use rpc_cache::types::Pubkey;

#[test]
fn ten_attempts_are_made() {
    assert_eq!((MAX_ATTEMPTS, RETRY_DELAY_MILLIS), (10, 100));
    let mut flight = Flight::new();
    for _ in 0..9 {
        assert_eq!(flight.attempted(Attempt::BodyFailed), Verdict::Retry);
    }
    assert_eq!(flight.attempts_left(), 1);
    assert_eq!(flight.attempted(Attempt::BodyFailed), Verdict::GiveUp);
    assert_eq!(flight.attempts_left(), 0);
}

#[test]
fn an_answer_is_delivered_even_by_the_last_attempt() {
    let mut flight = Flight::new();
    for _ in 0..9 {
        assert_eq!(flight.attempted(Attempt::BodyFailed), Verdict::Retry);
    }
    assert_eq!(flight.attempted(Attempt::BodyRead), Verdict::Deliver);
}

#[test]
fn an_unreachable_backend_is_not_asked_again() {
    assert_eq!(Flight::new().attempted(Attempt::SendFailed), Verdict::Abort);
    assert_eq!(Flight::new().attempted(Attempt::BodyRead), Verdict::Deliver);
}

#[test]
fn replies_are_decoded_only_to_be_kept() {
    let key = Some(Pubkey([1; 32]));
    assert!(matches!(
        backend_replied(key, None),
        BackendStep::Respond(Reply::GatewayTimeout)
    ));
    match backend_replied(key, Some(vec![1, 2])) {
        BackendStep::Decode(body) => assert_eq!(body, [1, 2]),
        BackendStep::Respond(_) => panic!("not decoded"),
    }
    match backend_replied(None, Some(vec![1, 2])) {
        BackendStep::Respond(Reply::Json(body)) => assert_eq!(body, [1, 2]),
        _ => panic!("not handed on"),
    }
}
