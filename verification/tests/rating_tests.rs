use tutoring_escrow::errors::EscrowError;
use tutoring_escrow::service::EscrowService;

const PAYER: u64 = 1;
const PAYEE: u64 = 2;

// Opens and settles one escrow so that ratings for `sid` are authorized.
fn released_session(s: &mut EscrowService, sid: &str) {
    s.fund_account(PAYER, 100).unwrap();
    s.open_escrow(String::from(sid), PAYER, PAYEE, 100, 0).unwrap();
    let key = String::from(sid);
    s.confirm(&key, PAYER, true, 10).unwrap();
    s.confirm(&key, PAYER, false, 20).unwrap();
    s.settle(&key, PAYER, 30).unwrap();
}

#[test]
fn rating_score_must_be_one_to_five() {
    let mut s = EscrowService::new();
    released_session(&mut s, "S1");
    let sid = String::from("S1");
    assert_eq!(
        s.submit_rating(&sid, PAYER, PAYEE, 0, String::from("x"), 40),
        Err(EscrowError::InvalidScore)
    );
    assert_eq!(
        s.submit_rating(&sid, PAYER, PAYEE, 6, String::from("x"), 40),
        Err(EscrowError::InvalidScore)
    );
    assert!(s.get_aggregate(PAYEE).is_none());
}

#[test]
fn rating_requires_a_released_escrow() {
    let mut s = EscrowService::new();
    let sid = String::from("S1");
    // no escrow for the session at all
    assert_eq!(
        s.submit_rating(&sid, PAYER, PAYEE, 5, String::from("x"), 40),
        Err(EscrowError::PaymentNotReleased)
    );
    // a locked escrow is not released either
    s.fund_account(PAYER, 100).unwrap();
    s.open_escrow(sid.clone(), PAYER, PAYEE, 100, 0).unwrap();
    assert_eq!(
        s.submit_rating(&sid, PAYER, PAYEE, 5, String::from("x"), 40),
        Err(EscrowError::PaymentNotReleased)
    );
    // nor a cancelled one
    s.cancel(&sid, PAYER, PAYER).unwrap();
    assert_eq!(
        s.submit_rating(&sid, PAYER, PAYEE, 5, String::from("x"), 40),
        Err(EscrowError::PaymentNotReleased)
    );
    assert!(s.get_aggregate(PAYEE).is_none());
}

#[test]
fn only_the_payer_may_rate() {
    let mut s = EscrowService::new();
    released_session(&mut s, "S1");
    let sid = String::from("S1");
    assert_eq!(
        s.submit_rating(&sid, PAYEE, PAYEE, 5, String::from("x"), 40),
        Err(EscrowError::Unauthorized)
    );
    assert!(s.get_aggregate(PAYEE).is_none());
}

#[test]
fn second_rating_per_session_is_a_duplicate() {
    let mut s = EscrowService::new();
    released_session(&mut s, "S1");
    let sid = String::from("S1");
    assert_eq!(s.submit_rating(&sid, PAYER, PAYEE, 4, String::from("good"), 40), Ok(()));
    assert_eq!(
        s.submit_rating(&sid, PAYER, PAYEE, 1, String::from("changed my mind"), 50),
        Err(EscrowError::DuplicateRating)
    );
    // the aggregate absorbed the score exactly once
    let agg = s.get_aggregate(PAYEE).unwrap();
    assert_eq!(agg.total_count, 1);
    assert_eq!(agg.total_score_sum, 4);
    assert_eq!(agg.average_scaled, 400);
}

#[test]
fn average_of_five_three_four_is_four() {
    let mut s = EscrowService::new();
    released_session(&mut s, "S1");
    released_session(&mut s, "S2");
    released_session(&mut s, "S3");
    s.submit_rating(&String::from("S1"), PAYER, PAYEE, 5, String::from("a"), 40).unwrap();
    s.submit_rating(&String::from("S2"), PAYER, PAYEE, 3, String::from("b"), 41).unwrap();
    s.submit_rating(&String::from("S3"), PAYER, PAYEE, 4, String::from("c"), 42).unwrap();
    let agg = s.get_aggregate(PAYEE).unwrap();
    assert_eq!(agg.total_count, 3);
    assert_eq!(agg.total_score_sum, 12);
    // (5 + 3 + 4) / 3 = 4.0, scaled by 100
    assert_eq!(agg.average_scaled, 400);
}

#[test]
fn aggregates_are_kept_per_payee() {
    let mut s = EscrowService::new();
    released_session(&mut s, "S1");
    // a second session pays a different payee
    s.fund_account(PAYER, 100).unwrap();
    s.open_escrow(String::from("S2"), PAYER, 9, 100, 0).unwrap();
    let sid2 = String::from("S2");
    s.confirm(&sid2, PAYER, true, 10).unwrap();
    s.confirm(&sid2, PAYER, false, 20).unwrap();
    s.settle(&sid2, PAYER, 30).unwrap();
    s.submit_rating(&String::from("S1"), PAYER, PAYEE, 2, String::from("a"), 40).unwrap();
    s.submit_rating(&sid2, PAYER, 9, 5, String::from("b"), 41).unwrap();
    assert_eq!(s.get_aggregate(PAYEE).unwrap().average_scaled, 200);
    assert_eq!(s.get_aggregate(9).unwrap().average_scaled, 500);
    assert!(s.get_aggregate(3).is_none());
}
