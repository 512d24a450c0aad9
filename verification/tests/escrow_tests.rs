use tutoring_escrow::errors::EscrowError;
use tutoring_escrow::escrow::CONFIRMATION_WINDOW_SECS;
use tutoring_escrow::escrow::EscrowStatus;
use tutoring_escrow::service::EscrowService;

const PAYER: u64 = 1;
const PAYEE: u64 = 2;

fn funded_service(amount: u64) -> EscrowService {
    let mut s = EscrowService::new();
    s.fund_account(PAYER, amount).unwrap();
    s
}

#[test]
fn open_escrow_locks_funds() {
    let mut s = funded_service(1000);
    let sid = String::from("S1");
    assert_eq!(s.open_escrow(sid.clone(), PAYER, PAYEE, 1000, 0), Ok(()));
    assert_eq!(s.ledger.balance(PAYER), 0);
    assert_eq!(s.ledger.custody, 1000);
    let rec = s.get_escrow(&sid, PAYER).unwrap();
    assert_eq!(rec.status, EscrowStatus::Locked);
    assert_eq!(rec.amount, 1000);
    assert_eq!(rec.confirmation_deadline, CONFIRMATION_WINDOW_SECS);
    assert!(!rec.confirmed_by_payer);
    assert!(!rec.confirmed_by_payee);
}

#[test]
fn second_open_same_key_is_duplicate() {
    let mut s = funded_service(2000);
    let sid = String::from("S1");
    assert_eq!(s.open_escrow(sid.clone(), PAYER, PAYEE, 1000, 0), Ok(()));
    assert_eq!(
        s.open_escrow(sid.clone(), PAYER, PAYEE, 1000, 5),
        Err(EscrowError::DuplicateSession)
    );
    // exactly one success: the funds moved once
    assert_eq!(s.ledger.custody, 1000);
    assert_eq!(s.ledger.balance(PAYER), 1000);
    // the same session under another payer is a different key
    let mut t = EscrowService::new();
    t.fund_account(7, 500).unwrap();
    t.fund_account(8, 500).unwrap();
    assert_eq!(t.open_escrow(String::from("S1"), 7, PAYEE, 500, 0), Ok(()));
    assert_eq!(t.open_escrow(String::from("S1"), 8, PAYEE, 500, 0), Ok(()));
}

#[test]
fn open_escrow_without_funds_fails() {
    let mut s = EscrowService::new();
    assert_eq!(
        s.open_escrow(String::from("S1"), PAYER, PAYEE, 1000, 0),
        Err(EscrowError::InsufficientFunds)
    );
    assert!(s.get_escrow(&String::from("S1"), PAYER).is_none());
    assert_eq!(s.ledger.custody, 0);
}

#[test]
fn confirm_ratchets_status_on_first_confirmation() {
    let mut s = funded_service(1000);
    let sid = String::from("S1");
    s.open_escrow(sid.clone(), PAYER, PAYEE, 1000, 0).unwrap();
    assert_eq!(s.confirm(&sid, PAYER, true, 10), Ok(()));
    let rec = s.get_escrow(&sid, PAYER).unwrap();
    assert_eq!(rec.status, EscrowStatus::AwaitingConfirmation);
    assert!(rec.confirmed_by_payer);
    assert_eq!(rec.payer_confirmed_at, Some(10));
    assert!(!rec.confirmed_by_payee);
    assert_eq!(rec.payee_confirmed_at, None);
}

#[test]
fn confirm_twice_by_same_party_is_rejected() {
    let mut s = funded_service(1000);
    let sid = String::from("S1");
    s.open_escrow(sid.clone(), PAYER, PAYEE, 1000, 0).unwrap();
    assert_eq!(s.confirm(&sid, PAYER, true, 10), Ok(()));
    assert_eq!(s.confirm(&sid, PAYER, true, 20), Err(EscrowError::AlreadyConfirmed));
    // the other party can still confirm, and only once
    assert_eq!(s.confirm(&sid, PAYER, false, 30), Ok(()));
    assert_eq!(s.confirm(&sid, PAYER, false, 40), Err(EscrowError::AlreadyConfirmed));
    let rec = s.get_escrow(&sid, PAYER).unwrap();
    assert_eq!(rec.status, EscrowStatus::AwaitingConfirmation);
    assert_eq!(rec.payee_confirmed_at, Some(30));
}

#[test]
fn confirm_on_missing_escrow_is_invalid_state() {
    let mut s = EscrowService::new();
    assert_eq!(
        s.confirm(&String::from("S1"), PAYER, true, 10),
        Err(EscrowError::InvalidState)
    );
}

#[test]
fn settle_around_the_deadline() {
    let mut s = funded_service(500);
    let sid = String::from("S1");
    s.open_escrow(sid.clone(), PAYER, PAYEE, 500, 100).unwrap();
    let deadline = 100 + CONFIRMATION_WINDOW_SECS;
    // one second before the deadline, with no confirmations: not yet
    assert_eq!(s.settle(&sid, PAYER, deadline - 1), Err(EscrowError::NotYetSettleable));
    assert_eq!(s.get_escrow(&sid, PAYER).unwrap().status, EscrowStatus::Locked);
    // one second after the deadline it succeeds, still with no confirmations
    assert_eq!(s.settle(&sid, PAYER, deadline + 1), Ok(()));
    assert_eq!(s.ledger.balance(PAYEE), 500);
    assert_eq!(s.ledger.custody, 0);
}

#[test]
fn settle_exactly_at_the_deadline_counts_as_passed() {
    let mut s = funded_service(500);
    let sid = String::from("S1");
    s.open_escrow(sid.clone(), PAYER, PAYEE, 500, 100).unwrap();
    assert_eq!(s.settle(&sid, PAYER, 100 + CONFIRMATION_WINDOW_SECS), Ok(()));
    let rec = s.get_escrow(&sid, PAYER).unwrap();
    assert_eq!(rec.status, EscrowStatus::Released);
    assert_eq!(rec.released_at, Some(100 + CONFIRMATION_WINDOW_SECS));
}

#[test]
fn settle_early_once_both_confirmed() {
    let mut s = funded_service(1000);
    let sid = String::from("S1");
    s.open_escrow(sid.clone(), PAYER, PAYEE, 1000, 0).unwrap();
    // one confirmation alone does not settle before the deadline
    s.confirm(&sid, PAYER, true, 10).unwrap();
    assert_eq!(s.settle(&sid, PAYER, 20), Err(EscrowError::NotYetSettleable));
    // the second confirmation settles it long before the deadline
    s.confirm(&sid, PAYER, false, 30).unwrap();
    assert_eq!(s.settle(&sid, PAYER, 40), Ok(()));
    assert_eq!(s.ledger.balance(PAYEE), 1000);
}

#[test]
fn settled_escrow_is_terminal() {
    let mut s = funded_service(1000);
    let sid = String::from("S1");
    s.open_escrow(sid.clone(), PAYER, PAYEE, 1000, 0).unwrap();
    s.confirm(&sid, PAYER, true, 10).unwrap();
    s.confirm(&sid, PAYER, false, 20).unwrap();
    assert_eq!(s.settle(&sid, PAYER, 30), Ok(()));
    assert_eq!(s.settle(&sid, PAYER, 40), Err(EscrowError::AlreadySettled));
    assert_eq!(s.cancel(&sid, PAYER, PAYER), Err(EscrowError::InvalidState));
    assert_eq!(s.confirm(&sid, PAYER, true, 50), Err(EscrowError::InvalidState));
    // the custody invariant: nothing outstanding, nothing held
    assert_eq!(s.ledger.custody, 0);
    assert_eq!(s.ledger.balance(PAYEE), 1000);
}

#[test]
fn settle_on_missing_escrow_is_already_settled() {
    let mut s = EscrowService::new();
    assert_eq!(
        s.settle(&String::from("S1"), PAYER, 10),
        Err(EscrowError::AlreadySettled)
    );
}

#[test]
fn cancel_refunds_the_payer() {
    let mut s = funded_service(1000);
    let sid = String::from("S1");
    s.open_escrow(sid.clone(), PAYER, PAYEE, 1000, 0).unwrap();
    assert_eq!(s.ledger.balance(PAYER), 0);
    assert_eq!(s.cancel(&sid, PAYER, PAYER), Ok(()));
    assert_eq!(s.ledger.balance(PAYER), 1000);
    assert_eq!(s.ledger.custody, 0);
    let rec = s.get_escrow(&sid, PAYER).unwrap();
    assert_eq!(rec.status, EscrowStatus::Cancelled);
    assert_eq!(rec.released_at, None);
    // cancelled is terminal
    assert_eq!(s.cancel(&sid, PAYER, PAYER), Err(EscrowError::InvalidState));
    assert_eq!(s.settle(&sid, PAYER, 10), Err(EscrowError::AlreadySettled));
}

#[test]
fn cancel_by_anyone_but_the_payer_is_unauthorized() {
    let mut s = funded_service(1000);
    let sid = String::from("S1");
    s.open_escrow(sid.clone(), PAYER, PAYEE, 1000, 0).unwrap();
    assert_eq!(s.cancel(&sid, PAYER, PAYEE), Err(EscrowError::Unauthorized));
    assert_eq!(s.get_escrow(&sid, PAYER).unwrap().status, EscrowStatus::Locked);
}

#[test]
fn failed_payout_leaves_the_escrow_untouched() {
    let mut s = funded_service(1000);
    // the payee's balance cannot take one more unit
    s.fund_account(PAYEE, u64::MAX).unwrap();
    let sid = String::from("S1");
    s.open_escrow(sid.clone(), PAYER, PAYEE, 1000, 0).unwrap();
    s.confirm(&sid, PAYER, true, 10).unwrap();
    s.confirm(&sid, PAYER, false, 20).unwrap();
    assert_eq!(s.settle(&sid, PAYER, 30), Err(EscrowError::TransferFailed));
    // settlement and payout are atomic: the record did not advance
    let rec = s.get_escrow(&sid, PAYER).unwrap();
    assert_eq!(rec.status, EscrowStatus::AwaitingConfirmation);
    assert_eq!(rec.released_at, None);
    assert_eq!(s.ledger.custody, 1000);
    assert_eq!(s.ledger.balance(PAYEE), u64::MAX);
}

#[test]
fn zero_amount_escrow_moves_nothing() {
    let mut s = EscrowService::new();
    let sid = String::from("S0");
    assert_eq!(s.open_escrow(sid.clone(), PAYER, PAYEE, 0, 0), Ok(()));
    assert_eq!(s.ledger.custody, 0);
    s.confirm(&sid, PAYER, true, 1).unwrap();
    s.confirm(&sid, PAYER, false, 2).unwrap();
    assert_eq!(s.settle(&sid, PAYER, 3), Ok(()));
    assert_eq!(s.ledger.balance(PAYEE), 0);
    assert_eq!(s.get_escrow(&sid, PAYER).unwrap().status, EscrowStatus::Released);
}

#[test]
fn funding_cannot_overflow_a_balance() {
    let mut s = EscrowService::new();
    s.fund_account(PAYER, u64::MAX).unwrap();
    assert_eq!(s.fund_account(PAYER, 1), Err(EscrowError::TransferFailed));
    assert_eq!(s.ledger.balance(PAYER), u64::MAX);
}

#[test]
fn full_session_scenario() {
    // open escrow for session "S1", payer confirms, payee confirms, settle,
    // then the payer files a 5: the payee holds the amount and a clean 5.0
    let mut s = EscrowService::new();
    s.fund_account(PAYER, 1000).unwrap();
    let sid = String::from("S1");
    assert_eq!(s.open_escrow(sid.clone(), PAYER, PAYEE, 1000, 0), Ok(()));
    assert_eq!(s.confirm(&sid, PAYER, true, 10), Ok(()));
    assert_eq!(s.confirm(&sid, PAYER, false, 20), Ok(()));
    assert_eq!(s.settle(&sid, PAYER, 25), Ok(()));
    assert_eq!(s.get_escrow(&sid, PAYER).unwrap().status, EscrowStatus::Released);
    assert_eq!(s.ledger.balance(PAYEE), 1000);
    assert_eq!(
        s.submit_rating(&sid, PAYER, PAYEE, 5, String::from("great session"), 30),
        Ok(())
    );
    let agg = s.get_aggregate(PAYEE).unwrap();
    assert_eq!(agg.total_count, 1);
    assert_eq!(agg.total_score_sum, 5);
    assert_eq!(agg.average_scaled, 500);
}
