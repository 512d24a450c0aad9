use tutoring_escrow::errors::EscrowError;
use tutoring_escrow::registry::UniquenessRegistry;

#[test]
fn claim_succeeds_once_per_key() {
    let mut reg = UniquenessRegistry::new();
    assert!(!reg.is_claimed(&String::from("payer@example.edu")));
    assert_eq!(reg.claim(String::from("payer@example.edu")), Ok(()));
    assert!(reg.is_claimed(&String::from("payer@example.edu")));
    assert_eq!(
        reg.claim(String::from("payer@example.edu")),
        Err(EscrowError::AlreadyClaimed)
    );
}

#[test]
fn claims_of_different_keys_never_conflict() {
    let mut reg = UniquenessRegistry::new();
    assert_eq!(reg.claim(String::from("wallet-a")), Ok(()));
    assert_eq!(reg.claim(String::from("wallet-b")), Ok(()));
    assert_eq!(reg.claim(String::from("wallet-c")), Ok(()));
    assert!(reg.is_claimed(&String::from("wallet-b")));
    assert!(!reg.is_claimed(&String::from("wallet-d")));
    assert_eq!(reg.claim(String::from("wallet-b")), Err(EscrowError::AlreadyClaimed));
}
