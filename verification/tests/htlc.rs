use betswap::escrow::EscrowError;
use betswap::htlc::HtlcContract;

const ABC_LOCK: &str = "ungWv48Bz+pBQUDeXa4iI7ADYaOWF3qctBD/YfIAFa0=";

fn name(s: &str) -> String {
    s.to_string()
}

/// A ledger with contract `htlc-0`: 25 from alice to bob, locked to the
/// digest of "abc" until 2000.
fn ledger() -> HtlcContract {
    let mut c = HtlcContract::new();
    let id = c
        .create_htlc(name("bob.near"), name(ABC_LOCK), 2000, &name("alice.near"), 25, 1000)
        .unwrap();
    assert_eq!(id, "htlc-0");
    c
}

#[test]
fn htlc_ids_count_up_and_are_listed_in_order() {
    let mut c = ledger();
    for expected in ["htlc-1", "htlc-2"] {
        let id = c
            .create_htlc(name("bob.near"), name(ABC_LOCK), 2000, &name("alice.near"), 1, 1000)
            .unwrap();
        assert_eq!(id, expected);
    }
    assert_eq!(c.list_htlcs(), vec![name("htlc-0"), name("htlc-1"), name("htlc-2")]);
    assert!(HtlcContract::new().list_htlcs().is_empty());
}

#[test]
fn htlc_details() {
    let c = ledger();
    let d = c.get_details(name("htlc-0")).unwrap();
    assert_eq!(d, (name("alice.near"), name("bob.near"), 25, name(ABC_LOCK), 2000, false));
    assert!(c.get_details(name("htlc-1")).is_none());
    assert!(c.get_details(name("htlc-00")).is_none());
}

#[test]
fn create_htlc_rejects_bad_terms() {
    let mut c = HtlcContract::new();
    let alice = name("alice.near");
    assert_eq!(
        c.create_htlc(name("bob"), name(ABC_LOCK), 2000, &alice, 0, 1000),
        Err(EscrowError::InvalidAmount)
    );
    assert_eq!(
        c.create_htlc(name("bob"), name("not base64!"), 2000, &alice, 1, 1000),
        Err(EscrowError::InvalidHashlock)
    );
    // well-formed base64 of three bytes
    assert_eq!(
        c.create_htlc(name("bob"), name("YWJj"), 2000, &alice, 1, 1000),
        Err(EscrowError::InvalidHashlock)
    );
    // the padding is missing
    assert_eq!(
        c.create_htlc(name("bob"), name(&ABC_LOCK[..43]), 2000, &alice, 1, 1000),
        Err(EscrowError::InvalidHashlock)
    );
    assert_eq!(
        c.create_htlc(name("bob"), name(ABC_LOCK), 1000, &alice, 1, 1000),
        Err(EscrowError::InvalidTimelock)
    );
    assert!(c.list_htlcs().is_empty());
    assert_eq!(c.create_htlc(name("bob"), name(ABC_LOCK), 1001, &alice, 1, 1000), Ok(name("htlc-0")));
}

#[test]
fn hash_lock_is_checked_against_the_decoded_bytes() {
    let mut c = HtlcContract::new();
    let alice = name("alice.near");
    let r = c.create_htlc_with_hashlock(name("bob"), name("x"), Some(vec![0; 32]), 9, &alice, 1, 1);
    assert_eq!(r, Ok(name("htlc-0")));
    let r = c.create_htlc_with_hashlock(name("bob"), name("x"), Some(vec![0; 31]), 9, &alice, 1, 1);
    assert_eq!(r, Err(EscrowError::InvalidHashlock));
    let r = c.create_htlc_with_hashlock(name("bob"), name("x"), None, 9, &alice, 1, 1);
    assert_eq!(r, Err(EscrowError::InvalidHashlock));
}

#[test]
fn claim_pays_the_receiver_once() {
    let mut c = ledger();
    let t = c.claim(name("htlc-0"), name("abc"), 1500).unwrap();
    assert_eq!(t.receiver, "bob.near");
    assert_eq!(t.amount, 25);
    assert_eq!(t.token, "near");
    assert!(c.get_details(name("htlc-0")).unwrap().5);
    assert_eq!(c.claim(name("htlc-0"), name("abc"), 1500).err(), Some(EscrowError::AlreadySettled));
    assert_eq!(
        c.refund(name("htlc-0"), &name("alice.near"), 2500).err(),
        Some(EscrowError::AlreadySettled)
    );
}

#[test]
fn claim_failures() {
    let mut c = ledger();
    assert_eq!(c.claim(name("htlc-0"), name("abd"), 1500).err(), Some(EscrowError::PreimageMismatch));
    assert_eq!(c.claim(name("htlc-0"), name(""), 1500).err(), Some(EscrowError::PreimageMismatch));
    assert_eq!(c.claim(name("htlc-0"), name("abc"), 2000).err(), Some(EscrowError::Expired));
    assert_eq!(c.claim(name("htlc-9"), name("abc"), 1500).err(), Some(EscrowError::NotFound));
    assert!(!c.get_details(name("htlc-0")).unwrap().5);
    assert!(c.claim(name("htlc-0"), name("abc"), 1999).is_ok());
}

#[test]
fn claim_with_hash_compares_the_text() {
    let mut c = ledger();
    let r = c.claim_with_hash(name("htlc-0"), &name("abc"), 1500);
    assert_eq!(r.err(), Some(EscrowError::PreimageMismatch));
    assert!(c.claim_with_hash(name("htlc-0"), &name(ABC_LOCK), 1500).is_ok());
}

#[test]
fn refund_returns_the_deposit_once() {
    let mut c = ledger();
    let alice = name("alice.near");
    assert_eq!(c.refund(name("htlc-0"), &alice, 1999).err(), Some(EscrowError::NotYetExpired));
    assert_eq!(c.refund(name("htlc-0"), &name("bob.near"), 2000).err(), Some(EscrowError::Unauthorized));
    assert_eq!(c.refund(name("htlc-7"), &alice, 2000).err(), Some(EscrowError::NotFound));
    let t = c.refund(name("htlc-0"), &alice, 2000).unwrap();
    assert_eq!(t.receiver, "alice.near");
    assert_eq!(t.amount, 25);
    assert_eq!(c.refund(name("htlc-0"), &alice, 2001).err(), Some(EscrowError::AlreadySettled));
    assert_eq!(c.claim(name("htlc-0"), name("abc"), 1500).err(), Some(EscrowError::AlreadySettled));
}
