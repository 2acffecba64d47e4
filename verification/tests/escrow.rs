use betswap::escrow::{Contract, Escrow, EscrowError, EscrowState, JsonAccountId, LockMsg};

const SECRET_HEX: &str = "2bb80d537b1da3e38bd30361aa855686bde0eacd7162fef6a25fe97bf527a25b";

fn secret_digest() -> Vec<u8> {
    vec![
        0x2b, 0xb8, 0x0d, 0x53, 0x7b, 0x1d, 0xa3, 0xe3, 0x8b, 0xd3, 0x03, 0x61, 0xaa, 0x85, 0x56,
        0x86, 0xbd, 0xe0, 0xea, 0xcd, 0x71, 0x62, 0xfe, 0xf6, 0xa2, 0x5f, 0xe9, 0x7b, 0xf5, 0x27,
        0xa2, 0x5b,
    ]
}

fn account(name: &str) -> JsonAccountId {
    JsonAccountId::new(name.to_string())
}

fn name(s: &str) -> String {
    s.to_string()
}

fn lock_msg(hashlock: &str, timelock: u64, resolver: Option<&str>) -> LockMsg {
    LockMsg {
        hashlock: hashlock.to_string(),
        timelock,
        dest_chain: "ethereum".to_string(),
        dest_user: "0xabc".to_string(),
        min_return: "1".to_string(),
        output_token: "usdc".to_string(),
        resolver_id: resolver.map(account),
    }
}

/// A ledger with one lock: exclusive until 1100, recoverable from 1200.
fn ledger_with_lock(resolver: Option<&str>) -> Contract {
    let mut c = Contract::new();
    let id = c
        .create_lock(
            account("maker.near"),
            Some(account("receiver.near")),
            resolver.map(account),
            account("token.near"),
            500,
            secret_digest(),
            Some(1100),
            1200,
            1000,
        )
        .unwrap();
    assert_eq!(id, 0);
    c
}

#[test]
fn json_account_id_round_trips() {
    let a = JsonAccountId::new(name("alice.near"));
    assert_eq!(a.inner(), "alice.near");
    assert!(a.is(&name("alice.near")));
    assert!(!a.is(&name("bob.near")));
    assert_eq!(a.clone().into_inner(), "alice.near");
}

#[test]
fn create_lock_assigns_sequential_ids() {
    let mut c = Contract::default();
    for expected in 0..3u64 {
        let id = c
            .create_lock(
                account("maker.near"),
                None,
                None,
                account("token.near"),
                1,
                secret_digest(),
                None,
                10,
                5,
            )
            .unwrap();
        assert_eq!(id, expected);
    }
    assert!(c.get_escrow(2).is_some());
    assert!(c.get_escrow(3).is_none());
}

#[test]
fn create_lock_stores_the_terms() {
    let c = ledger_with_lock(Some("resolver.near"));
    let e: Escrow = c.get_escrow(0).unwrap();
    assert_eq!(e.sender.inner(), "maker.near");
    assert_eq!(e.receiver.unwrap().inner(), "receiver.near");
    assert_eq!(e.resolver.unwrap().inner(), "resolver.near");
    assert_eq!(e.token.inner(), "token.near");
    assert_eq!(e.amount, 500);
    assert_eq!(e.hashlock, secret_digest());
    assert_eq!(e.timelock_exclusive, Some(1100));
    assert_eq!(e.timelock_recovery, 1200);
    assert_eq!(e.state, EscrowState::Open);
}

#[test]
fn create_lock_rejects_zero_amount() {
    let mut c = Contract::new();
    let r = c.create_lock(
        account("m"),
        None,
        None,
        account("t"),
        0,
        secret_digest(),
        None,
        10,
        5,
    );
    assert_eq!(r, Err(EscrowError::InvalidAmount));
    assert!(c.get_escrow(0).is_none());
}

#[test]
fn create_lock_rejects_short_hashlock() {
    let mut c = Contract::new();
    let r = c.create_lock(account("m"), None, None, account("t"), 1, vec![7u8; 31], None, 10, 5);
    assert_eq!(r, Err(EscrowError::InvalidHashlock));
    let r = c.create_lock(account("m"), None, None, account("t"), 1, vec![7u8; 33], None, 10, 5);
    assert_eq!(r, Err(EscrowError::InvalidHashlock));
}

#[test]
fn create_lock_rejects_recovery_not_in_future() {
    let mut c = Contract::new();
    let r =
        c.create_lock(account("m"), None, None, account("t"), 1, secret_digest(), None, 5, 5);
    assert_eq!(r, Err(EscrowError::InvalidTimelock));
    let r =
        c.create_lock(account("m"), None, None, account("t"), 1, secret_digest(), None, 6, 5);
    assert_eq!(r, Ok(0));
}

#[test]
fn create_lock_rejects_exclusive_after_recovery() {
    let mut c = Contract::new();
    let r = c.create_lock(
        account("m"),
        None,
        None,
        account("t"),
        1,
        secret_digest(),
        Some(11),
        10,
        5,
    );
    assert_eq!(r, Err(EscrowError::InvalidTimelock));
    let r = c.create_lock(
        account("m"),
        None,
        None,
        account("t"),
        1,
        secret_digest(),
        Some(10),
        10,
        5,
    );
    assert_eq!(r, Ok(0));
}

#[test]
fn amount_is_checked_before_hashlock_and_timelock() {
    let mut c = Contract::new();
    let r = c.create_lock(account("m"), None, None, account("t"), 0, vec![], Some(9), 1, 5);
    assert_eq!(r, Err(EscrowError::InvalidAmount));
    let r = c.create_lock(account("m"), None, None, account("t"), 1, vec![], Some(9), 1, 5);
    assert_eq!(r, Err(EscrowError::InvalidHashlock));
}

#[test]
fn deposit_decodes_hex_hashlock_and_halves_the_window() {
    let mut c = Contract::new();
    let id = c
        .ft_on_transfer(
            account("maker.near"),
            77,
            lock_msg(SECRET_HEX, 200, Some("resolver.near")),
            account("token.near"),
            1000,
        )
        .unwrap();
    assert_eq!(id, 0);
    let e = c.get_escrow(0).unwrap();
    assert_eq!(e.hashlock, secret_digest());
    assert_eq!(e.timelock_exclusive, Some(1100));
    assert_eq!(e.timelock_recovery, 1200);
    assert_eq!(e.sender.inner(), "maker.near");
    assert_eq!(e.token.inner(), "token.near");
    assert!(e.receiver.is_none());
    assert_eq!(e.resolver.unwrap().inner(), "resolver.near");
    assert_eq!(e.amount, 77);
}

#[test]
fn deposit_accepts_upper_case_hex() {
    let mut c = Contract::new();
    let upper = SECRET_HEX.to_uppercase();
    assert_eq!(
        c.ft_on_transfer(account("m"), 1, lock_msg(&upper, 10, None), account("t"), 0),
        Ok(0)
    );
    assert_eq!(c.get_escrow(0).unwrap().hashlock, secret_digest());
}

#[test]
fn deposit_rejects_bad_hashlock_text() {
    let mut c = Contract::new();
    let odd = &SECRET_HEX[..63];
    assert_eq!(
        c.ft_on_transfer(account("m"), 1, lock_msg(odd, 10, None), account("t"), 0),
        Err(EscrowError::InvalidHashlock)
    );
    let short = &SECRET_HEX[..62];
    assert_eq!(
        c.ft_on_transfer(account("m"), 1, lock_msg(short, 10, None), account("t"), 0),
        Err(EscrowError::InvalidHashlock)
    );
    let not_hex = format!("{}zz", &SECRET_HEX[..62]);
    assert_eq!(
        c.ft_on_transfer(account("m"), 1, lock_msg(&not_hex, 10, None), account("t"), 0),
        Err(EscrowError::InvalidHashlock)
    );
    assert!(c.get_escrow(0).is_none());
}

#[test]
fn deposit_rejects_zero_amount_and_bad_timelock() {
    let mut c = Contract::new();
    assert_eq!(
        c.ft_on_transfer(account("m"), 0, lock_msg("xx", 0, None), account("t"), 0),
        Err(EscrowError::InvalidAmount)
    );
    assert_eq!(
        c.ft_on_transfer(account("m"), 1, lock_msg(SECRET_HEX, 0, None), account("t"), 0),
        Err(EscrowError::InvalidTimelock)
    );
    assert_eq!(
        c.ft_on_transfer(account("m"), 1, lock_msg(SECRET_HEX, 2, None), account("t"), u64::MAX - 1),
        Err(EscrowError::InvalidTimelock)
    );
    assert_eq!(
        c.ft_on_transfer(account("m"), 1, lock_msg(SECRET_HEX, 1, None), account("t"), u64::MAX - 1),
        Ok(0)
    );
}

#[test]
fn exclusive_window_end_to_end() {
    // exclusive until now+100, recoverable from now+200
    let mut c = ledger_with_lock(Some("resolver.near"));
    let r = c.withdraw(0, name("secret"), &name("stranger.near"), 1050);
    assert_eq!(r.err(), Some(EscrowError::Unauthorized));
    assert_eq!(c.get_escrow(0).unwrap().state, EscrowState::Open);
    let t = c.withdraw(0, name("secret"), &name("resolver.near"), 1050).unwrap();
    assert_eq!(t.token, "token.near");
    assert_eq!(t.receiver, "resolver.near");
    assert_eq!(t.amount, 500);
    assert_eq!(c.get_escrow(0).unwrap().state, EscrowState::Claimed);
    for now in [1050u64, 1150, 1250] {
        let again = c.withdraw(0, name("secret"), &name("resolver.near"), now);
        assert_eq!(again.err(), Some(EscrowError::AlreadySettled));
        let other = c.withdraw(0, name("secret"), &name("stranger.near"), now);
        assert_eq!(other.err(), Some(EscrowError::AlreadySettled));
    }
}

#[test]
fn claim_with_wrong_preimage_is_a_mismatch() {
    let mut c = ledger_with_lock(Some("resolver.near"));
    let r = c.withdraw(0, name("Secret"), &name("resolver.near"), 1050);
    assert_eq!(r.err(), Some(EscrowError::PreimageMismatch));
    let r = c.withdraw(0, name(""), &name("resolver.near"), 1050);
    assert_eq!(r.err(), Some(EscrowError::PreimageMismatch));
    assert_eq!(c.get_escrow(0).unwrap().state, EscrowState::Open);
}

#[test]
fn mismatch_is_reported_before_settled_and_expired() {
    let mut c = ledger_with_lock(None);
    c.withdraw(0, name("secret"), &name("anyone.near"), 1150).unwrap();
    let r = c.withdraw(0, name("wrong"), &name("anyone.near"), 5000);
    assert_eq!(r.err(), Some(EscrowError::PreimageMismatch));
}

#[test]
fn claim_without_resolver_is_refused_in_exclusive_window() {
    let mut c = ledger_with_lock(None);
    let r = c.withdraw(0, name("secret"), &name("receiver.near"), 1099);
    assert_eq!(r.err(), Some(EscrowError::Unauthorized));
}

#[test]
fn anyone_may_claim_from_end_of_exclusive_window() {
    let mut c = ledger_with_lock(Some("resolver.near"));
    let t = c.withdraw(0, name("secret"), &name("stranger.near"), 1100).unwrap();
    assert_eq!(t.receiver, "resolver.near");
}

#[test]
fn claim_pays_receiver_when_no_resolver() {
    let mut c = ledger_with_lock(None);
    let t = c.withdraw(0, name("secret"), &name("stranger.near"), 1199).unwrap();
    assert_eq!(t.receiver, "receiver.near");
}

#[test]
fn claim_falls_back_to_maker() {
    let mut c = Contract::new();
    c.create_lock(account("maker.near"), None, None, account("t"), 9, secret_digest(), None, 10, 5)
        .unwrap();
    let t = c.withdraw(0, name("secret"), &name("x"), 6).unwrap();
    assert_eq!(t.receiver, "maker.near");
    assert_eq!(t.amount, 9);
}

#[test]
fn resolver_without_window_is_exclusive_until_recovery() {
    let mut c = Contract::new();
    c.create_lock(
        account("maker.near"),
        None,
        Some(account("resolver.near")),
        account("t"),
        9,
        secret_digest(),
        None,
        10,
        5,
    )
    .unwrap();
    let r = c.withdraw(0, name("secret"), &name("x"), 9);
    assert_eq!(r.err(), Some(EscrowError::Unauthorized));
    assert!(c.withdraw(0, name("secret"), &name("resolver.near"), 9).is_ok());
}

#[test]
fn claim_expires_at_recovery_time() {
    let mut c = ledger_with_lock(Some("resolver.near"));
    let r = c.withdraw(0, name("secret"), &name("resolver.near"), 1200);
    assert_eq!(r.err(), Some(EscrowError::Expired));
    let mut c = ledger_with_lock(Some("resolver.near"));
    assert!(c.withdraw(0, name("secret"), &name("resolver.near"), 1199).is_ok());
}

#[test]
fn claim_with_digest_matches_claim_with_preimage() {
    let mut c = ledger_with_lock(Some("resolver.near"));
    let t = c.withdraw_with_digest(0, &secret_digest(), &name("resolver.near"), 1000).unwrap();
    assert_eq!(t.amount, 500);
    let mut c = ledger_with_lock(Some("resolver.near"));
    let zero = vec![0u8; 32];
    let r = c.withdraw_with_digest(0, &zero, &name("resolver.near"), 1000);
    assert_eq!(r.err(), Some(EscrowError::PreimageMismatch));
}

#[test]
fn unknown_lock_is_not_found() {
    let mut c = ledger_with_lock(None);
    let who = name("maker.near");
    assert_eq!(c.withdraw(1, name("secret"), &who, 1150).err(), Some(EscrowError::NotFound));
    assert_eq!(c.refund(1, &who, 1300).err(), Some(EscrowError::NotFound));
    assert_eq!(c.register_resolver(1, &who), Err(EscrowError::NotFound));
    assert_eq!(c.refund(u64::MAX, &who, 1300).err(), Some(EscrowError::NotFound));
}

#[test]
fn refund_window() {
    let mut c = ledger_with_lock(Some("resolver.near"));
    let maker = name("maker.near");
    assert_eq!(c.refund(0, &maker, 1199).err(), Some(EscrowError::NotYetExpired));
    assert_eq!(c.refund(0, &name("resolver.near"), 1200).err(), Some(EscrowError::Unauthorized));
    let t = c.refund(0, &maker, 1200).unwrap();
    assert_eq!(t.receiver, "maker.near");
    assert_eq!(t.token, "token.near");
    assert_eq!(t.amount, 500);
    assert_eq!(c.get_escrow(0).unwrap().state, EscrowState::Refunded);
    assert_eq!(c.refund(0, &maker, 1201).err(), Some(EscrowError::AlreadySettled));
    assert_eq!(
        c.withdraw(0, name("secret"), &name("resolver.near"), 1201).err(),
        Some(EscrowError::AlreadySettled)
    );
}

#[test]
fn not_yet_expired_is_reported_before_unauthorized() {
    let mut c = ledger_with_lock(None);
    assert_eq!(c.refund(0, &name("stranger"), 1000).err(), Some(EscrowError::NotYetExpired));
}

#[test]
fn refund_after_claim_is_already_settled() {
    let mut c = ledger_with_lock(Some("resolver.near"));
    c.withdraw(0, name("secret"), &name("resolver.near"), 1000).unwrap();
    for now in [1000u64, 1200, 9999] {
        assert_eq!(c.refund(0, &name("maker.near"), now).err(), Some(EscrowError::AlreadySettled));
    }
}

#[test]
fn first_resolver_assignment_wins() {
    let mut c = ledger_with_lock(None);
    assert_eq!(c.register_resolver(0, &name("first.near")), Ok(()));
    assert_eq!(c.register_resolver(0, &name("second.near")), Ok(()));
    assert_eq!(c.register_resolver(0, &name("first.near")), Ok(()));
    assert_eq!(c.get_escrow(0).unwrap().resolver.unwrap().inner(), "first.near");
    let r = c.withdraw(0, name("secret"), &name("second.near"), 1050);
    assert_eq!(r.err(), Some(EscrowError::Unauthorized));
    let t = c.withdraw(0, name("secret"), &name("first.near"), 1050).unwrap();
    assert_eq!(t.receiver, "first.near");
}

#[test]
fn locks_are_independent() {
    let mut c = ledger_with_lock(None);
    c.create_lock(account("m2"), None, None, account("t2"), 3, secret_digest(), None, 2000, 1000)
        .unwrap();
    c.refund(0, &name("maker.near"), 1500).unwrap();
    let second = c.get_escrow(1).unwrap();
    assert_eq!(second.state, EscrowState::Open);
    assert_eq!(second.amount, 3);
    assert!(c.withdraw(1, name("secret"), &name("x"), 1500).is_ok());
    assert_eq!(c.get_escrow(0).unwrap().state, EscrowState::Refunded);
}

#[test]
fn escrow_entity_settles_once() {
    let mut e = Escrow::open(
        account("maker.near"),
        None,
        Some(account("resolver.near")),
        account("t"),
        4,
        secret_digest(),
        Some(10),
        20,
        0,
    )
    .unwrap();
    assert!(e.exclusive_at(9));
    assert!(!e.exclusive_at(10));
    assert!(e.is_resolver(&name("resolver.near")));
    assert_eq!(e.beneficiary(), "resolver.near");
    assert_eq!(e.claim(&name("nope"), &name("resolver.near"), 5).err(), Some(EscrowError::PreimageMismatch));
    assert!(e.claim(&name("secret"), &name("resolver.near"), 5).is_ok());
    assert_eq!(e.state, EscrowState::Claimed);
    assert_eq!(e.refund(&name("maker.near"), 25).err(), Some(EscrowError::AlreadySettled));
    assert_eq!(
        e.claim(&name("secret"), &name("resolver.near"), 5).err(),
        Some(EscrowError::AlreadySettled)
    );
    assert_eq!(e.state, EscrowState::Claimed);
}
