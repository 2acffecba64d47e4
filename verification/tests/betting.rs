use betswap::betting::{
    analyze_oracle_digest, calculate_confidence, verify_near_signature, BetError, BetSwapAI,
    TEEConfig,
};

fn name(s: &str) -> String {
    s.to_string()
}

fn tee() -> TEEConfig {
    TEEConfig { enclave_id: name("e"), attestation: name("a"), is_verified: true }
}

fn engine_with_event() -> BetSwapAI {
    let mut b = BetSwapAI::new();
    b.create_bet_event(name("match-1"), name("home wins"), 5000);
    b
}

#[test]
fn new_event_is_open_and_empty() {
    let b = engine_with_event();
    let e = b.get_bet_event(name("match-1")).unwrap();
    assert_eq!(e.description, "home wins");
    assert_eq!(e.end_time, 5000);
    assert!(!e.resolved);
    assert!(!e.outcome);
    assert_eq!(e.total_bets, 0);
    assert_eq!(e.user_bets.len(), 0);
    assert!(b.get_bet_event(name("match-2")).is_none());
}

#[test]
fn bets_add_to_the_total_and_earn_a_hundredth() {
    let mut b = engine_with_event();
    let alice = name("alice.near");
    let bob = name("bob.near");
    assert_eq!(b.place_bet(name("match-1"), 250, true, &alice), Ok(()));
    assert_eq!(b.place_bet(name("match-1"), 1000, false, &bob), Ok(()));
    assert_eq!(b.place_bet(name("match-1"), 99, true, &alice), Ok(()));
    assert_eq!(b.get_bet_event(name("match-1")).unwrap().total_bets, 1349);
    assert_eq!(b.get_user_bet(name("match-1"), alice.clone()), 99);
    assert_eq!(b.get_user_bet(name("match-1"), bob.clone()), 1000);
    assert_eq!(b.get_user_bet(name("match-1"), name("carol")), 0);
    assert_eq!(b.get_user_bet(name("match-2"), alice.clone()), 0);
    assert_eq!(b.get_user_rewards(alice), 2);
    assert_eq!(b.get_user_rewards(bob), 10);
}

#[test]
fn bet_failures() {
    let mut b = engine_with_event();
    let alice = name("alice.near");
    assert_eq!(b.place_bet(name("nope"), 0, true, &alice), Err(BetError::EventNotFound));
    assert_eq!(b.place_bet(name("match-1"), 0, true, &alice), Err(BetError::InvalidAmount));
    assert_eq!(b.place_bet(name("match-1"), u128::MAX, true, &alice), Ok(()));
    assert_eq!(b.place_bet(name("match-1"), 1, true, &alice), Err(BetError::Overflow));
    assert_eq!(b.get_bet_event(name("match-1")).unwrap().total_bets, u128::MAX);
    assert_eq!(b.get_user_bet(name("match-1"), alice.clone()), u128::MAX);
    b.predict_outcome_with_ai(name("match-1"), name("abc"), 9);
    assert_eq!(b.place_bet(name("match-1"), 0, true, &alice), Err(BetError::EventResolved));
}

#[test]
fn rewards_overflow_is_refused_without_effect() {
    let mut b = BetSwapAI::new();
    let alice = name("alice.near");
    for i in 0..100 {
        b.create_bet_event(format!("e{}", i), name("d"), 1);
        assert_eq!(b.place_bet(format!("e{}", i), u128::MAX, true, &alice), Ok(()));
    }
    b.create_bet_event(name("last"), name("d"), 1);
    assert_eq!(b.place_bet(name("last"), u128::MAX, true, &alice), Err(BetError::Overflow));
    assert_eq!(b.get_bet_event(name("last")).unwrap().total_bets, 0);
    assert_eq!(b.get_user_rewards(alice), u128::MAX / 100 * 100);
}

#[test]
fn claim_rewards_pays_out_once() {
    let mut b = engine_with_event();
    let alice = name("alice.near");
    assert_eq!(b.claim_rewards(&alice), Err(BetError::NoRewards));
    b.place_bet(name("match-1"), 99, true, &alice).unwrap();
    assert_eq!(b.claim_rewards(&alice), Err(BetError::NoRewards));
    b.place_bet(name("match-1"), 12_345, true, &alice).unwrap();
    assert_eq!(b.claim_rewards(&alice), Ok(123));
    assert_eq!(b.get_user_rewards(alice.clone()), 0);
    assert_eq!(b.claim_rewards(&alice), Err(BetError::NoRewards));
}

#[test]
fn cross_chain_bet_id_joins_event_user_and_time() {
    let mut b = engine_with_event();
    let id = b
        .place_cross_chain_bet(name("match-1"), 5, true, name("0xabc"), &name("alice.near"), 1234)
        .unwrap();
    assert_eq!(id, "match-1_alice.near_1234");
    let r = b.place_cross_chain_bet(name("m"), 5, true, name("0x"), &name("a"), u64::MAX - 3599);
    assert_eq!(r, Err(BetError::Overflow));
    let r = b.place_cross_chain_bet(name("m"), 5, true, name("0x"), &name("a"), u64::MAX - 3600);
    assert_eq!(r, Ok(format!("m_a_{}", u64::MAX - 3600)));
}

#[test]
fn prediction_reads_the_digest() {
    let mut b = engine_with_event();
    // SHA-256 of "abc" starts with 0xba, 0x78
    let p = b.predict_outcome_with_ai(name("match-1"), name("abc"), 77);
    assert_eq!(p.event_id, "match-1");
    assert!(p.predicted_outcome);
    assert_eq!(p.confidence, 47);
    assert_eq!(p.oracle_data, "abc");
    assert_eq!(p.timestamp, 77);
    let e = b.get_bet_event(name("match-1")).unwrap();
    assert!(e.resolved);
    assert!(e.outcome);
    let stored = b.get_ai_prediction(name("match-1")).unwrap();
    assert_eq!(stored.confidence, 47);
    // SHA-256 of "alice.near" starts with 0x2d, 0xd5
    let p = b.predict_outcome_with_ai(name("other"), name("alice.near"), 78);
    assert!(!p.predicted_outcome);
    assert_eq!(p.confidence, 83);
    assert!(b.get_bet_event(name("other")).is_none());
    assert!(b.get_ai_prediction(name("other")).is_some());
    assert!(b.get_ai_prediction(name("nothing")).is_none());
}

#[test]
fn digest_readings() {
    let mut d = vec![0u8; 32];
    assert!(analyze_oracle_digest(&d));
    assert_eq!(calculate_confidence(&d), 0);
    d[0] = 1;
    d[1] = 255;
    assert!(!analyze_oracle_digest(&d));
    assert_eq!(calculate_confidence(&d), 100);
    d[1] = 254;
    assert_eq!(calculate_confidence(&d), 99);
    d[1] = 3;
    assert_eq!(calculate_confidence(&d), 1);
    d[1] = 2;
    assert_eq!(calculate_confidence(&d), 0);
}

#[test]
fn solver_bookkeeping() {
    let mut b = BetSwapAI::new();
    let solver = name("solver.near");
    assert_eq!(b.get_solver_reputation(solver.clone()), 0);
    b.register_solver(solver.clone(), 1, 2, 3, tee());
    assert_eq!(b.get_solver_reputation(solver.clone()), 100);
    assert_eq!(b.request_bet_swap_quote(name("near"), name("eth"), 5, 9), "quote_1");
    assert_eq!(b.request_bet_swap_quote(name("near"), name("eth"), 5, 9), "quote_2");
    let order = b
        .generate_bet_swap_quote(name("quote_1"), 10, name("intent"), name("sig"), &solver)
        .unwrap();
    assert_eq!(order, "order_1");
    assert_eq!(b.get_solver_reputation(solver.clone()), 110);
    assert_eq!(b.execute_bet_meta_order(name("order_1"), name("s"), &solver), Ok(true));
    assert_eq!(b.get_solver_reputation(solver.clone()), 130);
    assert_eq!(b.execute_bet_meta_order(name("order_9"), name("s"), &solver), Ok(false));
    assert_eq!(b.get_solver_reputation(solver.clone()), 130);
    let unsigned = b
        .generate_bet_swap_quote(name("quote_2"), 10, name("intent"), name(""), &solver)
        .unwrap();
    assert_eq!(unsigned, "order_2");
    assert_eq!(
        b.execute_bet_meta_order(unsigned, name("s"), &solver),
        Err(BetError::InvalidSignature)
    );
    assert_eq!(b.get_solver_reputation(solver), 140);
    // an unregistered caller starts from zero
    let other = name("other.near");
    b.generate_bet_swap_quote(name("quote_1"), 10, name("i"), name("s"), &other).unwrap();
    assert_eq!(b.get_solver_reputation(other), 10);
}

#[test]
fn bet_signature_stub() {
    assert!(verify_near_signature(&name("s"), &name("i")));
    assert!(!verify_near_signature(&name(""), &name("i")));
    assert!(!verify_near_signature(&name("s"), &name("")));
}
