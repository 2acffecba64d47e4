use betswap::auction::{Auction, AuctionError};
use betswap::betting::{bet_id, credit_reward, intent_id, predict, BetError, BetEvent};
use betswap::escrow::{Escrow, EscrowError, EscrowState, JsonAccountId, LockMsg};
use betswap::hashlock::commitment;
use betswap::htlc::{hash_lock_bytes, hash_lock_of, Htlc};
use betswap::solver::{
    build_quote, check_execution, check_owner, check_quote, check_registration, check_request,
    check_terms, new_request, new_solver, settle_records, ChainSignature, Intent, IntentStatus,
    MetaOrder, QuoteRequest, SolverConfig, SolverError, TEEConfig,
};
use betswap::table::Table;

fn name(s: &str) -> String {
    s.to_string()
}

fn abc_digest() -> Vec<u8> {
    vec![
        0xba, 0x78, 0x16, 0xbf, 0x8f, 0x01, 0xcf, 0xea, 0x41, 0x41, 0x40, 0xde, 0x5d, 0xae, 0x22,
        0x23, 0xb0, 0x03, 0x61, 0xa3, 0x96, 0x17, 0x7a, 0x9c, 0xb4, 0x10, 0xff, 0x61, 0xf2, 0x00,
        0x15, 0xad,
    ]
}

#[test]
fn commitment_is_sha256() {
    assert_eq!(commitment(b"abc"), abc_digest());
    assert_eq!(commitment(b"")[..4], [0xe3, 0xb0, 0xc4, 0x42]);
    assert_eq!(commitment(b"").len(), 32);
    assert_ne!(commitment(b"abc"), commitment(b"abd"));
}

#[test]
fn hash_lock_text_is_base64_of_the_digest() {
    assert_eq!(hash_lock_of(&name("abc")), "ungWv48Bz+pBQUDeXa4iI7ADYaOWF3qctBD/YfIAFa0=");
    assert_eq!(hash_lock_of(&name("")), "47DEQpj8HBSa+/TImW+5JCeuQeRkm5NMpJWZG3hSuFU=");
    assert_eq!(hash_lock_bytes(&hash_lock_of(&name("abc"))), Some(abc_digest()));
    assert_eq!(hash_lock_bytes(&name("YWJj")), Some(b"abc".to_vec()));
    assert_eq!(hash_lock_bytes(&name("")), Some(vec![]));
    assert_eq!(hash_lock_bytes(&name("YWJ")), None);
    assert_eq!(hash_lock_bytes(&name("YW Jj")), None);
    assert_eq!(hash_lock_bytes(&name("YWJj\n")), None);
}

#[test]
fn deposit_opens_an_escrow() {
    let msg = LockMsg {
        hashlock: name("ba7816bf8f01cfea414140de5dae2223b00361a396177a9cb410ff61f20015ad"),
        timelock: 7,
        dest_chain: name("eth"),
        dest_user: name("0x"),
        min_return: name("1"),
        output_token: name("usdc"),
        resolver_id: None,
    };
    let e = Escrow::from_deposit(
        JsonAccountId::new(name("maker")),
        3,
        msg,
        JsonAccountId::new(name("token")),
        100,
    )
    .unwrap();
    assert_eq!(e.hashlock, abc_digest());
    assert_eq!(e.timelock_exclusive, Some(103));
    assert_eq!(e.timelock_recovery, 107);
    assert_eq!(e.state, EscrowState::Open);
    assert!(e.resolver.is_none());
}

#[test]
fn escrow_error_messages() {
    assert_eq!(EscrowError::NotFound.message(), "Escrow not found");
    assert_eq!(EscrowError::PreimageMismatch.message(), "Invalid preimage");
    assert_eq!(EscrowError::AlreadySettled.message(), "Escrow already claimed or refunded");
    assert_eq!(EscrowError::Expired.message(), "Expired");
    assert_eq!(EscrowError::NotYetExpired.message(), "Not expired");
    assert_eq!(EscrowError::Unauthorized.message(), "Unauthorized");
    assert_eq!(EscrowError::InvalidAmount.message(), "Amount must be greater than zero");
    assert_eq!(EscrowError::InvalidHashlock.message(), "Hashlock must be 32 bytes");
    assert_eq!(EscrowError::InvalidTimelock.message(), "Invalid timelock");
}

#[test]
fn other_error_messages() {
    assert_eq!(AuctionError::AuctionInactive.message(), "Auction inactive");
    assert_eq!(AuctionError::Escrow(EscrowError::InvalidAmount).message(), "Amount must be greater than zero");
    assert_eq!(AuctionError::HashlockAlreadySet.message(), "Hashlock already set");
    assert_eq!(SolverError::FeeTooHigh.message(), "Fee percentage too high");
    assert_eq!(SolverError::InvalidSignature.message(), "Invalid NEAR signature");
    assert_eq!(BetError::NoRewards.message(), "No rewards to claim");
    assert_eq!(BetError::EventResolved.message(), "Event already resolved");
}

#[test]
fn auction_open_checks_the_terms() {
    let open = |source: Option<u128>, attached: u128| {
        Auction::open(source, name("t"), name("c"), name("a"), 2, 1, 1, 11, &name("m"), attached, 10)
    };
    assert_eq!(open(None, 0).err(), Some(AuctionError::InvalidAuctionParams));
    assert_eq!(open(Some(5), 4).err(), Some(AuctionError::InvalidAuctionParams));
    let a = open(Some(5), 5).unwrap();
    assert_eq!(a.source_amount, 5);
    assert_eq!(a.start_time, 10);
    assert!(a.active);
    assert_eq!(a.maker.inner(), "m");
}

#[test]
fn htlc_open_checks_the_terms() {
    let open = |amount: u128, decoded: Option<Vec<u8>>, time_lock: u64| {
        Htlc::open(name("s"), name("r"), amount, name("lock"), decoded, time_lock, 10)
    };
    assert_eq!(open(0, None, 0).err(), Some(EscrowError::InvalidAmount));
    assert_eq!(open(1, None, 0).err(), Some(EscrowError::InvalidHashlock));
    assert_eq!(open(1, Some(vec![0; 32]), 10).err(), Some(EscrowError::InvalidTimelock));
    let h = open(1, Some(vec![0; 32]), 11).unwrap();
    assert_eq!(h.sender, "s");
    assert_eq!(h.receiver, "r");
    assert_eq!(h.hash_lock, "lock");
    assert_eq!(h.state, EscrowState::Open);
}

fn config(active: bool) -> SolverConfig {
    SolverConfig {
        solver_address: name("s"),
        min_quote_amount: 100,
        max_quote_amount: 200,
        fee_percentage: 1000,
        is_active: active,
        reputation: 1000,
    }
}

fn tee(verified: bool) -> TEEConfig {
    TEEConfig {
        tee_enclave_id: name("e"),
        attestation_report: name("r"),
        public_key: name("k"),
        is_verified: verified,
    }
}

fn request(executed: bool) -> QuoteRequest {
    QuoteRequest {
        request_id: name("quote_3"),
        from_token: name("near"),
        to_token: name("usdc"),
        from_amount: 9,
        to_amount: 0,
        deadline: 50,
        intent_id: name(""),
        is_executed: executed,
    }
}

#[test]
fn quote_decision_on_records() {
    let c = config(true);
    let off = config(false);
    let t = tee(true);
    let unverified = tee(false);
    let q = request(false);
    let done = request(true);
    assert_eq!(check_quote(None, None, None, 0, 99), Err(SolverError::SolverNotRegistered));
    assert_eq!(check_quote(Some(&off), None, None, 0, 99), Err(SolverError::SolverInactive));
    assert_eq!(check_quote(Some(&c), None, None, 0, 99), Err(SolverError::AttestationNotVerified));
    assert_eq!(
        check_quote(Some(&c), Some(&unverified), None, 0, 99),
        Err(SolverError::AttestationNotVerified)
    );
    assert_eq!(check_quote(Some(&c), Some(&t), None, 0, 99), Err(SolverError::RequestNotFound));
    assert_eq!(check_quote(Some(&c), Some(&t), Some(&q), 0, 51), Err(SolverError::RequestExpired));
    assert_eq!(check_quote(Some(&c), Some(&t), Some(&done), 0, 50), Err(SolverError::AlreadyExecuted));
    assert_eq!(check_quote(Some(&c), Some(&t), Some(&q), 99, 50), Err(SolverError::QuoteOutOfRange));
    assert_eq!(check_quote(Some(&c), Some(&t), Some(&q), 201, 50), Err(SolverError::QuoteOutOfRange));
    assert_eq!(check_quote(Some(&c), Some(&t), Some(&q), 100, 50), Ok(90));
    assert_eq!(check_quote(Some(&c), Some(&t), Some(&q), 199, 0), Ok(180));
    let mut greedy = config(true);
    greedy.fee_percentage = 10_001;
    // 200 * 10_001 / 10_000 rounds down to 200: the whole amount, not more
    assert_eq!(check_quote(Some(&greedy), Some(&t), Some(&q), 200, 50), Ok(0));
    greedy.fee_percentage = 10_050;
    assert_eq!(
        check_quote(Some(&greedy), Some(&t), Some(&q), 200, 50),
        Err(SolverError::FeeExceedsAmount)
    );
}

fn sample_order() -> (MetaOrder, Intent) {
    let (order, updated, intent) = build_quote(
        &request(false),
        name("order_0"),
        90,
        name("intent"),
        ChainSignature { signature: name("sig"), public_key: name("k"), message: name("m") },
        &name("solver"),
    );
    assert_eq!(updated.request_id, "quote_3");
    assert_eq!(updated.to_amount, 90);
    assert_eq!(updated.intent_id, "intent");
    assert_eq!(updated.from_amount, 9);
    (order, intent)
}

#[test]
fn quote_records_share_amount_and_deadline() {
    let (order, intent) = sample_order();
    assert_eq!(order.order_id, "order_0");
    assert_eq!(order.to_amount, 90);
    assert_eq!(order.from_amount, 9);
    assert_eq!(order.deadline, 50);
    assert_eq!(order.intent_id, "intent");
    assert!(!order.is_executed);
    assert_eq!(intent.intent_id, "intent");
    assert_eq!(intent.user_id, "solver");
    assert_eq!(intent.to_amount, 90);
    assert_eq!(intent.deadline, 50);
    assert_eq!(intent.status, IntentStatus::Pending);
}

#[test]
fn execution_decision_on_records() {
    let (mut order, mut intent) = sample_order();
    assert_eq!(check_execution(&order, &intent, 50), Ok(()));
    assert_eq!(check_execution(&order, &intent, 51), Err(SolverError::OrderExpired));
    settle_records(&mut order, &mut intent, false);
    assert!(!order.is_executed);
    assert_eq!(intent.status, IntentStatus::Failed);
    assert_eq!(check_execution(&order, &intent, 50), Err(SolverError::AlreadyExecuted));
    let (mut order, mut intent) = sample_order();
    settle_records(&mut order, &mut intent, true);
    assert!(order.is_executed);
    assert_eq!(intent.status, IntentStatus::Executed);
    assert_eq!(check_execution(&order, &intent, 50), Err(SolverError::AlreadyExecuted));
    assert_eq!(check_execution(&order, &intent, 51), Err(SolverError::OrderExpired));
}

#[test]
fn event_level_bets() {
    let mut e = BetEvent {
        description: name("d"),
        end_time: 1,
        resolved: false,
        outcome: false,
        total_bets: 0,
        user_bets: Table::new(),
    };
    assert_eq!(e.place(0, &name("a")), Err(BetError::InvalidAmount));
    assert_eq!(e.place(5, &name("a")), Ok(()));
    assert_eq!(e.place(7, &name("a")), Ok(()));
    assert_eq!(e.total_bets, 12);
    assert_eq!(e.user_bets.get(&name("a")), Some(&7));
    let copy = e.duplicate();
    assert_eq!(copy.total_bets, 12);
    assert_eq!(copy.user_bets.get(&name("a")), Some(&7));
    assert_eq!(copy.user_bets.len(), 1);
    e.resolved = true;
    assert_eq!(e.place(1, &name("a")), Err(BetError::EventResolved));
}

#[test]
fn rewards_are_a_hundredth() {
    assert_eq!(credit_reward(0, 99), Some(0));
    assert_eq!(credit_reward(0, 100), Some(1));
    assert_eq!(credit_reward(5, 1234), Some(17));
    assert_eq!(credit_reward(u128::MAX, 99), Some(u128::MAX));
    assert_eq!(credit_reward(u128::MAX, 100), None);
}

#[test]
fn bet_ids() {
    assert_eq!(bet_id(&name("e"), &name("u"), 0), "e_u_0");
    assert_eq!(intent_id(&name("e_u_0")), "intent_e_u_0");
}

#[test]
fn registration_decision_on_plain_values() {
    let owner = name("owner");
    let mut empty = tee(true);
    empty.attestation_report = name("");
    assert_eq!(check_registration(&owner, 1001, &empty, &name("x")), Err(SolverError::Unauthorized));
    assert_eq!(check_registration(&owner, 1001, &empty, &owner), Err(SolverError::FeeTooHigh));
    assert_eq!(check_registration(&owner, 1000, &empty, &owner), Err(SolverError::InvalidAttestation));
    assert_eq!(check_registration(&owner, 1000, &tee(false), &owner), Ok(()));
    assert_eq!(check_registration(&owner, 0, &tee(true), &owner), Ok(()));
}

#[test]
fn terms_and_owner_decisions() {
    let owner = name("owner");
    assert_eq!(check_terms(&owner, 5000, &name("x")), Err(SolverError::Unauthorized));
    assert_eq!(check_terms(&owner, 1001, &owner), Err(SolverError::FeeTooHigh));
    assert_eq!(check_terms(&owner, 1000, &owner), Ok(()));
    assert_eq!(check_owner(&owner, &owner), Ok(()));
    assert_eq!(check_owner(&owner, &name("Owner")), Err(SolverError::Unauthorized));
    assert_eq!(check_owner(&owner, &name("")), Err(SolverError::Unauthorized));
}

#[test]
fn request_decision_on_plain_values() {
    assert_eq!(check_request(0, 5, 5), Err(SolverError::InvalidAmount));
    assert_eq!(check_request(1, 5, 5), Err(SolverError::InvalidDeadline));
    assert_eq!(check_request(1, 4, 5), Err(SolverError::InvalidDeadline));
    assert_eq!(check_request(1, 6, 5), Ok(()));
    assert_eq!(check_request(u128::MAX, u64::MAX, 0), Ok(()));
}

#[test]
fn new_records() {
    let c = new_solver(name("s"), 1, 2, 3);
    assert_eq!(c.solver_address, "s");
    assert_eq!((c.min_quote_amount, c.max_quote_amount, c.fee_percentage), (1, 2, 3));
    assert!(c.is_active);
    assert_eq!(c.reputation, 1000);
    let q = new_request(name("quote_0"), name("a"), name("b"), 7, 9);
    assert_eq!(q.request_id, "quote_0");
    assert_eq!(q.from_token, "a");
    assert_eq!(q.to_token, "b");
    assert_eq!(q.from_amount, 7);
    assert_eq!(q.to_amount, 0);
    assert_eq!(q.deadline, 9);
    assert_eq!(q.intent_id, "");
    assert!(!q.is_executed);
}

#[test]
fn prediction_from_oracle_data() {
    // SHA-256 of "abc" starts with 0xba, 0x78
    let p = predict(name("e"), name("abc"), 3);
    assert_eq!(p.event_id, "e");
    assert!(p.predicted_outcome);
    assert_eq!(p.confidence, 47);
    assert_eq!(p.oracle_data, "abc");
    assert_eq!(p.timestamp, 3);
    // SHA-256 of "" starts with 0xe3, 0xb0
    let p = predict(name("e"), name(""), 4);
    assert!(!p.predicted_outcome);
    assert_eq!(p.confidence, 69);
}
