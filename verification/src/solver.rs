//! The solver settlement pipeline: quote requests, solvers' signed
//! meta-orders, the intents derived from them, and solver reputation.

use crate::arith::{checked_mul_div, mul_div};
use crate::escrow::{Contract, EscrowState, Transfer};
use crate::hashlock::sha256_digest;
use crate::ids::{lemma_id_injective, sequence_id, sequence_text};
use crate::table::Table;
use vstd::prelude::*;
use vstd::utf8::encode_utf8;

verus! {

/// The highest fee a solver may charge, in basis points (10%).
pub const MAX_FEE_BPS: u32 = 1000;

/// The number of basis points in the whole.
pub const BPS_DENOMINATOR: u64 = 10000;

/// The reputation of a newly registered solver.
pub const INITIAL_REPUTATION: u32 = 1000;

/// What one settlement adds to or takes from a solver's reputation.
pub const REPUTATION_STEP: u32 = 10;

/// Why a pipeline operation was rejected.
#[derive(Clone, Copy, Debug, PartialEq, Eq, Structural)]
pub enum SolverError {
    /// The caller is not the owner of the pipeline.
    Unauthorized,
    /// The fee exceeds `MAX_FEE_BPS`.
    FeeTooHigh,
    /// The attestation of the solver's enclave was rejected.
    InvalidAttestation,
    /// The amount to swap is zero.
    InvalidAmount,
    /// The deadline is not in the future.
    InvalidDeadline,
    /// The caller is not a registered solver.
    SolverNotRegistered,
    /// The solver was deactivated.
    SolverInactive,
    /// The solver's enclave is not marked as verified.
    AttestationNotVerified,
    /// No quote request has the given id.
    RequestNotFound,
    /// The request's deadline has passed.
    RequestExpired,
    /// The request or order has already been put through settlement.
    AlreadyExecuted,
    /// The quoted amount is outside the solver's range.
    QuoteOutOfRange,
    /// The fee would exceed the quoted amount.
    FeeExceedsAmount,
    /// No meta-order has the given id.
    OrderNotFound,
    /// The order's deadline has passed.
    OrderExpired,
    /// The order's signature was rejected.
    InvalidSignature,
}

impl SolverError {
    /// What this error says to the caller.
    pub open spec fn message_text(self) -> Seq<char> {
        match self {
            SolverError::Unauthorized => "Only owner can manage solvers"@,
            SolverError::FeeTooHigh => "Fee percentage too high"@,
            SolverError::InvalidAttestation => "Invalid TEE attestation"@,
            SolverError::InvalidAmount => "Invalid amount"@,
            SolverError::InvalidDeadline => "Invalid deadline"@,
            SolverError::SolverNotRegistered => "Solver not registered"@,
            SolverError::SolverInactive => "Solver not active"@,
            SolverError::AttestationNotVerified => "TEE not verified"@,
            SolverError::RequestNotFound => "Request not found"@,
            SolverError::RequestExpired => "Quote expired"@,
            SolverError::AlreadyExecuted => "Already executed"@,
            SolverError::QuoteOutOfRange => "Quote out of range"@,
            SolverError::FeeExceedsAmount => "Fee exceeds amount"@,
            SolverError::OrderNotFound => "Order not found"@,
            SolverError::OrderExpired => "Order expired"@,
            SolverError::InvalidSignature => "Invalid NEAR signature"@,
        }
    }

    /// What this error says to the caller.
    pub fn message(&self) -> (r: &'static str)
        ensures
            r@ == self.message_text(),
    {
        match self {
            SolverError::Unauthorized => "Only owner can manage solvers",
            SolverError::FeeTooHigh => "Fee percentage too high",
            SolverError::InvalidAttestation => "Invalid TEE attestation",
            SolverError::InvalidAmount => "Invalid amount",
            SolverError::InvalidDeadline => "Invalid deadline",
            SolverError::SolverNotRegistered => "Solver not registered",
            SolverError::SolverInactive => "Solver not active",
            SolverError::AttestationNotVerified => "TEE not verified",
            SolverError::RequestNotFound => "Request not found",
            SolverError::RequestExpired => "Quote expired",
            SolverError::AlreadyExecuted => "Already executed",
            SolverError::QuoteOutOfRange => "Quote out of range",
            SolverError::FeeExceedsAmount => "Fee exceeds amount",
            SolverError::OrderNotFound => "Order not found",
            SolverError::OrderExpired => "Order expired",
            SolverError::InvalidSignature => "Invalid NEAR signature",
        }
    }
}

/// A signature over a settlement instruction.
pub struct ChainSignature {
    pub signature: String,
    pub public_key: String,
    pub message: String,
}

/// Mathematical content of a [`ChainSignature`].
pub struct ChainSignatureView {
    pub signature: Seq<char>,
    pub public_key: Seq<char>,
    pub message: Seq<char>,
}

impl View for ChainSignature {
    type V = ChainSignatureView;

    open spec fn view(&self) -> ChainSignatureView {
        ChainSignatureView {
            signature: self.signature@,
            public_key: self.public_key@,
            message: self.message@,
        }
    }
}

impl Clone for ChainSignature {
    fn clone(&self) -> (r: Self)
        ensures
            r == *self,
    {
        ChainSignature {
            signature: self.signature.clone(),
            public_key: self.public_key.clone(),
            message: self.message.clone(),
        }
    }
}

/// A solver's signed commitment to fill a quote request.
pub struct MetaOrder {
    pub order_id: String,
    pub from_token: String,
    pub to_token: String,
    pub from_amount: u128,
    /// What the user receives, after the solver's fee.
    pub to_amount: u128,
    pub deadline: u64,
    pub intent_id: String,
    pub signature: ChainSignature,
    pub is_executed: bool,
}

/// Mathematical content of a [`MetaOrder`].
pub struct MetaOrderView {
    pub order_id: Seq<char>,
    pub from_token: Seq<char>,
    pub to_token: Seq<char>,
    pub from_amount: u128,
    pub to_amount: u128,
    pub deadline: u64,
    pub intent_id: Seq<char>,
    pub signature: ChainSignatureView,
    pub is_executed: bool,
}

impl View for MetaOrder {
    type V = MetaOrderView;

    open spec fn view(&self) -> MetaOrderView {
        MetaOrderView {
            order_id: self.order_id@,
            from_token: self.from_token@,
            to_token: self.to_token@,
            from_amount: self.from_amount,
            to_amount: self.to_amount,
            deadline: self.deadline,
            intent_id: self.intent_id@,
            signature: self.signature@,
            is_executed: self.is_executed,
        }
    }
}

impl Clone for MetaOrder {
    fn clone(&self) -> (r: Self)
        ensures
            r == *self,
    {
        MetaOrder {
            order_id: self.order_id.clone(),
            from_token: self.from_token.clone(),
            to_token: self.to_token.clone(),
            from_amount: self.from_amount,
            to_amount: self.to_amount,
            deadline: self.deadline,
            intent_id: self.intent_id.clone(),
            signature: self.signature.clone(),
            is_executed: self.is_executed,
        }
    }
}

/// A user's request for a cross-chain price.
pub struct QuoteRequest {
    pub request_id: String,
    pub from_token: String,
    pub to_token: String,
    pub from_amount: u128,
    /// Zero until a solver has quoted.
    pub to_amount: u128,
    pub deadline: u64,
    /// Empty until a solver has quoted.
    pub intent_id: String,
    pub is_executed: bool,
}

/// Mathematical content of a [`QuoteRequest`].
pub struct QuoteRequestView {
    pub request_id: Seq<char>,
    pub from_token: Seq<char>,
    pub to_token: Seq<char>,
    pub from_amount: u128,
    pub to_amount: u128,
    pub deadline: u64,
    pub intent_id: Seq<char>,
    pub is_executed: bool,
}

impl View for QuoteRequest {
    type V = QuoteRequestView;

    open spec fn view(&self) -> QuoteRequestView {
        QuoteRequestView {
            request_id: self.request_id@,
            from_token: self.from_token@,
            to_token: self.to_token@,
            from_amount: self.from_amount,
            to_amount: self.to_amount,
            deadline: self.deadline,
            intent_id: self.intent_id@,
            is_executed: self.is_executed,
        }
    }
}

impl Clone for QuoteRequest {
    fn clone(&self) -> (r: Self)
        ensures
            r == *self,
    {
        QuoteRequest {
            request_id: self.request_id.clone(),
            from_token: self.from_token.clone(),
            to_token: self.to_token.clone(),
            from_amount: self.from_amount,
            to_amount: self.to_amount,
            deadline: self.deadline,
            intent_id: self.intent_id.clone(),
            is_executed: self.is_executed,
        }
    }
}

/// A registered solver.
pub struct SolverConfig {
    pub solver_address: String,
    pub min_quote_amount: u128,
    pub max_quote_amount: u128,
    /// The solver's fee in basis points; at most `MAX_FEE_BPS`.
    pub fee_percentage: u32,
    pub is_active: bool,
    pub reputation: u32,
}

/// Mathematical content of a [`SolverConfig`].
pub struct SolverConfigView {
    pub solver_address: Seq<char>,
    pub min_quote_amount: u128,
    pub max_quote_amount: u128,
    pub fee_percentage: u32,
    pub is_active: bool,
    pub reputation: u32,
}

impl View for SolverConfig {
    type V = SolverConfigView;

    open spec fn view(&self) -> SolverConfigView {
        SolverConfigView {
            solver_address: self.solver_address@,
            min_quote_amount: self.min_quote_amount,
            max_quote_amount: self.max_quote_amount,
            fee_percentage: self.fee_percentage,
            is_active: self.is_active,
            reputation: self.reputation,
        }
    }
}

impl Clone for SolverConfig {
    fn clone(&self) -> (r: Self)
        ensures
            r == *self,
    {
        SolverConfig {
            solver_address: self.solver_address.clone(),
            min_quote_amount: self.min_quote_amount,
            max_quote_amount: self.max_quote_amount,
            fee_percentage: self.fee_percentage,
            is_active: self.is_active,
            reputation: self.reputation,
        }
    }
}

/// A solver's trusted execution environment.
pub struct TEEConfig {
    pub tee_enclave_id: String,
    pub attestation_report: String,
    pub public_key: String,
    pub is_verified: bool,
}

/// Mathematical content of a [`TEEConfig`].
pub struct TEEConfigView {
    pub tee_enclave_id: Seq<char>,
    pub attestation_report: Seq<char>,
    pub public_key: Seq<char>,
    pub is_verified: bool,
}

impl View for TEEConfig {
    type V = TEEConfigView;

    open spec fn view(&self) -> TEEConfigView {
        TEEConfigView {
            tee_enclave_id: self.tee_enclave_id@,
            attestation_report: self.attestation_report@,
            public_key: self.public_key@,
            is_verified: self.is_verified,
        }
    }
}

impl Clone for TEEConfig {
    fn clone(&self) -> (r: Self)
        ensures
            r == *self,
    {
        TEEConfig {
            tee_enclave_id: self.tee_enclave_id.clone(),
            attestation_report: self.attestation_report.clone(),
            public_key: self.public_key.clone(),
            is_verified: self.is_verified,
        }
    }
}

/// Lifecycle of an intent. `Executed` and `Failed` are terminal.
#[derive(Clone, Copy, Debug, PartialEq, Eq, Structural)]
pub enum IntentStatus {
    Pending,
    Executed,
    Failed,
}

/// The user-facing record of a quoted swap.
pub struct Intent {
    pub intent_id: String,
    pub user_id: String,
    pub from_token: String,
    pub to_token: String,
    pub from_amount: u128,
    pub to_amount: u128,
    pub deadline: u64,
    pub status: IntentStatus,
}

/// Mathematical content of an [`Intent`].
pub struct IntentView {
    pub intent_id: Seq<char>,
    pub user_id: Seq<char>,
    pub from_token: Seq<char>,
    pub to_token: Seq<char>,
    pub from_amount: u128,
    pub to_amount: u128,
    pub deadline: u64,
    pub status: IntentStatus,
}

impl View for Intent {
    type V = IntentView;

    open spec fn view(&self) -> IntentView {
        IntentView {
            intent_id: self.intent_id@,
            user_id: self.user_id@,
            from_token: self.from_token@,
            to_token: self.to_token@,
            from_amount: self.from_amount,
            to_amount: self.to_amount,
            deadline: self.deadline,
            status: self.status,
        }
    }
}

impl Clone for Intent {
    fn clone(&self) -> (r: Self)
        ensures
            r == *self,
    {
        Intent {
            intent_id: self.intent_id.clone(),
            user_id: self.user_id.clone(),
            from_token: self.from_token.clone(),
            to_token: self.to_token.clone(),
            from_amount: self.from_amount,
            to_amount: self.to_amount,
            deadline: self.deadline,
            status: self.status,
        }
    }
}

/// The fee on `to_amount` at `fee_bps` basis points, rounded down.
pub open spec fn fee_of(to_amount: u128, fee_bps: u32) -> int {
    mul_div(to_amount as int, fee_bps as int, BPS_DENOMINATOR as int)
}

/// Splits a quoted amount into the solver's fee and what is left for the
/// user. Fails with `FeeExceedsAmount` exactly when the fee is larger than
/// the amount.
pub fn quote_fee(to_amount: u128, fee_bps: u32) -> (r: Result<(u128, u128), SolverError>)
    ensures
        match r {
            Ok((fee, final_amount)) => {
                &&& fee == fee_of(to_amount, fee_bps)
                &&& fee <= to_amount
                &&& final_amount == to_amount - fee
            },
            Err(e) => e == SolverError::FeeExceedsAmount && fee_of(to_amount, fee_bps) > to_amount,
        },
{
    match checked_mul_div(to_amount, fee_bps as u128, BPS_DENOMINATOR) {
        Some(fee) => {
            if fee > to_amount {
                Err(SolverError::FeeExceedsAmount)
            } else {
                Ok((fee, to_amount - fee))
            }
        },
        None => Err(SolverError::FeeExceedsAmount),
    }
}

/// A solver's reputation after one more settlement: ten more after a
/// success, ten less after a failure, never below zero.
pub open spec fn reputation_step(reputation: nat, success: bool) -> nat {
    if success {
        reputation + REPUTATION_STEP as nat
    } else if reputation > REPUTATION_STEP {
        (reputation - REPUTATION_STEP) as nat
    } else {
        0
    }
}

/// A reputation as far as 32 bits can hold it.
pub open spec fn stored_reputation(reputation: nat) -> u32 {
    if reputation <= u32::MAX {
        reputation as u32
    } else {
        u32::MAX
    }
}

/// The reputation that follows `reputation` after one settlement.
pub fn next_reputation(reputation: u32, success: bool) -> (r: u32)
    ensures
        r == stored_reputation(reputation_step(reputation as nat, success)),
{
    if success {
        reputation.saturating_add(REPUTATION_STEP)
    } else if reputation > REPUTATION_STEP {
        reputation - REPUTATION_STEP
    } else {
        0
    }
}

/// Accepts an attestation report that is not empty.
pub fn verify_tee_attestation(tee_config: &TEEConfig) -> (r: bool)
    ensures
        r == (tee_config@.attestation_report.len() > 0),
{
    !tee_config.attestation_report.as_str().is_empty()
}

/// Accepts a signature that is not empty, over an intent id that is not
/// empty.
pub fn verify_near_signature(signature: &ChainSignature, intent_id: &String) -> (r: bool)
    ensures
        r == (signature@.signature.len() > 0 && intent_id@.len() > 0),
{
    !signature.signature.as_str().is_empty() && !intent_id.as_str().is_empty()
}

/// The first reason, if any, for which `caller` may not register a solver
/// with the given fee and enclave in a pipeline owned by `owner`.
pub open spec fn registration_decision(
    owner: Seq<char>,
    fee_percentage: u32,
    tee_config: TEEConfigView,
    caller: Seq<char>,
) -> Option<SolverError> {
    if caller != owner {
        Some(SolverError::Unauthorized)
    } else if fee_percentage > MAX_FEE_BPS {
        Some(SolverError::FeeTooHigh)
    } else if tee_config.attestation_report.len() == 0 {
        Some(SolverError::InvalidAttestation)
    } else {
        None
    }
}

/// Decides whether `caller` may register a solver with the given fee and
/// enclave in a pipeline owned by `owner`.
pub fn check_registration(
    owner: &String,
    fee_percentage: u32,
    tee_config: &TEEConfig,
    caller: &String,
) -> (r: Result<(), SolverError>)
    ensures
        match r {
            Ok(()) => registration_decision(owner@, fee_percentage, tee_config@, caller@) is None,
            Err(e) => registration_decision(owner@, fee_percentage, tee_config@, caller@) == Some(
                e,
            ),
        },
{
    if !(*owner == *caller) {
        return Err(SolverError::Unauthorized);
    }
    if fee_percentage > MAX_FEE_BPS {
        return Err(SolverError::FeeTooHigh);
    }
    if !verify_tee_attestation(tee_config) {
        return Err(SolverError::InvalidAttestation);
    }
    Ok(())
}

/// The first reason, if any, for which `caller` may not replace a
/// solver's quoting terms with ones of the given fee in a pipeline owned
/// by `owner`.
pub open spec fn terms_decision(owner: Seq<char>, fee_percentage: u32, caller: Seq<char>) -> Option<
    SolverError,
> {
    if caller != owner {
        Some(SolverError::Unauthorized)
    } else if fee_percentage > MAX_FEE_BPS {
        Some(SolverError::FeeTooHigh)
    } else {
        None
    }
}

/// Decides whether `caller` may replace a solver's quoting terms with
/// ones of the given fee in a pipeline owned by `owner`.
pub fn check_terms(owner: &String, fee_percentage: u32, caller: &String) -> (r: Result<
    (),
    SolverError,
>)
    ensures
        match r {
            Ok(()) => terms_decision(owner@, fee_percentage, caller@) is None,
            Err(e) => terms_decision(owner@, fee_percentage, caller@) == Some(e),
        },
{
    if !(*owner == *caller) {
        return Err(SolverError::Unauthorized);
    }
    if fee_percentage > MAX_FEE_BPS {
        return Err(SolverError::FeeTooHigh);
    }
    Ok(())
}

/// Decides whether `caller` is the owner of a pipeline owned by `owner`.
pub fn check_owner(owner: &String, caller: &String) -> (r: Result<(), SolverError>)
    ensures
        match r {
            Ok(()) => caller@ == owner@,
            Err(e) => e == SolverError::Unauthorized && caller@ != owner@,
        },
{
    if *owner == *caller {
        Ok(())
    } else {
        Err(SolverError::Unauthorized)
    }
}

/// The first reason, if any, for which a quote request is refused at time
/// `now`.
pub open spec fn request_decision(from_amount: u128, deadline: u64, now: u64) -> Option<
    SolverError,
> {
    if from_amount == 0 {
        Some(SolverError::InvalidAmount)
    } else if deadline <= now {
        Some(SolverError::InvalidDeadline)
    } else {
        None
    }
}

/// Decides whether a quote request is accepted at time `now`.
pub fn check_request(from_amount: u128, deadline: u64, now: u64) -> (r: Result<(), SolverError>)
    ensures
        match r {
            Ok(()) => request_decision(from_amount, deadline, now) is None,
            Err(e) => request_decision(from_amount, deadline, now) == Some(e),
        },
{
    if from_amount == 0 {
        return Err(SolverError::InvalidAmount);
    }
    if deadline <= now {
        return Err(SolverError::InvalidDeadline);
    }
    Ok(())
}

/// The record of a solver as it is registered: active, with the initial
/// reputation.
pub open spec fn registered_solver(
    solver_address: Seq<char>,
    min_quote_amount: u128,
    max_quote_amount: u128,
    fee_percentage: u32,
) -> SolverConfigView {
    SolverConfigView {
        solver_address,
        min_quote_amount,
        max_quote_amount,
        fee_percentage,
        is_active: true,
        reputation: INITIAL_REPUTATION,
    }
}

/// Builds the record of a solver as it is registered.
pub fn new_solver(
    solver_address: String,
    min_quote_amount: u128,
    max_quote_amount: u128,
    fee_percentage: u32,
) -> (r: SolverConfig)
    ensures
        r@ == registered_solver(
            solver_address@,
            min_quote_amount,
            max_quote_amount,
            fee_percentage,
        ),
{
    SolverConfig {
        solver_address,
        min_quote_amount,
        max_quote_amount,
        fee_percentage,
        is_active: true,
        reputation: INITIAL_REPUTATION,
    }
}

/// The record of a quote request as it is filed: not yet quoted, not yet
/// executed.
pub open spec fn filed_request(
    request_id: Seq<char>,
    from_token: Seq<char>,
    to_token: Seq<char>,
    from_amount: u128,
    deadline: u64,
) -> QuoteRequestView {
    QuoteRequestView {
        request_id,
        from_token,
        to_token,
        from_amount,
        to_amount: 0,
        deadline,
        intent_id: Seq::empty(),
        is_executed: false,
    }
}

/// Builds the record of a quote request as it is filed.
pub fn new_request(
    request_id: String,
    from_token: String,
    to_token: String,
    from_amount: u128,
    deadline: u64,
) -> (r: QuoteRequest)
    ensures
        r@ == filed_request(request_id@, from_token@, to_token@, from_amount, deadline),
{
    QuoteRequest {
        request_id,
        from_token,
        to_token,
        from_amount,
        to_amount: 0,
        deadline,
        intent_id: String::new(),
        is_executed: false,
    }
}

/// The content of an optional record.
pub open spec fn view_of<T: View>(record: Option<&T>) -> Option<T::V> {
    match record {
        Some(r) => Some(r@),
        None => None,
    }
}

/// The value that a map holds for a key, if any.
pub open spec fn lookup<K, V>(map: Map<K, V>, key: K) -> Option<V> {
    if map.contains_key(key) {
        Some(map[key])
    } else {
        None
    }
}

/// The first reason, if any, for which a solver with configuration
/// `config` and enclave `tee` may not quote `to_amount` on `request` at
/// time `now`.
pub open spec fn quote_decision(
    config: Option<SolverConfigView>,
    tee: Option<TEEConfigView>,
    request: Option<QuoteRequestView>,
    to_amount: u128,
    now: u64,
) -> Option<SolverError> {
    if config is None {
        Some(SolverError::SolverNotRegistered)
    } else if !config->0.is_active {
        Some(SolverError::SolverInactive)
    } else if tee is None || !tee->0.is_verified {
        Some(SolverError::AttestationNotVerified)
    } else if request is None {
        Some(SolverError::RequestNotFound)
    } else if now > request->0.deadline {
        Some(SolverError::RequestExpired)
    } else if request->0.is_executed {
        Some(SolverError::AlreadyExecuted)
    } else if to_amount < config->0.min_quote_amount || to_amount > config->0.max_quote_amount {
        Some(SolverError::QuoteOutOfRange)
    } else if fee_of(to_amount, config->0.fee_percentage) > to_amount {
        Some(SolverError::FeeExceedsAmount)
    } else {
        None
    }
}

/// Decides whether a solver may quote `to_amount` on a request at time
/// `now`, and if so returns what is left of the amount after the
/// solver's fee.
pub fn check_quote(
    config: Option<&SolverConfig>,
    tee: Option<&TEEConfig>,
    request: Option<&QuoteRequest>,
    to_amount: u128,
    now: u64,
) -> (r: Result<u128, SolverError>)
    ensures
        match r {
            Ok(final_amount) => {
                &&& quote_decision(view_of(config), view_of(tee), view_of(request), to_amount, now)
                    is None
                &&& final_amount == to_amount - fee_of(to_amount, config->0.fee_percentage)
            },
            Err(e) => quote_decision(view_of(config), view_of(tee), view_of(request), to_amount, now)
                == Some(e),
        },
{
    let config = match config {
        Some(c) => c,
        None => {
            return Err(SolverError::SolverNotRegistered);
        },
    };
    if !config.is_active {
        return Err(SolverError::SolverInactive);
    }
    match tee {
        Some(t) => {
            if !t.is_verified {
                return Err(SolverError::AttestationNotVerified);
            }
        },
        None => {
            return Err(SolverError::AttestationNotVerified);
        },
    }
    let request = match request {
        Some(r) => r,
        None => {
            return Err(SolverError::RequestNotFound);
        },
    };
    if now > request.deadline {
        return Err(SolverError::RequestExpired);
    }
    if request.is_executed {
        return Err(SolverError::AlreadyExecuted);
    }
    if to_amount < config.min_quote_amount || to_amount > config.max_quote_amount {
        return Err(SolverError::QuoteOutOfRange);
    }
    match quote_fee(to_amount, config.fee_percentage) {
        Ok((_, final_amount)) => Ok(final_amount),
        Err(e) => Err(e),
    }
}

/// The meta-order, the updated request and the pending intent that a
/// quote on `request` creates.
pub open spec fn quote_records(
    request: QuoteRequestView,
    order_id: Seq<char>,
    final_amount: u128,
    intent_id: Seq<char>,
    signature: ChainSignatureView,
    caller: Seq<char>,
) -> (MetaOrderView, QuoteRequestView, IntentView) {
    (
        MetaOrderView {
            order_id,
            from_token: request.from_token,
            to_token: request.to_token,
            from_amount: request.from_amount,
            to_amount: final_amount,
            deadline: request.deadline,
            intent_id,
            signature,
            is_executed: false,
        },
        QuoteRequestView { to_amount: final_amount, intent_id, ..request },
        IntentView {
            intent_id,
            user_id: caller,
            from_token: request.from_token,
            to_token: request.to_token,
            from_amount: request.from_amount,
            to_amount: final_amount,
            deadline: request.deadline,
            status: IntentStatus::Pending,
        },
    )
}

/// Builds the records that a quote on `request` creates.
pub fn build_quote(
    request: &QuoteRequest,
    order_id: String,
    final_amount: u128,
    intent_id: String,
    signature: ChainSignature,
    caller: &String,
) -> (r: (MetaOrder, QuoteRequest, Intent))
    ensures
        (r.0@, r.1@, r.2@) == quote_records(
            request@,
            order_id@,
            final_amount,
            intent_id@,
            signature@,
            caller@,
        ),
{
    let order = MetaOrder {
        order_id,
        from_token: request.from_token.clone(),
        to_token: request.to_token.clone(),
        from_amount: request.from_amount,
        to_amount: final_amount,
        deadline: request.deadline,
        intent_id: intent_id.clone(),
        signature,
        is_executed: false,
    };
    let intent = Intent {
        intent_id: intent_id.clone(),
        user_id: caller.clone(),
        from_token: request.from_token.clone(),
        to_token: request.to_token.clone(),
        from_amount: request.from_amount,
        to_amount: final_amount,
        deadline: request.deadline,
        status: IntentStatus::Pending,
    };
    let mut updated = request.clone();
    updated.to_amount = final_amount;
    updated.intent_id = intent_id;
    (order, updated, intent)
}

/// The first reason, if any, for which `order`, whose intent is `intent`,
/// may not be put through settlement at time `now`. An order is put
/// through settlement once: whether that settles or fails, a second
/// attempt is refused with `AlreadyExecuted`.
pub open spec fn execution_decision(order: Option<MetaOrderView>, intent: IntentView, now: u64) -> Option<
    SolverError,
> {
    if order is None {
        Some(SolverError::OrderNotFound)
    } else if now > order->0.deadline {
        Some(SolverError::OrderExpired)
    } else if order->0.is_executed || intent.status != IntentStatus::Pending {
        Some(SolverError::AlreadyExecuted)
    } else if order->0.signature.signature.len() == 0 || order->0.intent_id.len() == 0 {
        Some(SolverError::InvalidSignature)
    } else {
        None
    }
}

/// Decides whether `order`, whose intent is `intent`, may be put through
/// settlement at time `now`.
pub fn check_execution(order: &MetaOrder, intent: &Intent, now: u64) -> (r: Result<(), SolverError>)
    ensures
        match r {
            Ok(()) => execution_decision(Some(order@), intent@, now) is None,
            Err(e) => execution_decision(Some(order@), intent@, now) == Some(e),
        },
{
    if now > order.deadline {
        return Err(SolverError::OrderExpired);
    }
    if order.is_executed {
        return Err(SolverError::AlreadyExecuted);
    }
    match intent.status {
        IntentStatus::Pending => {},
        _ => {
            return Err(SolverError::AlreadyExecuted);
        },
    }
    if !verify_near_signature(&order.signature, &order.intent_id) {
        return Err(SolverError::InvalidSignature);
    }
    Ok(())
}

/// An order and its intent after a settlement that ended in `success`:
/// on success the order is executed and the intent `Executed`; on failure
/// the order stays as it is and the intent is `Failed`.
pub open spec fn settled_records(order: MetaOrderView, intent: IntentView, success: bool) -> (
    MetaOrderView,
    IntentView,
) {
    (
        if success {
            MetaOrderView { is_executed: true, ..order }
        } else {
            order
        },
        IntentView {
            status: if success {
                IntentStatus::Executed
            } else {
                IntentStatus::Failed
            },
            ..intent
        },
    )
}

/// Records on `order` and `intent` how a settlement ended.
pub fn settle_records(order: &mut MetaOrder, intent: &mut Intent, success: bool)
    ensures
        (final(order)@, final(intent)@) == settled_records(old(order)@, old(intent)@, success),
{
    if success {
        order.is_executed = true;
        intent.status = IntentStatus::Executed;
    } else {
        intent.status = IntentStatus::Failed;
    }
}

/// The id of the `n`-th quote request.
pub open spec fn request_id_text(n: nat) -> Seq<char> {
    sequence_text("quote_"@, n)
}

/// The id of the `n`-th meta-order.
pub open spec fn order_id_text(n: nat) -> Seq<char> {
    sequence_text("order_"@, n)
}

/// Mathematical content of the pipeline's state.
pub struct PipelineView {
    /// The account that administers solvers.
    pub owner: Seq<char>,
    pub requests: Map<Seq<char>, QuoteRequestView>,
    pub orders: Map<Seq<char>, MetaOrderView>,
    pub solvers: Map<Seq<char>, SolverConfigView>,
    /// The registered solvers in order of first registration.
    pub solver_order: Seq<Seq<char>>,
    pub intents: Map<Seq<char>, IntentView>,
    pub tee_configs: Map<Seq<char>, TEEConfigView>,
    pub reputations: Map<Seq<char>, u32>,
    /// Number of quote requests made so far.
    pub quote_counter: u64,
    /// Number of meta-orders created so far.
    pub order_counter: u64,
}

impl PipelineView {
    /// The invariant of the pipeline.
    pub open spec fn wf(self) -> bool {
        &&& forall|id: Seq<char>| #[trigger]
            self.requests.contains_key(id) ==> exists|n: nat|
                n < self.quote_counter && id == #[trigger] request_id_text(n)
        &&& forall|id: Seq<char>| #[trigger]
            self.orders.contains_key(id) ==> exists|n: nat|
                n < self.order_counter && id == #[trigger] order_id_text(n)
        &&& forall|id: Seq<char>| #[trigger]
            self.orders.contains_key(id) ==> self.intents.contains_key(self.orders[id].intent_id)
        &&& forall|a: Seq<char>| #[trigger]
            self.solvers.contains_key(a) ==> {
                &&& self.solvers[a].fee_percentage <= MAX_FEE_BPS
                &&& self.reputations.contains_key(a)
                &&& self.reputations[a] == self.solvers[a].reputation
                &&& self.solver_order.contains(a)
            }
        &&& forall|i: int|
            0 <= i < self.solver_order.len() ==> self.solvers.contains_key(
                #[trigger] self.solver_order[i],
            )
    }

    /// The first reason, if any, for which `caller` may not register a
    /// solver with the given fee and enclave.
    pub open spec fn register_error(
        self,
        fee_percentage: u32,
        tee_config: TEEConfigView,
        caller: Seq<char>,
    ) -> Option<SolverError> {
        registration_decision(self.owner, fee_percentage, tee_config, caller)
    }

    /// The state after a solver was registered: active, with the initial
    /// reputation.
    pub open spec fn registered(
        self,
        solver_address: Seq<char>,
        min_quote_amount: u128,
        max_quote_amount: u128,
        fee_percentage: u32,
        tee_config: TEEConfigView,
    ) -> PipelineView {
        PipelineView {
            solvers: self.solvers.insert(
                solver_address,
                registered_solver(solver_address, min_quote_amount, max_quote_amount, fee_percentage),
            ),
            solver_order: if self.solvers.contains_key(solver_address) {
                self.solver_order
            } else {
                self.solver_order.push(solver_address)
            },
            tee_configs: self.tee_configs.insert(solver_address, tee_config),
            reputations: self.reputations.insert(solver_address, INITIAL_REPUTATION),
            ..self
        }
    }

    /// The first reason, if any, for which a quote request is refused at
    /// time `now`.
    pub open spec fn request_error(from_amount: u128, deadline: u64, now: u64) -> Option<
        SolverError,
    > {
        request_decision(from_amount, deadline, now)
    }

    /// The id that the next quote request gets.
    pub open spec fn next_request_id(self) -> Seq<char> {
        request_id_text(self.quote_counter as nat)
    }

    /// The id that the next meta-order gets.
    pub open spec fn next_order_id(self) -> Seq<char> {
        order_id_text(self.order_counter as nat)
    }

    /// The state after a quote request was filed under the next id.
    pub open spec fn requested(
        self,
        from_token: Seq<char>,
        to_token: Seq<char>,
        from_amount: u128,
        deadline: u64,
    ) -> PipelineView {
        PipelineView {
            requests: self.requests.insert(
                self.next_request_id(),
                filed_request(self.next_request_id(), from_token, to_token, from_amount, deadline),
            ),
            quote_counter: (self.quote_counter + 1) as u64,
            ..self
        }
    }

    /// The first reason, if any, for which solver `caller` may not quote
    /// `to_amount` on request `request_id` at time `now`.
    pub open spec fn quote_error(
        self,
        request_id: Seq<char>,
        to_amount: u128,
        caller: Seq<char>,
        now: u64,
    ) -> Option<SolverError> {
        quote_decision(
            lookup(self.solvers, caller),
            lookup(self.tee_configs, caller),
            lookup(self.requests, request_id),
            to_amount,
            now,
        )
    }

    /// The state after solver `caller` quoted `to_amount` on request
    /// `request_id`: a meta-order under the next order id and a pending
    /// intent under `intent_id` are created together, both for the amount
    /// left after the solver's fee, and the request records that amount
    /// and the intent.
    pub open spec fn quoted(
        self,
        request_id: Seq<char>,
        to_amount: u128,
        intent_id: Seq<char>,
        signature: ChainSignatureView,
        caller: Seq<char>,
    ) -> PipelineView {
        let final_amount = (to_amount - fee_of(to_amount, self.solvers[caller].fee_percentage)) as u128;
        let records = quote_records(
            self.requests[request_id],
            self.next_order_id(),
            final_amount,
            intent_id,
            signature,
            caller,
        );
        PipelineView {
            orders: self.orders.insert(self.next_order_id(), records.0),
            requests: self.requests.insert(request_id, records.1),
            intents: self.intents.insert(intent_id, records.2),
            order_counter: (self.order_counter + 1) as u64,
            ..self
        }
    }

    /// The first reason, if any, for which meta-order `order_id` may not
    /// be put through settlement at time `now`. An order is put through
    /// settlement once: whether that settles or fails, a second attempt
    /// is refused with `AlreadyExecuted`.
    pub open spec fn execution_error(self, order_id: Seq<char>, now: u64) -> Option<SolverError> {
        execution_decision(
            lookup(self.orders, order_id),
            self.intents[self.orders[order_id].intent_id],
            now,
        )
    }

    /// The reputation from which the next settlement of `solver` counts:
    /// the recorded one, or the initial reputation if none is recorded.
    pub open spec fn standing(self, solver: Seq<char>) -> u32 {
        if self.reputations.contains_key(solver) {
            self.reputations[solver]
        } else {
            INITIAL_REPUTATION
        }
    }

    /// The state after `solver`'s reputation moved by one settlement.
    pub open spec fn rated(self, solver: Seq<char>, success: bool) -> PipelineView {
        let reputation = stored_reputation(reputation_step(self.standing(solver) as nat, success));
        PipelineView {
            reputations: self.reputations.insert(solver, reputation),
            solvers: if self.solvers.contains_key(solver) {
                self.solvers.insert(
                    solver,
                    SolverConfigView { reputation, ..self.solvers[solver] },
                )
            } else {
                self.solvers
            },
            ..self
        }
    }

    /// The state after the settlement of meta-order `order_id` by `solver`
    /// ended in `success`: on success the order is marked executed and its
    /// intent `Executed`; on failure the intent is `Failed`. Either way
    /// the solver's reputation moves.
    pub open spec fn settled(self, order_id: Seq<char>, solver: Seq<char>, success: bool) -> PipelineView {
        let order = self.orders[order_id];
        let records = settled_records(order, self.intents[order.intent_id], success);
        PipelineView {
            orders: if success {
                self.orders.insert(order_id, records.0)
            } else {
                self.orders
            },
            intents: self.intents.insert(order.intent_id, records.1),
            ..self
        }.rated(solver, success)
    }

    /// The state after solver `solver_address`, if registered, was
    /// deactivated.
    pub open spec fn deactivated(self, solver_address: Seq<char>) -> PipelineView {
        if self.solvers.contains_key(solver_address) {
            PipelineView {
                solvers: self.solvers.insert(
                    solver_address,
                    SolverConfigView { is_active: false, ..self.solvers[solver_address] },
                ),
                ..self
            }
        } else {
            self
        }
    }

    /// The state after the quoting terms of solver `solver_address`, if
    /// registered, were replaced.
    pub open spec fn reconfigured(
        self,
        solver_address: Seq<char>,
        min_quote_amount: u128,
        max_quote_amount: u128,
        fee_percentage: u32,
    ) -> PipelineView {
        if self.solvers.contains_key(solver_address) {
            PipelineView {
                solvers: self.solvers.insert(
                    solver_address,
                    SolverConfigView {
                        min_quote_amount,
                        max_quote_amount,
                        fee_percentage,
                        ..self.solvers[solver_address]
                    },
                ),
                ..self
            }
        } else {
            self
        }
    }

    /// The active solvers in order of first registration.
    pub open spec fn active_solvers(self) -> Seq<Seq<char>> {
        self.solver_order.filter(|a: Seq<char>| self.solvers[a].is_active)
    }
}

/// What putting a meta-order through settlement led to.
pub struct Settlement {
    /// Whether the escrow released the funds.
    pub settled: bool,
    /// The payment to carry out, if the escrow released the funds.
    pub transfer: Option<Transfer>,
}

/// The settlement pipeline.
pub struct ShadeAgentSolver {
    owner_id: String,
    quote_requests: Table<String, QuoteRequest>,
    meta_orders: Table<String, MetaOrder>,
    solvers: Table<String, SolverConfig>,
    intents: Table<String, Intent>,
    tee_configs: Table<String, TEEConfig>,
    quote_counter: u64,
    order_counter: u64,
    solver_reputation: Table<String, u32>,
}

impl View for ShadeAgentSolver {
    type V = PipelineView;

    closed spec fn view(&self) -> PipelineView {
        PipelineView {
            owner: self.owner_id@,
            requests: self.quote_requests.map().map_values(|r: QuoteRequest| r@),
            orders: self.meta_orders.map().map_values(|o: MetaOrder| o@),
            solvers: self.solvers.map().map_values(|c: SolverConfig| c@),
            solver_order: self.solvers.keys(),
            intents: self.intents.map().map_values(|i: Intent| i@),
            tee_configs: self.tee_configs.map().map_values(|t: TEEConfig| t@),
            reputations: self.solver_reputation.map(),
            quote_counter: self.quote_counter,
            order_counter: self.order_counter,
        }
    }
}

impl ShadeAgentSolver {
    /// The pipeline's invariant.
    pub closed spec fn wf(&self) -> bool {
        &&& self.quote_requests.wf()
        &&& self.meta_orders.wf()
        &&& self.solvers.wf()
        &&& self.intents.wf()
        &&& self.tee_configs.wf()
        &&& self.solver_reputation.wf()
        &&& self@.wf()
    }

    /// The state of a well-formed pipeline satisfies the invariant of
    /// [`PipelineView`].
    pub proof fn lemma_view_wf(&self)
        requires
            self.wf(),
        ensures
            self@.wf(),
    {
    }

    /// A pipeline administered by `owner_id`, without solvers, requests or
    /// orders.
    pub fn new(owner_id: String) -> (p: Self)
        ensures
            p.wf(),
            p@ == (PipelineView {
                owner: owner_id@,
                requests: Map::empty(),
                orders: Map::empty(),
                solvers: Map::empty(),
                solver_order: Seq::empty(),
                intents: Map::empty(),
                tee_configs: Map::empty(),
                reputations: Map::empty(),
                quote_counter: 0,
                order_counter: 0,
            }),
    {
        let p = ShadeAgentSolver {
            owner_id,
            quote_requests: Table::new(),
            meta_orders: Table::new(),
            solvers: Table::new(),
            intents: Table::new(),
            tee_configs: Table::new(),
            quote_counter: 0,
            order_counter: 0,
            solver_reputation: Table::new(),
        };
        assert(p@.requests =~= Map::empty());
        assert(p@.orders =~= Map::empty());
        assert(p@.solvers =~= Map::empty());
        assert(p@.intents =~= Map::empty());
        assert(p@.tee_configs =~= Map::empty());
        p
    }

    /// Registers a solver, or registers it anew: active, with the initial
    /// reputation. Only the owner may do so.
    pub fn register_solver(
        &mut self,
        solver_address: String,
        min_quote_amount: u128,
        max_quote_amount: u128,
        fee_percentage: u32,
        tee_config: TEEConfig,
        caller: &String,
    ) -> (r: Result<(), SolverError>)
        requires
            old(self).wf(),
        ensures
            final(self).wf(),
            match r {
                Ok(()) => {
                    &&& old(self)@.register_error(fee_percentage, tee_config@, caller@) is None
                    &&& final(self)@ == old(self)@.registered(
                        solver_address@,
                        min_quote_amount,
                        max_quote_amount,
                        fee_percentage,
                        tee_config@,
                    )
                },
                Err(e) => {
                    &&& old(self)@.register_error(fee_percentage, tee_config@, caller@) == Some(e)
                    &&& *final(self) == *old(self)
                },
            },
    {
        match check_registration(&self.owner_id, fee_percentage, &tee_config, caller) {
            Ok(()) => {},
            Err(e) => {
                return Err(e);
            },
        }
        let config = new_solver(
            solver_address.clone(),
            min_quote_amount,
            max_quote_amount,
            fee_percentage,
        );
        self.solvers.insert(solver_address.clone(), config);
        self.tee_configs.insert(solver_address.clone(), tee_config);
        self.solver_reputation.insert(solver_address, INITIAL_REPUTATION);
        proof {
            let after = old(self)@.registered(
                solver_address@,
                min_quote_amount,
                max_quote_amount,
                fee_percentage,
                tee_config@,
            );
            assert(self@.solvers =~= after.solvers);
            assert(self@.tee_configs =~= after.tee_configs);
            assert(self@.reputations =~= after.reputations);
            assert(self@.solver_order =~= after.solver_order);
            assert(self@ == after);
            lemma_registered_keeps_invariant(
                old(self)@,
                solver_address@,
                min_quote_amount,
                max_quote_amount,
                fee_percentage,
                tee_config@,
            );
        }
        Ok(())
    }

    /// Files a request for a quote and returns its id. Ids are handed out
    /// in sequence and never reused.
    pub fn request_quote(
        &mut self,
        from_token: String,
        to_token: String,
        from_amount: u128,
        deadline: u64,
        now: u64,
    ) -> (r: Result<String, SolverError>)
        requires
            old(self).wf(),
            old(self)@.quote_counter < u64::MAX,
        ensures
            final(self).wf(),
            match r {
                Ok(id) => {
                    &&& PipelineView::request_error(from_amount, deadline, now) is None
                    &&& id@ == old(self)@.next_request_id()
                    &&& !old(self)@.requests.contains_key(id@)
                    &&& final(self)@ == old(self)@.requested(
                        from_token@,
                        to_token@,
                        from_amount,
                        deadline,
                    )
                },
                Err(e) => {
                    &&& PipelineView::request_error(from_amount, deadline, now) == Some(e)
                    &&& *final(self) == *old(self)
                },
            },
    {
        match check_request(from_amount, deadline, now) {
            Ok(()) => {},
            Err(e) => {
                return Err(e);
            },
        }
        let request_id = sequence_id("quote_", self.quote_counter);
        proof {
            if old(self)@.requests.contains_key(request_id@) {
                let n = choose|n: nat|
                    n < old(self)@.quote_counter && request_id@ == #[trigger] request_id_text(n);
                lemma_id_injective("quote_"@, n, old(self)@.quote_counter as nat);
            }
        }
        let request = new_request(request_id.clone(), from_token, to_token, from_amount, deadline);
        self.quote_requests.insert(request_id.clone(), request);
        self.quote_counter = self.quote_counter + 1;
        proof {
            let after = old(self)@.requested(from_token@, to_token@, from_amount, deadline);
            assert(self@.requests =~= after.requests);
            assert(self@ == after);
            assert forall|id: Seq<char>| #[trigger] after.requests.contains_key(id) implies exists|
                n: nat,
            |
                n < after.quote_counter && id == #[trigger] request_id_text(n) by {
                if id == request_id@ {
                    assert(id == request_id_text(old(self)@.quote_counter as nat));
                } else {
                    let n = choose|n: nat|
                        n < old(self)@.quote_counter && id == #[trigger] request_id_text(n);
                    assert(n < after.quote_counter && id == request_id_text(n));
                }
            }
        }
        Ok(request_id)
    }

    /// Quotes `to_amount` on request `request_id` on behalf of solver
    /// `caller` and returns the id of the meta-order created.
    ///
    /// The meta-order and its pending intent are created together. A
    /// refused quote changes nothing.
    pub fn generate_quote(
        &mut self,
        request_id: String,
        to_amount: u128,
        intent_id: String,
        signature: ChainSignature,
        caller: &String,
        now: u64,
    ) -> (r: Result<String, SolverError>)
        requires
            old(self).wf(),
            old(self)@.order_counter < u64::MAX,
        ensures
            final(self).wf(),
            match r {
                Ok(id) => {
                    &&& old(self)@.quote_error(request_id@, to_amount, caller@, now) is None
                    &&& id@ == old(self)@.next_order_id()
                    &&& !old(self)@.orders.contains_key(id@)
                    &&& final(self)@ == old(self)@.quoted(
                        request_id@,
                        to_amount,
                        intent_id@,
                        signature@,
                        caller@,
                    )
                },
                Err(e) => {
                    &&& old(self)@.quote_error(request_id@, to_amount, caller@, now) == Some(e)
                    &&& *final(self) == *old(self)
                },
            },
    {
        let final_amount: u128 = match check_quote(
            self.solvers.get(caller),
            self.tee_configs.get(caller),
            self.quote_requests.get(&request_id),
            to_amount,
            now,
        ) {
            Ok(a) => a,
            Err(e) => {
                return Err(e);
            },
        };
        let order_id = sequence_id("order_", self.order_counter);
        proof {
            if old(self)@.orders.contains_key(order_id@) {
                let n = choose|n: nat|
                    n < old(self)@.order_counter && order_id@ == #[trigger] order_id_text(n);
                lemma_id_injective("order_"@, n, old(self)@.order_counter as nat);
            }
        }
        let (order, updated, intent) = match self.quote_requests.get(&request_id) {
            Some(request) => build_quote(
                request,
                order_id.clone(),
                final_amount,
                intent_id.clone(),
                signature,
                caller,
            ),
            None => {
                return Err(SolverError::RequestNotFound);
            },
        };
        self.meta_orders.insert(order_id.clone(), order);
        self.quote_requests.insert(request_id, updated);
        self.intents.insert(intent_id, intent);
        self.order_counter = self.order_counter + 1;
        proof {
            let before = old(self)@;
            let after = before.quoted(request_id@, to_amount, intent_id@, signature@, caller@);
            assert(self@.orders =~= after.orders);
            assert(self@.requests =~= after.requests);
            assert(self@.intents =~= after.intents);
            assert(self@ == after);
            assert forall|id: Seq<char>| #[trigger] after.orders.contains_key(id) implies exists|
                n: nat,
            |
                n < after.order_counter && id == #[trigger] order_id_text(n) by {
                if id == order_id@ {
                    assert(id == order_id_text(before.order_counter as nat));
                } else {
                    let n = choose|n: nat|
                        n < before.order_counter && id == #[trigger] order_id_text(n);
                    assert(n < after.order_counter && id == order_id_text(n));
                }
            }
            assert forall|id: Seq<char>| #[trigger] after.requests.contains_key(id) implies exists|
                n: nat,
            |
                n < after.quote_counter && id == #[trigger] request_id_text(n) by {
                assert(before.requests.contains_key(id));
            }
            assert forall|id: Seq<char>| #[trigger]
                after.orders.contains_key(id) implies after.intents.contains_key(
                after.orders[id].intent_id,
            ) by {
                if id != order_id@ {
                    assert(before.orders.contains_key(id));
                }
            }
        }
        Ok(order_id)
    }

    /// Checks whether meta-order `order_id` may be put through settlement
    /// at time `now`, without changing anything.
    pub fn check_meta_order(&self, order_id: &String, now: u64) -> (r: Result<(), SolverError>)
        requires
            self.wf(),
        ensures
            match r {
                Ok(()) => self@.execution_error(order_id@, now) is None,
                Err(e) => self@.execution_error(order_id@, now) == Some(e),
            },
    {
        let order = match self.meta_orders.get(order_id) {
            Some(o) => o,
            None => {
                return Err(SolverError::OrderNotFound);
            },
        };
        // every order has its intent
        match self.intents.get(&order.intent_id) {
            Some(intent) => check_execution(order, intent, now),
            None => Err(SolverError::OrderNotFound),
        }
    }

    /// Moves the reputation of `solver` by one settlement.
    pub fn update_solver_reputation(&mut self, solver: &String, success: bool)
        requires
            old(self).wf(),
        ensures
            final(self).wf(),
            final(self)@ == old(self)@.rated(solver@, success),
    {
        let current: u32 = match self.solver_reputation.get(solver) {
            Some(r) => *r,
            None => INITIAL_REPUTATION,
        };
        let reputation = next_reputation(current, success);
        self.solver_reputation.insert(solver.clone(), reputation);
        let registered = match self.solvers.get(solver) {
            Some(config) => Some(config.clone()),
            None => None,
        };
        match registered {
            Some(mut config) => {
                config.reputation = reputation;
                self.solvers.insert(solver.clone(), config);
            },
            None => {},
        }
        proof {
            let before = old(self)@;
            let after = before.rated(solver@, success);
            assert(self@.reputations =~= after.reputations);
            assert(self@.solvers =~= after.solvers);
            assert(self@.solver_order =~= after.solver_order);
            assert(self@ == after);
            lemma_rated_keeps_invariant(before, solver@, success);
        }
    }

    /// Records how the settlement of meta-order `order_id` by `solver`
    /// ended. Fails with `OrderNotFound`, changing nothing, if there is no
    /// such order.
    pub fn settle_meta_order(&mut self, order_id: &String, solver: &String, success: bool) -> (r:
        Result<(), SolverError>)
        requires
            old(self).wf(),
        ensures
            final(self).wf(),
            match r {
                Ok(()) => {
                    &&& old(self)@.orders.contains_key(order_id@)
                    &&& final(self)@ == old(self)@.settled(order_id@, solver@, success)
                },
                Err(e) => {
                    &&& e == SolverError::OrderNotFound
                    &&& !old(self)@.orders.contains_key(order_id@)
                    &&& *final(self) == *old(self)
                },
            },
    {
        let mut order = match self.meta_orders.get(order_id) {
            Some(o) => o.clone(),
            None => {
                return Err(SolverError::OrderNotFound);
            },
        };
        let mut intent = match self.intents.get(&order.intent_id) {
            Some(i) => i.clone(),
            None => {
                return Err(SolverError::OrderNotFound);
            },
        };
        let intent_id = order.intent_id.clone();
        settle_records(&mut order, &mut intent, success);
        if success {
            self.meta_orders.insert(order_id.clone(), order);
        }
        self.intents.insert(intent_id, intent);
        proof {
            let before = old(self)@;
            let order_view = before.orders[order_id@];
            let intent_view = before.intents[order_view.intent_id];
            let middle = PipelineView {
                orders: if success {
                    before.orders.insert(
                        order_id@,
                        MetaOrderView { is_executed: true, ..order_view },
                    )
                } else {
                    before.orders
                },
                intents: before.intents.insert(
                    order_view.intent_id,
                    IntentView {
                        status: if success {
                            IntentStatus::Executed
                        } else {
                            IntentStatus::Failed
                        },
                        ..intent_view
                    },
                ),
                ..before
            };
            assert(self@.orders =~= middle.orders);
            assert(self@.intents =~= middle.intents);
            assert(self@ == middle);
            assert forall|id: Seq<char>| #[trigger] middle.orders.contains_key(id) implies exists|
                n: nat,
            |
                n < middle.order_counter && id == #[trigger] order_id_text(n) by {
                assert(before.orders.contains_key(id));
            }
            assert forall|id: Seq<char>| #[trigger]
                middle.orders.contains_key(id) implies middle.intents.contains_key(
                middle.orders[id].intent_id,
            ) by {
                assert(before.orders.contains_key(id));
            }
        }
        self.update_solver_reputation(solver, success);
        Ok(())
    }

    /// Puts meta-order `order_id` through settlement on behalf of
    /// `caller`: claims lock `lock_id` of `escrow` with `secret` as the
    /// preimage and records the outcome.
    ///
    /// A settlement that the escrow refuses is an outcome, not an error:
    /// the order's intent becomes `Failed`, the caller's reputation
    /// drops, and the escrow is unchanged. An order that may not be put
    /// through settlement changes nothing.
    pub fn execute_meta_order(
        &mut self,
        escrow: &mut Contract,
        order_id: String,
        secret: String,
        lock_id: u64,
        caller: &String,
        now: u64,
    ) -> (r: Result<Settlement, SolverError>)
        requires
            old(self).wf(),
            old(escrow).wf(),
        ensures
            final(self).wf(),
            final(escrow).wf(),
            final(escrow).next_id() == old(escrow).next_id(),
            match r {
                Ok(outcome) => {
                    let digest = sha256_digest(encode_utf8(secret@));
                    let claimable = old(escrow).escrow(lock_id) matches Some(e) && e.claim_error(
                        caller@,
                        digest,
                        now,
                    ) is None;
                    &&& old(self)@.execution_error(order_id@, now) is None
                    &&& outcome.settled == claimable
                    &&& final(self)@ == old(self)@.settled(order_id@, caller@, claimable)
                    &&& if claimable {
                        &&& outcome.transfer matches Some(t)
                        &&& t@ == old(escrow).escrow(lock_id)->0.claim_transfer()
                        &&& final(escrow).escrows() == old(escrow).escrows().update(
                            lock_id as int,
                            old(escrow).escrow(lock_id)->0.with_state(EscrowState::Claimed),
                        )
                    } else {
                        &&& outcome.transfer is None
                        &&& *final(escrow) == *old(escrow)
                    }
                },
                Err(e) => {
                    &&& old(self)@.execution_error(order_id@, now) == Some(e)
                    &&& *final(self) == *old(self)
                    &&& *final(escrow) == *old(escrow)
                },
            },
    {
        match self.check_meta_order(&order_id, now) {
            Ok(()) => {},
            Err(e) => {
                return Err(e);
            },
        }
        let transfer = match escrow.withdraw(lock_id, secret, caller, now) {
            Ok(t) => Some(t),
            Err(_) => None,
        };
        let settled = transfer.is_some();
        match self.settle_meta_order(&order_id, caller, settled) {
            Ok(()) => {},
            Err(e) => {
                return Err(e);
            },
        }
        Ok(Settlement { settled, transfer })
    }

    /// Deactivates solver `solver_address`, if registered. Only the owner
    /// may do so.
    pub fn deactivate_solver(&mut self, solver_address: String, caller: &String) -> (r: Result<
        (),
        SolverError,
    >)
        requires
            old(self).wf(),
        ensures
            final(self).wf(),
            match r {
                Ok(()) => {
                    &&& caller@ == old(self)@.owner
                    &&& final(self)@ == old(self)@.deactivated(solver_address@)
                },
                Err(e) => {
                    &&& e == SolverError::Unauthorized
                    &&& caller@ != old(self)@.owner
                    &&& *final(self) == *old(self)
                },
            },
    {
        match check_owner(&self.owner_id, caller) {
            Ok(()) => {},
            Err(e) => {
                return Err(e);
            },
        }
        let registered = match self.solvers.get(&solver_address) {
            Some(config) => Some(config.clone()),
            None => None,
        };
        match registered {
            Some(mut config) => {
                config.is_active = false;
                self.solvers.insert(solver_address, config);
                proof {
                    let before = old(self)@;
                    let after = before.deactivated(solver_address@);
                    assert(self@.solvers =~= after.solvers);
                    assert(self@.solver_order =~= after.solver_order);
                    assert(self@ == after);
                    lemma_deactivated_keeps_invariant(before, solver_address@);
                }
            },
            None => {},
        }
        Ok(())
    }

    /// Replaces the quoting terms of solver `solver_address`, if
    /// registered. Only the owner may do so.
    pub fn update_solver_config(
        &mut self,
        solver_address: String,
        min_quote_amount: u128,
        max_quote_amount: u128,
        fee_percentage: u32,
        caller: &String,
    ) -> (r: Result<(), SolverError>)
        requires
            old(self).wf(),
        ensures
            final(self).wf(),
            match r {
                Ok(()) => {
                    &&& caller@ == old(self)@.owner
                    &&& fee_percentage <= MAX_FEE_BPS
                    &&& final(self)@ == old(self)@.reconfigured(
                        solver_address@,
                        min_quote_amount,
                        max_quote_amount,
                        fee_percentage,
                    )
                },
                Err(e) => {
                    &&& *final(self) == *old(self)
                    &&& if caller@ != old(self)@.owner {
                        e == SolverError::Unauthorized
                    } else {
                        e == SolverError::FeeTooHigh && fee_percentage > MAX_FEE_BPS
                    }
                },
            },
    {
        match check_terms(&self.owner_id, fee_percentage, caller) {
            Ok(()) => {},
            Err(e) => {
                return Err(e);
            },
        }
        let registered = match self.solvers.get(&solver_address) {
            Some(config) => Some(config.clone()),
            None => None,
        };
        match registered {
            Some(mut config) => {
                config.min_quote_amount = min_quote_amount;
                config.max_quote_amount = max_quote_amount;
                config.fee_percentage = fee_percentage;
                self.solvers.insert(solver_address, config);
                proof {
                    let before = old(self)@;
                    let after = before.reconfigured(
                        solver_address@,
                        min_quote_amount,
                        max_quote_amount,
                        fee_percentage,
                    );
                    assert(self@.solvers =~= after.solvers);
                    assert(self@.solver_order =~= after.solver_order);
                    assert(self@ == after);
                    lemma_reconfigured_keeps_invariant(
                        before,
                        solver_address@,
                        min_quote_amount,
                        max_quote_amount,
                        fee_percentage,
                    );
                }
            },
            None => {},
        }
        Ok(())
    }

    /// A copy of quote request `request_id`, if it exists.
    pub fn get_quote_request(&self, request_id: String) -> (r: Option<QuoteRequest>)
        requires
            self.wf(),
        ensures
            match r {
                Some(q) => self@.requests.contains_key(request_id@) && q@
                    == self@.requests[request_id@],
                None => !self@.requests.contains_key(request_id@),
            },
    {
        match self.quote_requests.get(&request_id) {
            Some(q) => Some(q.clone()),
            None => None,
        }
    }

    /// A copy of meta-order `order_id`, if it exists.
    pub fn get_meta_order(&self, order_id: String) -> (r: Option<MetaOrder>)
        requires
            self.wf(),
        ensures
            match r {
                Some(o) => self@.orders.contains_key(order_id@) && o@ == self@.orders[order_id@],
                None => !self@.orders.contains_key(order_id@),
            },
    {
        match self.meta_orders.get(&order_id) {
            Some(o) => Some(o.clone()),
            None => None,
        }
    }

    /// A copy of the configuration of solver `solver_address`, if it is
    /// registered.
    pub fn get_solver_config(&self, solver_address: String) -> (r: Option<SolverConfig>)
        requires
            self.wf(),
        ensures
            match r {
                Some(c) => self@.solvers.contains_key(solver_address@) && c@
                    == self@.solvers[solver_address@],
                None => !self@.solvers.contains_key(solver_address@),
            },
    {
        match self.solvers.get(&solver_address) {
            Some(c) => Some(c.clone()),
            None => None,
        }
    }

    /// A copy of intent `intent_id`, if it exists.
    pub fn get_intent(&self, intent_id: String) -> (r: Option<Intent>)
        requires
            self.wf(),
        ensures
            match r {
                Some(i) => self@.intents.contains_key(intent_id@) && i@ == self@.intents[intent_id@],
                None => !self@.intents.contains_key(intent_id@),
            },
    {
        match self.intents.get(&intent_id) {
            Some(i) => Some(i.clone()),
            None => None,
        }
    }

    /// The recorded reputation of `solver_address`; zero if none is
    /// recorded.
    pub fn get_solver_reputation(&self, solver_address: String) -> (r: u32)
        requires
            self.wf(),
        ensures
            r == if self@.reputations.contains_key(solver_address@) {
                self@.reputations[solver_address@]
            } else {
                0
            },
    {
        match self.solver_reputation.get(&solver_address) {
            Some(r) => *r,
            None => 0,
        }
    }

    /// The addresses of the active solvers, in order of first
    /// registration.
    pub fn get_active_solvers(&self) -> (r: Vec<String>)
        requires
            self.wf(),
        ensures
            r@.map_values(|a: String| a@) == self@.active_solvers(),
    {
        let mut active: Vec<String> = Vec::new();
        let n = self.solvers.len();
        let ghost is_active = |a: Seq<char>| self@.solvers[a].is_active;
        let mut i: usize = 0;
        assert(self@.solver_order.take(0) =~= Seq::<Seq<char>>::empty());
        assert(active@.map_values(|a: String| a@) =~= Seq::<Seq<char>>::empty());
        while i < n
            invariant
                self.wf(),
                i <= n,
                n == self@.solver_order.len(),
                is_active == |a: Seq<char>| self@.solvers[a].is_active,
                active@.map_values(|a: String| a@) == self@.solver_order.take(i as int).filter(
                    is_active,
                ),
            decreases n - i,
        {
            let address = self.solvers.key_at(i);
            let config = self.solvers.value_at(i);
            proof {
                let taken = self@.solver_order.take(i as int);
                assert(self@.solver_order.take(i + 1) =~= taken.push(self@.solver_order[i as int]));
                taken.lemma_filter_push(self@.solver_order[i as int], is_active);
            }
            if config.is_active {
                let ghost before = active@.map_values(|a: String| a@);
                active.push(address.clone());
                assert(active@.map_values(|a: String| a@) =~= before.push(address@));
            }
            i += 1;
        }
        assert(self@.solver_order.take(n as int) =~= self@.solver_order);
        active
    }

    /// How many quote requests and how many meta-orders were created so
    /// far.
    pub fn get_quote_stats(&self) -> (r: (u64, u64))
        ensures
            r.0 == self@.quote_counter,
            r.1 == self@.order_counter,
    {
        (self.quote_counter, self.order_counter)
    }
}

/// A solver's reputation after the settlements `outcomes`, in order, with
/// no ceiling.
pub open spec fn reputation_after(start: nat, outcomes: Seq<bool>) -> nat
    decreases outcomes.len(),
{
    if outcomes.len() == 0 {
        start
    } else {
        reputation_step(reputation_after(start, outcomes.drop_last()), outcomes.last())
    }
}

/// Ten times the number of successes less ten times the number of
/// failures among `outcomes`.
pub open spec fn net_change(outcomes: Seq<bool>) -> int
    decreases outcomes.len(),
{
    if outcomes.len() == 0 {
        0
    } else {
        net_change(outcomes.drop_last()) + if outcomes.last() {
            REPUTATION_STEP as int
        } else {
            -(REPUTATION_STEP as int)
        }
    }
}

/// Whether a reputation that starts at `start` stays at or above the
/// floor after each of `outcomes` without the floor's help.
pub open spec fn never_clamped(start: nat, outcomes: Seq<bool>) -> bool {
    forall|k: int| 0 <= k <= outcomes.len() ==> start + net_change(#[trigger] outcomes.take(k)) >= 0
}

/// A reputation is never negative and never below what the settlements
/// add up to; where no settlement ran into the floor, it is exactly the
/// start plus ten for each success less ten for each failure.
pub proof fn lemma_reputation_trajectory(start: nat, outcomes: Seq<bool>)
    ensures
        reputation_after(start, outcomes) >= 0,
        reputation_after(start, outcomes) >= start + net_change(outcomes),
        never_clamped(start, outcomes) ==> reputation_after(start, outcomes) == start + net_change(
            outcomes,
        ),
    decreases outcomes.len(),
{
    if outcomes.len() > 0 {
        let head = outcomes.drop_last();
        lemma_reputation_trajectory(start, head);
        if never_clamped(start, outcomes) {
            assert(outcomes.take(outcomes.len() as int) =~= outcomes);
            assert(outcomes.take(outcomes.len() - 1) =~= head);
            assert forall|k: int| 0 <= k <= head.len() implies start + net_change(
                #[trigger] head.take(k),
            ) >= 0 by {
                assert(head.take(k) =~= outcomes.take(k));
            }
        }
    }
}

/// A run of failures long enough to reach the floor leaves the reputation
/// at zero.
pub proof fn lemma_reputation_floor(start: nat, failures: nat)
    requires
        failures * REPUTATION_STEP >= start,
    ensures
        reputation_after(start, Seq::new(failures, |i: int| false)) == 0,
    decreases failures,
{
    let outcomes = Seq::new(failures, |i: int| false);
    if failures == 0 {
    } else {
        let head = Seq::new((failures - 1) as nat, |i: int| false);
        assert(outcomes.drop_last() =~= head);
        if (failures - 1) * REPUTATION_STEP >= start {
            lemma_reputation_floor(start, (failures - 1) as nat);
        } else {
            lemma_reputation_trajectory(start, head);
            lemma_failures_bound(start, (failures - 1) as nat);
        }
    }
}

/// After a run of failures the reputation is at most the start less ten
/// for each failure, or zero.
pub proof fn lemma_failures_bound(start: nat, failures: nat)
    ensures
        reputation_after(start, Seq::new(failures, |i: int| false)) <= if start >= failures
            * REPUTATION_STEP {
            start - failures * REPUTATION_STEP
        } else {
            0
        },
    decreases failures,
{
    if failures > 0 {
        let outcomes = Seq::new(failures, |i: int| false);
        let head = Seq::new((failures - 1) as nat, |i: int| false);
        assert(outcomes.drop_last() =~= head);
        lemma_failures_bound(start, (failures - 1) as nat);
    }
}

/// A settlement is final: once an order has been put through settlement,
/// whether that settled or failed, putting it through again before its
/// deadline is refused with `AlreadyExecuted`, and its intent is no longer
/// pending.
pub proof fn lemma_settlement_is_final(
    p: PipelineView,
    order_id: Seq<char>,
    solver: Seq<char>,
    success: bool,
    now: u64,
    later: u64,
)
    requires
        p.execution_error(order_id, now) is None,
        later <= p.orders[order_id].deadline,
    ensures
        p.settled(order_id, solver, success).execution_error(order_id, later) == Some(
            SolverError::AlreadyExecuted,
        ),
        p.settled(order_id, solver, success).intents[p.orders[order_id].intent_id].status == if success {
            IntentStatus::Executed
        } else {
            IntentStatus::Failed
        },
        p.settled(order_id, solver, success).orders[order_id].is_executed == success,
{
}

/// Registering a solver keeps the invariant of the pipeline's state.
pub proof fn lemma_registered_keeps_invariant(
    p: PipelineView,
    address: Seq<char>,
    min_quote_amount: u128,
    max_quote_amount: u128,
    fee_percentage: u32,
    tee_config: TEEConfigView,
)
    requires
        p.wf(),
        fee_percentage <= MAX_FEE_BPS,
    ensures
        p.registered(address, min_quote_amount, max_quote_amount, fee_percentage, tee_config).wf(),
{
    let r = p.registered(address, min_quote_amount, max_quote_amount, fee_percentage, tee_config);
    assert forall|i: int| 0 <= i < r.solver_order.len() implies r.solvers.contains_key(
        #[trigger] r.solver_order[i],
    ) by {
        if i < p.solver_order.len() {
            assert(p.solvers.contains_key(p.solver_order[i]));
        }
    }
    assert forall|a: Seq<char>| #[trigger] r.solvers.contains_key(a) implies r.solver_order.contains(
        a,
    ) by {
        if a == address {
            if !p.solvers.contains_key(address) {
                assert(r.solver_order[p.solver_order.len() as int] == address);
            }
        } else {
            assert(p.solvers.contains_key(a));
            let i = p.solver_order.index_of(a);
            assert(r.solver_order[i] == a);
        }
    }
}

/// A change to the records of registered solvers that keeps their
/// addresses, fees and place in the order, and keeps each record's
/// reputation equal to the recorded one, keeps the invariant.
proof fn lemma_solver_records_keep_invariant(p: PipelineView, q: PipelineView)
    requires
        p.wf(),
        q.requests == p.requests,
        q.orders == p.orders,
        q.intents == p.intents,
        q.quote_counter == p.quote_counter,
        q.order_counter == p.order_counter,
        q.solver_order == p.solver_order,
        forall|a: Seq<char>| q.solvers.contains_key(a) <==> p.solvers.contains_key(a),
        forall|a: Seq<char>| #[trigger]
            q.solvers.contains_key(a) ==> {
                &&& q.solvers[a].fee_percentage <= MAX_FEE_BPS
                &&& q.reputations.contains_key(a)
                &&& q.reputations[a] == q.solvers[a].reputation
            },
    ensures
        q.wf(),
{
    assert forall|i: int| 0 <= i < q.solver_order.len() implies q.solvers.contains_key(
        #[trigger] q.solver_order[i],
    ) by {
        assert(p.solvers.contains_key(p.solver_order[i]));
    }
    assert forall|a: Seq<char>| #[trigger] q.solvers.contains_key(a) implies q.solver_order.contains(
        a,
    ) by {
        assert(p.solvers.contains_key(a));
    }
}

/// Moving a solver's reputation keeps the invariant of the pipeline's
/// state.
pub proof fn lemma_rated_keeps_invariant(p: PipelineView, solver: Seq<char>, success: bool)
    requires
        p.wf(),
    ensures
        p.rated(solver, success).wf(),
{
    let q = p.rated(solver, success);
    lemma_solver_records_keep_invariant(p, q);
}

/// Deactivating a solver keeps the invariant of the pipeline's state.
pub proof fn lemma_deactivated_keeps_invariant(p: PipelineView, address: Seq<char>)
    requires
        p.wf(),
    ensures
        p.deactivated(address).wf(),
{
    let q = p.deactivated(address);
    lemma_solver_records_keep_invariant(p, q);
}

/// Replacing a solver's quoting terms by ones with an admissible fee
/// keeps the invariant of the pipeline's state.
pub proof fn lemma_reconfigured_keeps_invariant(
    p: PipelineView,
    address: Seq<char>,
    min_quote_amount: u128,
    max_quote_amount: u128,
    fee_percentage: u32,
)
    requires
        p.wf(),
        fee_percentage <= MAX_FEE_BPS,
    ensures
        p.reconfigured(address, min_quote_amount, max_quote_amount, fee_percentage).wf(),
{
    let q = p.reconfigured(address, min_quote_amount, max_quote_amount, fee_percentage);
    lemma_solver_records_keep_invariant(p, q);
}

} // verus!
