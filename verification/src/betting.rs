//! Bets on events, their cross-chain variant, and the solver bookkeeping
//! that goes with swapping a bet between chains.

use crate::amount::decimal_text;
use crate::amount::format_decimal;
use crate::hashlock::{sha256, sha256_digest, HASHLOCK_LEN};
use crate::ids::{lemma_id_injective, sequence_id, sequence_text};
use crate::table::Table;
use vstd::prelude::*;
use vstd::string::StringExecFns;
use vstd::utf8::encode_utf8;

verus! {

/// The reputation of a newly registered solver.
pub const INITIAL_REPUTATION: u64 = 100;

/// What creating a meta-order adds to a solver's reputation.
pub const QUOTE_REWARD: u64 = 10;

/// What executing a meta-order adds to a solver's reputation.
pub const EXECUTION_REWARD: u64 = 20;

/// How long after a cross-chain bet its swap intent stays valid.
pub const INTENT_LIFETIME: u64 = 3600;

/// Why a betting operation was rejected.
#[derive(Clone, Copy, Debug, PartialEq, Eq, Structural)]
pub enum BetError {
    /// No event has the given id.
    EventNotFound,
    /// The event's outcome is already known.
    EventResolved,
    /// The amount of the bet is zero.
    InvalidAmount,
    /// A total would not fit in its integer type.
    Overflow,
    /// The order's signature was rejected.
    InvalidSignature,
    /// The caller has no rewards to claim.
    NoRewards,
}

impl BetError {
    /// What this error says to the caller.
    pub open spec fn message_text(self) -> Seq<char> {
        match self {
            BetError::EventNotFound => "Event not found"@,
            BetError::EventResolved => "Event already resolved"@,
            BetError::InvalidAmount => "Amount must be greater than 0"@,
            BetError::Overflow => "Amount too large"@,
            BetError::InvalidSignature => "Invalid signature"@,
            BetError::NoRewards => "No rewards to claim"@,
        }
    }

    /// What this error says to the caller.
    pub fn message(&self) -> (r: &'static str)
        ensures
            r@ == self.message_text(),
    {
        match self {
            BetError::EventNotFound => "Event not found",
            BetError::EventResolved => "Event already resolved",
            BetError::InvalidAmount => "Amount must be greater than 0",
            BetError::Overflow => "Amount too large",
            BetError::InvalidSignature => "Invalid signature",
            BetError::NoRewards => "No rewards to claim",
        }
    }
}

/// An event to bet on.
pub struct BetEvent {
    pub description: String,
    pub end_time: u64,
    pub resolved: bool,
    pub outcome: bool,
    /// The sum of all bets placed.
    pub total_bets: u128,
    /// The latest bet of each user.
    pub user_bets: Table<String, u128>,
}

/// Mathematical content of a [`BetEvent`].
pub struct BetEventView {
    pub description: Seq<char>,
    pub end_time: u64,
    pub resolved: bool,
    pub outcome: bool,
    pub total_bets: u128,
    pub user_bets: Map<Seq<char>, u128>,
}

impl View for BetEvent {
    type V = BetEventView;

    open spec fn view(&self) -> BetEventView {
        BetEventView {
            description: self.description@,
            end_time: self.end_time,
            resolved: self.resolved,
            outcome: self.outcome,
            total_bets: self.total_bets,
            user_bets: self.user_bets.map(),
        }
    }
}

/// Copies a table of amounts.
pub fn clone_amounts(amounts: &Table<String, u128>) -> (r: Table<String, u128>)
    requires
        amounts.wf(),
    ensures
        r.wf(),
        r.map() == amounts.map(),
        r.keys() == amounts.keys(),
{
    let mut copy: Table<String, u128> = Table::new();
    let n = amounts.len();
    let mut i: usize = 0;
    while i < n
        invariant
            amounts.wf(),
            copy.wf(),
            i <= n,
            n == amounts.keys().len(),
            copy.keys() == amounts.keys().take(i as int),
            forall|j: int| 0 <= j < i ==> copy.map()[#[trigger] amounts.keys()[j]] == amounts.map()[amounts.keys()[j]],
        decreases n - i,
    {
        let key = amounts.key_at(i);
        let value = amounts.value_at(i);
        proof {
            if amounts.keys().take(i as int).contains(key@) {
                let j = amounts.keys().take(i as int).index_of(key@);
                assert(amounts.keys()[j] == amounts.keys()[i as int]);
            }
            assert(amounts.keys().take(i + 1) =~= amounts.keys().take(i as int).push(key@));
        }
        copy.insert(key.clone(), *value);
        assert forall|j: int| 0 <= j < i + 1 implies copy.map()[#[trigger] amounts.keys()[j]]
            == amounts.map()[amounts.keys()[j]] by {
            if j < i {
                assert(amounts.keys()[j] != key@);
            }
        }
        i += 1;
    }
    proof {
        assert(amounts.keys().take(n as int) =~= amounts.keys());
        assert forall|k: Seq<char>| copy.map().contains_key(k) implies #[trigger] copy.map()[k]
            == amounts.map()[k] by {
            let j = amounts.keys().index_of(k);
            assert(amounts.keys()[j] == k);
        }
        assert(copy.map() =~= amounts.map());
    }
    copy
}

impl BetEventView {
    /// The first reason, if any, for which a bet of `amount` on this
    /// event is refused.
    pub open spec fn place_error(self, amount: u128) -> Option<BetError> {
        if self.resolved {
            Some(BetError::EventResolved)
        } else if amount == 0 {
            Some(BetError::InvalidAmount)
        } else if self.total_bets + amount > u128::MAX {
            Some(BetError::Overflow)
        } else {
            None
        }
    }

    /// The event after `caller` bet `amount`: the bet replaces the
    /// caller's earlier bet and adds to the total.
    pub open spec fn with_bet(self, amount: u128, caller: Seq<char>) -> BetEventView {
        BetEventView {
            total_bets: (self.total_bets + amount) as u128,
            user_bets: self.user_bets.insert(caller, amount),
            ..self
        }
    }
}

/// The rewards of a user who had `current` and bets `amount`: a hundredth
/// of the amount more, if that fits in 128 bits.
pub fn credit_reward(current: u128, amount: u128) -> (r: Option<u128>)
    ensures
        match r {
            Some(total) => total == current + amount / 100,
            None => current + amount / 100 > u128::MAX,
        },
{
    current.checked_add(amount / 100)
}

impl BetEvent {
    /// Places `caller`'s bet of `amount` on this event. A refused bet
    /// changes nothing.
    pub fn place(&mut self, amount: u128, caller: &String) -> (r: Result<(), BetError>)
        requires
            old(self).user_bets.wf(),
        ensures
            final(self).user_bets.wf(),
            match r {
                Ok(()) => {
                    &&& old(self)@.place_error(amount) is None
                    &&& final(self)@ == old(self)@.with_bet(amount, caller@)
                },
                Err(e) => {
                    &&& old(self)@.place_error(amount) == Some(e)
                    &&& *final(self) == *old(self)
                },
            },
    {
        if self.resolved {
            return Err(BetError::EventResolved);
        }
        if amount == 0 {
            return Err(BetError::InvalidAmount);
        }
        let total: u128 = match self.total_bets.checked_add(amount) {
            Some(t) => t,
            None => {
                return Err(BetError::Overflow);
            },
        };
        self.user_bets.insert(caller.clone(), amount);
        self.total_bets = total;
        Ok(())
    }

    /// A copy of this event.
    pub fn duplicate(&self) -> (r: Self)
        requires
            self.user_bets.wf(),
        ensures
            r.user_bets.wf(),
            r@ == self@,
    {
        BetEvent {
            description: self.description.clone(),
            end_time: self.end_time,
            resolved: self.resolved,
            outcome: self.outcome,
            total_bets: self.total_bets,
            user_bets: clone_amounts(&self.user_bets),
        }
    }
}

/// A bet placed from another chain.
pub struct CrossChainBet {
    pub user: String,
    pub event_id: String,
    pub amount: u128,
    pub outcome: bool,
    pub is_cross_chain: bool,
    pub eth_address: String,
    pub completed: bool,
}

/// Mathematical content of a [`CrossChainBet`].
pub struct CrossChainBetView {
    pub user: Seq<char>,
    pub event_id: Seq<char>,
    pub amount: u128,
    pub outcome: bool,
    pub is_cross_chain: bool,
    pub eth_address: Seq<char>,
    pub completed: bool,
}

impl View for CrossChainBet {
    type V = CrossChainBetView;

    open spec fn view(&self) -> CrossChainBetView {
        CrossChainBetView {
            user: self.user@,
            event_id: self.event_id@,
            amount: self.amount,
            outcome: self.outcome,
            is_cross_chain: self.is_cross_chain,
            eth_address: self.eth_address@,
            completed: self.completed,
        }
    }
}

/// A predicted outcome of an event.
pub struct AIOutcomePrediction {
    pub event_id: String,
    pub predicted_outcome: bool,
    /// Confidence in percent.
    pub confidence: u64,
    pub oracle_data: String,
    pub timestamp: u64,
}

/// Mathematical content of an [`AIOutcomePrediction`].
pub struct AIOutcomePredictionView {
    pub event_id: Seq<char>,
    pub predicted_outcome: bool,
    pub confidence: u64,
    pub oracle_data: Seq<char>,
    pub timestamp: u64,
}

impl View for AIOutcomePrediction {
    type V = AIOutcomePredictionView;

    open spec fn view(&self) -> AIOutcomePredictionView {
        AIOutcomePredictionView {
            event_id: self.event_id@,
            predicted_outcome: self.predicted_outcome,
            confidence: self.confidence,
            oracle_data: self.oracle_data@,
            timestamp: self.timestamp,
        }
    }
}

impl Clone for AIOutcomePrediction {
    fn clone(&self) -> (r: Self)
        ensures
            r == *self,
    {
        AIOutcomePrediction {
            event_id: self.event_id.clone(),
            predicted_outcome: self.predicted_outcome,
            confidence: self.confidence,
            oracle_data: self.oracle_data.clone(),
            timestamp: self.timestamp,
        }
    }
}

/// The wish to swap a bet to another chain.
pub struct BetSwapIntent {
    pub user: String,
    pub event_id: String,
    pub amount: u128,
    pub outcome: bool,
    pub target_chain: String,
    pub deadline: u64,
}

/// Mathematical content of a [`BetSwapIntent`].
pub struct BetSwapIntentView {
    pub user: Seq<char>,
    pub event_id: Seq<char>,
    pub amount: u128,
    pub outcome: bool,
    pub target_chain: Seq<char>,
    pub deadline: u64,
}

impl View for BetSwapIntent {
    type V = BetSwapIntentView;

    open spec fn view(&self) -> BetSwapIntentView {
        BetSwapIntentView {
            user: self.user@,
            event_id: self.event_id@,
            amount: self.amount,
            outcome: self.outcome,
            target_chain: self.target_chain@,
            deadline: self.deadline,
        }
    }
}

/// A signature over an intent.
pub struct ChainSignature {
    pub signature: String,
    pub intent_id: String,
    pub timestamp: u64,
}

/// A solver's order to settle a bet swap.
pub struct MetaOrder {
    pub order_id: String,
    pub user: String,
    pub event_id: String,
    pub amount: u128,
    pub outcome: bool,
    pub intent_id: String,
    pub signature: String,
    pub is_executed: bool,
}

/// Mathematical content of a [`MetaOrder`].
pub struct MetaOrderView {
    pub order_id: Seq<char>,
    pub user: Seq<char>,
    pub event_id: Seq<char>,
    pub amount: u128,
    pub outcome: bool,
    pub intent_id: Seq<char>,
    pub signature: Seq<char>,
    pub is_executed: bool,
}

impl View for MetaOrder {
    type V = MetaOrderView;

    open spec fn view(&self) -> MetaOrderView {
        MetaOrderView {
            order_id: self.order_id@,
            user: self.user@,
            event_id: self.event_id@,
            amount: self.amount,
            outcome: self.outcome,
            intent_id: self.intent_id@,
            signature: self.signature@,
            is_executed: self.is_executed,
        }
    }
}

impl Clone for MetaOrder {
    fn clone(&self) -> (r: Self)
        ensures
            r == *self,
    {
        MetaOrder {
            order_id: self.order_id.clone(),
            user: self.user.clone(),
            event_id: self.event_id.clone(),
            amount: self.amount,
            outcome: self.outcome,
            intent_id: self.intent_id.clone(),
            signature: self.signature.clone(),
            is_executed: self.is_executed,
        }
    }
}

/// A solver's trusted execution environment.
pub struct TEEConfig {
    pub enclave_id: String,
    pub attestation: String,
    pub is_verified: bool,
}

/// Mathematical content of a [`TEEConfig`].
pub struct TEEConfigView {
    pub enclave_id: Seq<char>,
    pub attestation: Seq<char>,
    pub is_verified: bool,
}

impl View for TEEConfig {
    type V = TEEConfigView;

    open spec fn view(&self) -> TEEConfigView {
        TEEConfigView {
            enclave_id: self.enclave_id@,
            attestation: self.attestation@,
            is_verified: self.is_verified,
        }
    }
}

/// A registered solver.
pub struct SolverConfig {
    pub solver_address: String,
    pub min_quote_amount: u128,
    pub max_quote_amount: u128,
    pub fee_percentage: u64,
    pub tee_config: TEEConfig,
}

/// Mathematical content of a [`SolverConfig`].
pub struct SolverConfigView {
    pub solver_address: Seq<char>,
    pub min_quote_amount: u128,
    pub max_quote_amount: u128,
    pub fee_percentage: u64,
    pub tee_config: TEEConfigView,
}

impl View for SolverConfig {
    type V = SolverConfigView;

    open spec fn view(&self) -> SolverConfigView {
        SolverConfigView {
            solver_address: self.solver_address@,
            min_quote_amount: self.min_quote_amount,
            max_quote_amount: self.max_quote_amount,
            fee_percentage: self.fee_percentage,
            tee_config: self.tee_config@,
        }
    }
}

/// A request to price the swap of a bet.
pub struct SwapQuoteRequest {
    pub from_token: String,
    pub to_token: String,
    pub from_amount: u128,
    pub deadline: u64,
}

/// Mathematical content of a [`SwapQuoteRequest`].
pub struct SwapQuoteRequestView {
    pub from_token: Seq<char>,
    pub to_token: Seq<char>,
    pub from_amount: u128,
    pub deadline: u64,
}

impl View for SwapQuoteRequest {
    type V = SwapQuoteRequestView;

    open spec fn view(&self) -> SwapQuoteRequestView {
        SwapQuoteRequestView {
            from_token: self.from_token@,
            to_token: self.to_token@,
            from_amount: self.from_amount,
            deadline: self.deadline,
        }
    }
}

/// The outcome predicted from the digest of the oracle data: the parity
/// of its first byte.
pub open spec fn predicted_outcome(digest: Seq<u8>) -> bool {
    digest[0] % 2 == 0
}

/// The confidence, in percent, derived from the digest of the oracle
/// data: its second byte scaled from 0..=255 to 0..=100.
pub open spec fn predicted_confidence(digest: Seq<u8>) -> u64 {
    ((digest[1] as int * 100) / 255) as u64
}

/// The id of a cross-chain bet: event, user and time, joined by `_`.
pub open spec fn bet_id_text(event_id: Seq<char>, user: Seq<char>, now: u64) -> Seq<char> {
    event_id + "_"@ + user + "_"@ + decimal_text(now as nat)
}

/// The id of the swap intent of a cross-chain bet.
pub open spec fn intent_id_text(bet_id: Seq<char>) -> Seq<char> {
    "intent_"@ + bet_id
}

/// Accepts a signature that is not empty, over an intent id that is not
/// empty.
pub fn verify_near_signature(signature: &String, intent_id: &String) -> (r: bool)
    ensures
        r == (signature@.len() > 0 && intent_id@.len() > 0),
{
    !signature.as_str().is_empty() && !intent_id.as_str().is_empty()
}

/// Reads an outcome off the digest of the oracle data.
pub fn analyze_oracle_digest(digest: &Vec<u8>) -> (r: bool)
    requires
        digest@.len() == HASHLOCK_LEN,
    ensures
        r == predicted_outcome(digest@),
{
    digest[0] % 2 == 0
}

/// Reads a confidence off the digest of the oracle data.
pub fn calculate_confidence(digest: &Vec<u8>) -> (r: u64)
    requires
        digest@.len() == HASHLOCK_LEN,
    ensures
        r == predicted_confidence(digest@),
        r <= 100,
{
    let byte: u64 = digest[1] as u64;
    (byte * 100) / 255
}

/// Predicts the outcome of event `event_id` from `oracle_data` at time
/// `now`: outcome and confidence are read off the SHA-256 digest of the
/// data.
pub fn predict(event_id: String, oracle_data: String, now: u64) -> (r: AIOutcomePrediction)
    ensures
        r@ == (AIOutcomePredictionView {
            event_id: event_id@,
            predicted_outcome: predicted_outcome(sha256_digest(encode_utf8(oracle_data@))),
            confidence: predicted_confidence(sha256_digest(encode_utf8(oracle_data@))),
            oracle_data: oracle_data@,
            timestamp: now,
        }),
{
    let digest = sha256(oracle_data.as_str().as_bytes());
    AIOutcomePrediction {
        event_id,
        predicted_outcome: analyze_oracle_digest(&digest),
        confidence: calculate_confidence(&digest),
        oracle_data,
        timestamp: now,
    }
}

/// Mathematical content of the betting state.
pub struct BetSwapView {
    pub bet_events: Map<Seq<char>, BetEventView>,
    pub cross_chain_bets: Map<Seq<char>, CrossChainBetView>,
    pub user_rewards: Map<Seq<char>, u128>,
    pub ai_predictions: Map<Seq<char>, AIOutcomePredictionView>,
    pub bet_intents: Map<Seq<char>, BetSwapIntentView>,
    pub meta_orders: Map<Seq<char>, MetaOrderView>,
    pub solvers: Map<Seq<char>, SolverConfigView>,
    pub solver_reputation: Map<Seq<char>, u64>,
    pub quote_requests: Map<Seq<char>, SwapQuoteRequestView>,
    /// Number of meta-orders created so far.
    pub order_counter: u64,
    /// Number of quote requests made so far.
    pub quote_counter: u64,
}

/// The id of the `n`-th quote request, counted from one.
pub open spec fn quote_id_text(n: nat) -> Seq<char> {
    sequence_text("quote_"@, n)
}

/// The id of the `n`-th meta-order, counted from one.
pub open spec fn order_id_text(n: nat) -> Seq<char> {
    sequence_text("order_"@, n)
}

impl BetSwapView {
    /// The invariant of the betting state: request and order ids are those
    /// handed out so far.
    pub open spec fn wf(self) -> bool {
        &&& forall|id: Seq<char>| #[trigger]
            self.quote_requests.contains_key(id) ==> exists|n: nat|
                1 <= n <= self.quote_counter && id == #[trigger] quote_id_text(n)
        &&& forall|id: Seq<char>| #[trigger]
            self.meta_orders.contains_key(id) ==> exists|n: nat|
                1 <= n <= self.order_counter && id == #[trigger] order_id_text(n)
    }

    /// The rewards that `user` has not yet claimed.
    pub open spec fn rewards_of(self, user: Seq<char>) -> u128 {
        if self.user_rewards.contains_key(user) {
            self.user_rewards[user]
        } else {
            0
        }
    }

    /// The recorded reputation of `solver`; zero if none is recorded.
    pub open spec fn reputation_of(self, solver: Seq<char>) -> u64 {
        if self.solver_reputation.contains_key(solver) {
            self.solver_reputation[solver]
        } else {
            0
        }
    }

    /// The state after event `event_id` was created, or created anew.
    pub open spec fn with_event(self, event_id: Seq<char>, description: Seq<char>, end_time: u64) -> BetSwapView {
        BetSwapView {
            bet_events: self.bet_events.insert(
                event_id,
                BetEventView {
                    description,
                    end_time,
                    resolved: false,
                    outcome: false,
                    total_bets: 0,
                    user_bets: Map::empty(),
                },
            ),
            ..self
        }
    }

    /// The first reason, if any, for which `caller`'s bet of `amount` on
    /// event `event_id` is refused.
    pub open spec fn bet_error(self, event_id: Seq<char>, amount: u128, caller: Seq<char>) -> Option<
        BetError,
    > {
        if !self.bet_events.contains_key(event_id) {
            Some(BetError::EventNotFound)
        } else if self.bet_events[event_id].place_error(amount) is Some {
            self.bet_events[event_id].place_error(amount)
        } else if self.rewards_of(caller) + amount / 100 > u128::MAX {
            Some(BetError::Overflow)
        } else {
            None
        }
    }

    /// The state after `caller` bet `amount` on event `event_id`: the bet
    /// replaces the caller's earlier bet on the event, adds to the event's
    /// total, and earns the caller a hundredth of the amount in rewards.
    pub open spec fn with_bet(self, event_id: Seq<char>, amount: u128, caller: Seq<char>) -> BetSwapView {
        BetSwapView {
            bet_events: self.bet_events.insert(
                event_id,
                self.bet_events[event_id].with_bet(amount, caller),
            ),
            user_rewards: self.user_rewards.insert(
                caller,
                (self.rewards_of(caller) + amount / 100) as u128,
            ),
            ..self
        }
    }

    /// The state after `caller` placed a cross-chain bet at time `now`:
    /// the bet is filed under its id and a swap intent towards `ETH`, good
    /// for an hour, under the intent's id.
    pub open spec fn with_cross_chain_bet(
        self,
        event_id: Seq<char>,
        amount: u128,
        outcome: bool,
        eth_address: Seq<char>,
        caller: Seq<char>,
        now: u64,
    ) -> BetSwapView {
        let bet_id = bet_id_text(event_id, caller, now);
        BetSwapView {
            cross_chain_bets: self.cross_chain_bets.insert(
                bet_id,
                CrossChainBetView {
                    user: caller,
                    event_id,
                    amount,
                    outcome,
                    is_cross_chain: true,
                    eth_address,
                    completed: false,
                },
            ),
            bet_intents: self.bet_intents.insert(
                intent_id_text(bet_id),
                BetSwapIntentView {
                    user: caller,
                    event_id,
                    amount,
                    outcome,
                    target_chain: "ETH"@,
                    deadline: (now + INTENT_LIFETIME) as u64,
                },
            ),
            ..self
        }
    }

    /// The state after a prediction for event `event_id` was recorded: the
    /// event, if it exists, is resolved to the predicted outcome.
    pub open spec fn with_prediction(self, prediction: AIOutcomePredictionView) -> BetSwapView {
        BetSwapView {
            ai_predictions: self.ai_predictions.insert(prediction.event_id, prediction),
            bet_events: if self.bet_events.contains_key(prediction.event_id) {
                self.bet_events.insert(
                    prediction.event_id,
                    BetEventView {
                        resolved: true,
                        outcome: prediction.predicted_outcome,
                        ..self.bet_events[prediction.event_id]
                    },
                )
            } else {
                self.bet_events
            },
            ..self
        }
    }

    /// The state after a solver was registered, or registered anew, with
    /// the initial reputation.
    pub open spec fn with_solver(self, config: SolverConfigView) -> BetSwapView {
        BetSwapView {
            solvers: self.solvers.insert(config.solver_address, config),
            solver_reputation: self.solver_reputation.insert(
                config.solver_address,
                INITIAL_REPUTATION,
            ),
            ..self
        }
    }

    /// The state after a quote request was filed under the next id.
    pub open spec fn with_quote_request(self, request: SwapQuoteRequestView) -> BetSwapView {
        BetSwapView {
            quote_requests: self.quote_requests.insert(
                quote_id_text((self.quote_counter + 1) as nat),
                request,
            ),
            quote_counter: (self.quote_counter + 1) as u64,
            ..self
        }
    }

    /// The state after solver `caller` created a meta-order under the
    /// next id and earned the reward for quoting.
    pub open spec fn with_order(
        self,
        to_amount: u128,
        intent_id: Seq<char>,
        signature: Seq<char>,
        caller: Seq<char>,
    ) -> BetSwapView {
        let order_id = order_id_text((self.order_counter + 1) as nat);
        BetSwapView {
            meta_orders: self.meta_orders.insert(
                order_id,
                MetaOrderView {
                    order_id,
                    user: caller,
                    event_id: Seq::empty(),
                    amount: to_amount,
                    outcome: false,
                    intent_id,
                    signature,
                    is_executed: false,
                },
            ),
            solver_reputation: self.solver_reputation.insert(
                caller,
                (self.reputation_of(caller) + QUOTE_REWARD) as u64,
            ),
            order_counter: (self.order_counter + 1) as u64,
            ..self
        }
    }

    /// The first reason, if any, for which `caller` may not execute the
    /// existing meta-order `order_id`.
    pub open spec fn execution_error(self, order_id: Seq<char>, caller: Seq<char>) -> Option<
        BetError,
    > {
        if self.meta_orders[order_id].signature.len() == 0
            || self.meta_orders[order_id].intent_id.len() == 0 {
            Some(BetError::InvalidSignature)
        } else if self.reputation_of(caller) + EXECUTION_REWARD > u64::MAX {
            Some(BetError::Overflow)
        } else {
            None
        }
    }

    /// The state after solver `caller` executed meta-order `order_id` and
    /// earned the reward for executing.
    pub open spec fn with_execution(self, order_id: Seq<char>, caller: Seq<char>) -> BetSwapView {
        BetSwapView {
            meta_orders: self.meta_orders.insert(
                order_id,
                MetaOrderView { is_executed: true, ..self.meta_orders[order_id] },
            ),
            solver_reputation: self.solver_reputation.insert(
                caller,
                (self.reputation_of(caller) + EXECUTION_REWARD) as u64,
            ),
            ..self
        }
    }

    /// The state after `caller` claimed all rewards.
    pub open spec fn with_rewards_claimed(self, caller: Seq<char>) -> BetSwapView {
        BetSwapView { user_rewards: self.user_rewards.insert(caller, 0), ..self }
    }
}

/// The betting engine.
pub struct BetSwapAI {
    bet_events: Table<String, BetEvent>,
    cross_chain_bets: Table<String, CrossChainBet>,
    user_rewards: Table<String, u128>,
    ai_predictions: Table<String, AIOutcomePrediction>,
    bet_intents: Table<String, BetSwapIntent>,
    meta_orders: Table<String, MetaOrder>,
    solvers: Table<String, SolverConfig>,
    solver_reputation: Table<String, u64>,
    quote_requests: Table<String, SwapQuoteRequest>,
    order_counter: u64,
    quote_counter: u64,
}

impl View for BetSwapAI {
    type V = BetSwapView;

    closed spec fn view(&self) -> BetSwapView {
        BetSwapView {
            bet_events: self.bet_events.map().map_values(|e: BetEvent| e@),
            cross_chain_bets: self.cross_chain_bets.map().map_values(|b: CrossChainBet| b@),
            user_rewards: self.user_rewards.map(),
            ai_predictions: self.ai_predictions.map().map_values(|p: AIOutcomePrediction| p@),
            bet_intents: self.bet_intents.map().map_values(|i: BetSwapIntent| i@),
            meta_orders: self.meta_orders.map().map_values(|o: MetaOrder| o@),
            solvers: self.solvers.map().map_values(|c: SolverConfig| c@),
            solver_reputation: self.solver_reputation.map(),
            quote_requests: self.quote_requests.map().map_values(|q: SwapQuoteRequest| q@),
            order_counter: self.order_counter,
            quote_counter: self.quote_counter,
        }
    }
}

impl BetSwapAI {
    /// The engine's invariant.
    pub closed spec fn wf(&self) -> bool {
        &&& self.bet_events.wf()
        &&& self.cross_chain_bets.wf()
        &&& self.user_rewards.wf()
        &&& self.ai_predictions.wf()
        &&& self.bet_intents.wf()
        &&& self.meta_orders.wf()
        &&& self.solvers.wf()
        &&& self.solver_reputation.wf()
        &&& self.quote_requests.wf()
        &&& forall|id: Seq<char>| #[trigger]
            self.bet_events.map().contains_key(id) ==> self.bet_events.map()[id].user_bets.wf()
        &&& self@.wf()
    }

    /// The state of a well-formed engine satisfies the invariant of
    /// [`BetSwapView`].
    pub proof fn lemma_view_wf(&self)
        requires
            self.wf(),
        ensures
            self@.wf(),
    {
    }

    /// An engine without events, bets, solvers or orders.
    pub fn new() -> (b: Self)
        ensures
            b.wf(),
            b@ == (BetSwapView {
                bet_events: Map::empty(),
                cross_chain_bets: Map::empty(),
                user_rewards: Map::empty(),
                ai_predictions: Map::empty(),
                bet_intents: Map::empty(),
                meta_orders: Map::empty(),
                solvers: Map::empty(),
                solver_reputation: Map::empty(),
                quote_requests: Map::empty(),
                order_counter: 0,
                quote_counter: 0,
            }),
    {
        let b = BetSwapAI {
            bet_events: Table::new(),
            cross_chain_bets: Table::new(),
            user_rewards: Table::new(),
            ai_predictions: Table::new(),
            bet_intents: Table::new(),
            meta_orders: Table::new(),
            solvers: Table::new(),
            solver_reputation: Table::new(),
            quote_requests: Table::new(),
            order_counter: 0,
            quote_counter: 0,
        };
        assert(b@.bet_events =~= Map::empty());
        assert(b@.cross_chain_bets =~= Map::empty());
        assert(b@.ai_predictions =~= Map::empty());
        assert(b@.bet_intents =~= Map::empty());
        assert(b@.meta_orders =~= Map::empty());
        assert(b@.solvers =~= Map::empty());
        assert(b@.quote_requests =~= Map::empty());
        b
    }

    /// Creates event `event_id`, open and without bets. An earlier event
    /// with the same id is replaced.
    pub fn create_bet_event(&mut self, event_id: String, description: String, end_time: u64)
        requires
            old(self).wf(),
        ensures
            final(self).wf(),
            final(self)@ == old(self)@.with_event(event_id@, description@, end_time),
    {
        let event = BetEvent {
            description,
            end_time,
            resolved: false,
            outcome: false,
            total_bets: 0,
            user_bets: Table::new(),
        };
        self.bet_events.insert(event_id, event);
        proof {
            let after = old(self)@.with_event(event_id@, description@, end_time);
            assert(self@.bet_events =~= after.bet_events);
            assert(self@ == after);
        }
    }

    /// Places `caller`'s bet of `amount` on event `event_id`. A refused
    /// bet changes nothing.
    pub fn place_bet(&mut self, event_id: String, amount: u128, outcome: bool, caller: &String) -> (r:
        Result<(), BetError>)
        requires
            old(self).wf(),
        ensures
            final(self).wf(),
            match r {
                Ok(()) => {
                    &&& old(self)@.bet_error(event_id@, amount, caller@) is None
                    &&& final(self)@ == old(self)@.with_bet(event_id@, amount, caller@)
                },
                Err(e) => {
                    &&& old(self)@.bet_error(event_id@, amount, caller@) == Some(e)
                    &&& *final(self) == *old(self)
                },
            },
    {
        let mut event = match self.bet_events.get(&event_id) {
            Some(e) => e.duplicate(),
            None => {
                return Err(BetError::EventNotFound);
            },
        };
        match event.place(amount, caller) {
            Ok(()) => {},
            Err(e) => {
                return Err(e);
            },
        }
        let current: u128 = match self.user_rewards.get(caller) {
            Some(r) => *r,
            None => 0,
        };
        let reward: u128 = match credit_reward(current, amount) {
            Some(r) => r,
            None => {
                return Err(BetError::Overflow);
            },
        };
        self.bet_events.insert(event_id, event);
        self.user_rewards.insert(caller.clone(), reward);
        proof {
            let after = old(self)@.with_bet(event_id@, amount, caller@);
            assert(self@.bet_events =~= after.bet_events);
            assert(self@.user_rewards =~= after.user_rewards);
            assert(self@ == after);
        }
        Ok(())
    }
}

/// Builds the id of the swap intent of a cross-chain bet.
pub fn intent_id(bet_id: &String) -> (id: String)
    ensures
        id@ == intent_id_text(bet_id@),
{
    let mut id = "intent_".to_owned();
    id.append(bet_id.as_str());
    id
}

/// Builds the id of a cross-chain bet.
pub fn bet_id(event_id: &String, user: &String, now: u64) -> (id: String)
    ensures
        id@ == bet_id_text(event_id@, user@, now),
{
    let mut id = event_id.clone();
    id.append("_");
    id.append(user.as_str());
    id.append("_");
    id.append(format_decimal(now).as_str());
    id
}

impl BetSwapAI {
    /// Places a cross-chain bet for `caller` at time `now` and returns its
    /// id. Fails with `Overflow`, changing nothing, if the intent's
    /// deadline would not fit in 64 bits.
    pub fn place_cross_chain_bet(
        &mut self,
        event_id: String,
        amount: u128,
        outcome: bool,
        eth_address: String,
        caller: &String,
        now: u64,
    ) -> (r: Result<String, BetError>)
        requires
            old(self).wf(),
        ensures
            final(self).wf(),
            match r {
                Ok(id) => {
                    &&& now + INTENT_LIFETIME <= u64::MAX
                    &&& id@ == bet_id_text(event_id@, caller@, now)
                    &&& final(self)@ == old(self)@.with_cross_chain_bet(
                        event_id@,
                        amount,
                        outcome,
                        eth_address@,
                        caller@,
                        now,
                    )
                },
                Err(e) => {
                    &&& e == BetError::Overflow
                    &&& now + INTENT_LIFETIME > u64::MAX
                    &&& *final(self) == *old(self)
                },
            },
    {
        let deadline: u64 = match now.checked_add(INTENT_LIFETIME) {
            Some(d) => d,
            None => {
                return Err(BetError::Overflow);
            },
        };
        let id = bet_id(&event_id, caller, now);
        let bet = CrossChainBet {
            user: caller.clone(),
            event_id: event_id.clone(),
            amount,
            outcome,
            is_cross_chain: true,
            eth_address,
            completed: false,
        };
        let intent_id = intent_id(&id);
        let intent = BetSwapIntent {
            user: caller.clone(),
            event_id,
            amount,
            outcome,
            target_chain: "ETH".to_owned(),
            deadline,
        };
        self.cross_chain_bets.insert(id.clone(), bet);
        self.bet_intents.insert(intent_id, intent);
        proof {
            let after = old(self)@.with_cross_chain_bet(
                event_id@,
                amount,
                outcome,
                eth_address@,
                caller@,
                now,
            );
            assert(self@.cross_chain_bets =~= after.cross_chain_bets);
            assert(self@.bet_intents =~= after.bet_intents);
            assert(self@ == after);
        }
        Ok(id)
    }

    /// Records the prediction that the digest `digest` of `oracle_data`
    /// gives for event `event_id` at time `now`, resolves the event to it,
    /// and returns it.
    pub fn predict_outcome_with_digest(
        &mut self,
        event_id: String,
        oracle_data: String,
        digest: &Vec<u8>,
        now: u64,
    ) -> (r: AIOutcomePrediction)
        requires
            old(self).wf(),
            digest@.len() == HASHLOCK_LEN,
        ensures
            final(self).wf(),
            r@ == (AIOutcomePredictionView {
                event_id: event_id@,
                predicted_outcome: predicted_outcome(digest@),
                confidence: predicted_confidence(digest@),
                oracle_data: oracle_data@,
                timestamp: now,
            }),
            final(self)@ == old(self)@.with_prediction(r@),
    {
        let outcome = analyze_oracle_digest(digest);
        let confidence = calculate_confidence(digest);
        let prediction = AIOutcomePrediction {
            event_id: event_id.clone(),
            predicted_outcome: outcome,
            confidence,
            oracle_data,
            timestamp: now,
        };
        self.ai_predictions.insert(event_id.clone(), prediction.clone());
        let existing = match self.bet_events.get(&event_id) {
            Some(e) => Some(e.duplicate()),
            None => None,
        };
        match existing {
            Some(mut event) => {
                event.resolved = true;
                event.outcome = outcome;
                self.bet_events.insert(event_id, event);
            },
            None => {},
        }
        proof {
            let after = old(self)@.with_prediction(prediction@);
            assert(self@.ai_predictions =~= after.ai_predictions);
            assert(self@.bet_events =~= after.bet_events);
            assert(self@ == after);
        }
        prediction
    }

    /// Predicts the outcome of event `event_id` from `oracle_data` at time
    /// `now`, resolves the event to it, and returns the prediction.
    pub fn predict_outcome_with_ai(&mut self, event_id: String, oracle_data: String, now: u64) -> (r:
        AIOutcomePrediction)
        requires
            old(self).wf(),
        ensures
            final(self).wf(),
            r@ == (AIOutcomePredictionView {
                event_id: event_id@,
                predicted_outcome: predicted_outcome(sha256_digest(encode_utf8(oracle_data@))),
                confidence: predicted_confidence(sha256_digest(encode_utf8(oracle_data@))),
                oracle_data: oracle_data@,
                timestamp: now,
            }),
            final(self)@ == old(self)@.with_prediction(r@),
    {
        let digest = sha256(oracle_data.as_str().as_bytes());
        self.predict_outcome_with_digest(event_id, oracle_data, &digest, now)
    }

    /// Registers a solver, or registers it anew, with the initial
    /// reputation.
    pub fn register_solver(
        &mut self,
        solver_address: String,
        min_quote_amount: u128,
        max_quote_amount: u128,
        fee_percentage: u64,
        tee_config: TEEConfig,
    )
        requires
            old(self).wf(),
        ensures
            final(self).wf(),
            final(self)@ == old(self)@.with_solver(
                SolverConfigView {
                    solver_address: solver_address@,
                    min_quote_amount,
                    max_quote_amount,
                    fee_percentage,
                    tee_config: tee_config@,
                },
            ),
    {
        let config = SolverConfig {
            solver_address: solver_address.clone(),
            min_quote_amount,
            max_quote_amount,
            fee_percentage,
            tee_config,
        };
        self.solvers.insert(solver_address.clone(), config);
        self.solver_reputation.insert(solver_address, INITIAL_REPUTATION);
        proof {
            let after = old(self)@.with_solver(config@);
            assert(self@.solvers =~= after.solvers);
            assert(self@.solver_reputation =~= after.solver_reputation);
            assert(self@ == after);
        }
    }

    /// Files a request to price the swap of a bet and returns its id. Ids
    /// are handed out in sequence and never reused.
    pub fn request_bet_swap_quote(
        &mut self,
        from_token: String,
        to_token: String,
        from_amount: u128,
        deadline: u64,
    ) -> (id: String)
        requires
            old(self).wf(),
            old(self)@.quote_counter < u64::MAX,
        ensures
            final(self).wf(),
            id@ == quote_id_text((old(self)@.quote_counter + 1) as nat),
            !old(self)@.quote_requests.contains_key(id@),
            final(self)@ == old(self)@.with_quote_request(
                SwapQuoteRequestView {
                    from_token: from_token@,
                    to_token: to_token@,
                    from_amount,
                    deadline,
                },
            ),
    {
        let number: u64 = self.quote_counter + 1;
        let id = sequence_id("quote_", number);
        proof {
            if old(self)@.quote_requests.contains_key(id@) {
                let n = choose|n: nat|
                    1 <= n <= old(self)@.quote_counter && id@ == #[trigger] quote_id_text(n);
                lemma_id_injective("quote_"@, n, number as nat);
            }
        }
        let request = SwapQuoteRequest { from_token, to_token, from_amount, deadline };
        self.quote_counter = number;
        self.quote_requests.insert(id.clone(), request);
        proof {
            let before = old(self)@;
            let after = before.with_quote_request(request@);
            assert(self@.quote_requests =~= after.quote_requests);
            assert(self@ == after);
            assert forall|k: Seq<char>| #[trigger] after.quote_requests.contains_key(k) implies exists|
                n: nat,
            |
                1 <= n <= after.quote_counter && k == #[trigger] quote_id_text(n) by {
                if k == id@ {
                    assert(k == quote_id_text(number as nat));
                } else {
                    let n = choose|n: nat|
                        1 <= n <= before.quote_counter && k == #[trigger] quote_id_text(n);
                    assert(1 <= n <= after.quote_counter && k == quote_id_text(n));
                }
            }
        }
        id
    }

    /// Creates a meta-order for solver `caller` and returns its id; the
    /// solver earns the reward for quoting. Fails with `Overflow`,
    /// changing nothing, if the solver's reputation would not fit in 64
    /// bits.
    pub fn generate_bet_swap_quote(
        &mut self,
        request_id: String,
        to_amount: u128,
        intent_id: String,
        signature: String,
        caller: &String,
    ) -> (r: Result<String, BetError>)
        requires
            old(self).wf(),
            old(self)@.order_counter < u64::MAX,
        ensures
            final(self).wf(),
            match r {
                Ok(id) => {
                    &&& old(self)@.reputation_of(caller@) + QUOTE_REWARD <= u64::MAX
                    &&& id@ == order_id_text((old(self)@.order_counter + 1) as nat)
                    &&& !old(self)@.meta_orders.contains_key(id@)
                    &&& final(self)@ == old(self)@.with_order(
                        to_amount,
                        intent_id@,
                        signature@,
                        caller@,
                    )
                },
                Err(e) => {
                    &&& e == BetError::Overflow
                    &&& old(self)@.reputation_of(caller@) + QUOTE_REWARD > u64::MAX
                    &&& *final(self) == *old(self)
                },
            },
    {
        let current: u64 = match self.solver_reputation.get(caller) {
            Some(r) => *r,
            None => 0,
        };
        let reputation: u64 = match current.checked_add(QUOTE_REWARD) {
            Some(r) => r,
            None => {
                return Err(BetError::Overflow);
            },
        };
        let number: u64 = self.order_counter + 1;
        let id = sequence_id("order_", number);
        proof {
            if old(self)@.meta_orders.contains_key(id@) {
                let n = choose|n: nat|
                    1 <= n <= old(self)@.order_counter && id@ == #[trigger] order_id_text(n);
                lemma_id_injective("order_"@, n, number as nat);
            }
        }
        let order = MetaOrder {
            order_id: id.clone(),
            user: caller.clone(),
            event_id: String::new(),
            amount: to_amount,
            outcome: false,
            intent_id,
            signature,
            is_executed: false,
        };
        self.order_counter = number;
        self.meta_orders.insert(id.clone(), order);
        self.solver_reputation.insert(caller.clone(), reputation);
        proof {
            let before = old(self)@;
            let after = before.with_order(to_amount, intent_id@, signature@, caller@);
            assert(self@.meta_orders =~= after.meta_orders);
            assert(self@.solver_reputation =~= after.solver_reputation);
            assert(self@ == after);
            assert forall|k: Seq<char>| #[trigger] after.meta_orders.contains_key(k) implies exists|
                n: nat,
            |
                1 <= n <= after.order_counter && k == #[trigger] order_id_text(n) by {
                if k == id@ {
                    assert(k == order_id_text(number as nat));
                } else {
                    let n = choose|n: nat|
                        1 <= n <= before.order_counter && k == #[trigger] order_id_text(n);
                    assert(1 <= n <= after.order_counter && k == order_id_text(n));
                }
            }
        }
        Ok(id)
    }

    /// Executes meta-order `order_id` for solver `caller`, who earns the
    /// reward for executing. Returns whether there was such an order; if
    /// there was none, nothing changes. A refused execution changes
    /// nothing either.
    pub fn execute_bet_meta_order(&mut self, order_id: String, secret: String, caller: &String) -> (r:
        Result<bool, BetError>)
        requires
            old(self).wf(),
        ensures
            final(self).wf(),
            match r {
                Ok(found) => {
                    &&& found == old(self)@.meta_orders.contains_key(order_id@)
                    &&& if found {
                        &&& old(self)@.execution_error(order_id@, caller@) is None
                        &&& final(self)@ == old(self)@.with_execution(order_id@, caller@)
                    } else {
                        *final(self) == *old(self)
                    }
                },
                Err(e) => {
                    &&& old(self)@.meta_orders.contains_key(order_id@)
                    &&& old(self)@.execution_error(order_id@, caller@) == Some(e)
                    &&& *final(self) == *old(self)
                },
            },
    {
        let mut order = match self.meta_orders.get(&order_id) {
            Some(o) => o.clone(),
            None => {
                return Ok(false);
            },
        };
        if !verify_near_signature(&order.signature, &order.intent_id) {
            return Err(BetError::InvalidSignature);
        }
        let current: u64 = match self.solver_reputation.get(caller) {
            Some(r) => *r,
            None => 0,
        };
        let reputation: u64 = match current.checked_add(EXECUTION_REWARD) {
            Some(r) => r,
            None => {
                return Err(BetError::Overflow);
            },
        };
        order.is_executed = true;
        self.meta_orders.insert(order_id, order);
        self.solver_reputation.insert(caller.clone(), reputation);
        proof {
            let before = old(self)@;
            let after = before.with_execution(order_id@, caller@);
            assert(self@.meta_orders =~= after.meta_orders);
            assert(self@.solver_reputation =~= after.solver_reputation);
            assert(self@ == after);
            assert forall|k: Seq<char>| #[trigger] after.meta_orders.contains_key(k) implies exists|
                n: nat,
            |
                1 <= n <= after.order_counter && k == #[trigger] order_id_text(n) by {
                assert(before.meta_orders.contains_key(k));
            }
        }
        Ok(true)
    }

    /// Pays out all rewards of `caller` and returns their amount. Fails
    /// with `NoRewards`, changing nothing, if there are none.
    pub fn claim_rewards(&mut self, caller: &String) -> (r: Result<u128, BetError>)
        requires
            old(self).wf(),
        ensures
            final(self).wf(),
            match r {
                Ok(reward) => {
                    &&& reward == old(self)@.rewards_of(caller@)
                    &&& reward > 0
                    &&& final(self)@ == old(self)@.with_rewards_claimed(caller@)
                },
                Err(e) => {
                    &&& e == BetError::NoRewards
                    &&& old(self)@.rewards_of(caller@) == 0
                    &&& *final(self) == *old(self)
                },
            },
    {
        let reward: u128 = match self.user_rewards.get(caller) {
            Some(r) => *r,
            None => 0,
        };
        if reward == 0 {
            return Err(BetError::NoRewards);
        }
        self.user_rewards.insert(caller.clone(), 0);
        proof {
            let after = old(self)@.with_rewards_claimed(caller@);
            assert(self@.user_rewards =~= after.user_rewards);
            assert(self@ == after);
        }
        Ok(reward)
    }

    /// A copy of event `event_id`, if it exists.
    pub fn get_bet_event(&self, event_id: String) -> (r: Option<BetEvent>)
        requires
            self.wf(),
        ensures
            match r {
                Some(e) => self@.bet_events.contains_key(event_id@) && e@
                    == self@.bet_events[event_id@],
                None => !self@.bet_events.contains_key(event_id@),
            },
    {
        match self.bet_events.get(&event_id) {
            Some(e) => Some(e.duplicate()),
            None => None,
        }
    }

    /// The latest bet of `user` on event `event_id`; zero if there is no
    /// such event or bet.
    pub fn get_user_bet(&self, event_id: String, user: String) -> (r: u128)
        requires
            self.wf(),
        ensures
            r == if self@.bet_events.contains_key(event_id@)
                && self@.bet_events[event_id@].user_bets.contains_key(user@) {
                self@.bet_events[event_id@].user_bets[user@]
            } else {
                0
            },
    {
        match self.bet_events.get(&event_id) {
            Some(event) => match event.user_bets.get(&user) {
                Some(amount) => *amount,
                None => 0,
            },
            None => 0,
        }
    }

    /// The rewards that `user` has not yet claimed.
    pub fn get_user_rewards(&self, user: String) -> (r: u128)
        requires
            self.wf(),
        ensures
            r == self@.rewards_of(user@),
    {
        match self.user_rewards.get(&user) {
            Some(r) => *r,
            None => 0,
        }
    }

    /// The recorded reputation of `solver`; zero if none is recorded.
    pub fn get_solver_reputation(&self, solver: String) -> (r: u64)
        requires
            self.wf(),
        ensures
            r == self@.reputation_of(solver@),
    {
        match self.solver_reputation.get(&solver) {
            Some(r) => *r,
            None => 0,
        }
    }

    /// A copy of the prediction for event `event_id`, if there is one.
    pub fn get_ai_prediction(&self, event_id: String) -> (r: Option<AIOutcomePrediction>)
        requires
            self.wf(),
        ensures
            match r {
                Some(p) => self@.ai_predictions.contains_key(event_id@) && p@
                    == self@.ai_predictions[event_id@],
                None => !self@.ai_predictions.contains_key(event_id@),
            },
    {
        match self.ai_predictions.get(&event_id) {
            Some(p) => Some(p.clone()),
            None => None,
        }
    }
}

} // verus!
