//! The Dutch-auction pricing engine: sell orders whose acceptable rate
//! decays linearly from a start rate to a floor, and their partial fills.

use crate::amount::{parse_amount, parsed_amount};
use crate::arith::{checked_mul_div, lemma_mul_div_bounded, lemma_mul_div_monotone, mul_div};
use crate::escrow::{create_error, native_token, native_token_account, Contract, EscrowError,
    EscrowState, EscrowView, JsonAccountId, Transfer, TransferView};
use crate::hashlock::{bytes_equal, bytes_view, clone_bytes, sha256, sha256_digest};
use crate::table::Table;
use vstd::bytes::{lemma_auto_spec_u64_to_from_le_bytes, spec_u64_to_le_bytes, u64_to_le_bytes};
use vstd::prelude::*;

verus! {

/// Why an auction operation was rejected.
#[derive(Clone, Copy, Debug, PartialEq, Eq, Structural)]
pub enum AuctionError {
    /// The terms of a new auction are inconsistent.
    InvalidAuctionParams,
    /// No auction has the given id.
    NotFound,
    /// The auction was filled completely or cancelled.
    AuctionInactive,
    /// The auction's duration has run out.
    AuctionExpired,
    /// The fill is not a valid amount or exceeds what remains.
    InvalidFillAmount,
    /// An earlier fill pinned a different hashlock.
    HashlockAlreadySet,
    /// The caller is not the auction's maker.
    Unauthorized,
    /// The destination amount does not fit in 128 bits.
    AmountOverflow,
    /// The escrow engine refused the lock for the filled portion.
    Escrow(EscrowError),
}

impl AuctionError {
    /// What this error says to the caller.
    pub open spec fn message_text(self) -> Seq<char> {
        match self {
            AuctionError::InvalidAuctionParams => "Invalid auction parameters"@,
            AuctionError::NotFound => "Auction not found"@,
            AuctionError::AuctionInactive => "Auction inactive"@,
            AuctionError::AuctionExpired => "Auction expired"@,
            AuctionError::InvalidFillAmount => "Invalid fill amount"@,
            AuctionError::HashlockAlreadySet => "Hashlock already set"@,
            AuctionError::Unauthorized => "Not owner"@,
            AuctionError::AmountOverflow => "Destination amount too large"@,
            AuctionError::Escrow(e) => e.message_text(),
        }
    }

    /// What this error says to the caller.
    pub fn message(&self) -> (r: &'static str)
        ensures
            r@ == self.message_text(),
    {
        match self {
            AuctionError::InvalidAuctionParams => "Invalid auction parameters",
            AuctionError::NotFound => "Auction not found",
            AuctionError::AuctionInactive => "Auction inactive",
            AuctionError::AuctionExpired => "Auction expired",
            AuctionError::InvalidFillAmount => "Invalid fill amount",
            AuctionError::HashlockAlreadySet => "Hashlock already set",
            AuctionError::Unauthorized => "Not owner",
            AuctionError::AmountOverflow => "Destination amount too large",
            AuctionError::Escrow(e) => e.message(),
        }
    }
}

/// The rate, in destination units per 100 source units, that an auction
/// accepts once `elapsed` of its `duration` has passed: a linear descent
/// from `start_rate`, rounded in the seller's favour, that stays at
/// `end_rate` from the end of the duration on.
pub open spec fn rate_at(start_rate: u128, end_rate: u128, duration: u64, elapsed: u64) -> int {
    if elapsed >= duration {
        end_rate as int
    } else {
        start_rate - mul_div(start_rate - end_rate, elapsed as int, duration as int)
    }
}

/// A decaying-price sell order.
pub struct Auction {
    /// The seller.
    pub maker: JsonAccountId,
    /// What remains to be sold.
    pub source_amount: u128,
    pub destination_token: String,
    pub destination_chain: String,
    pub destination_account: String,
    /// Rate at the start, above `end_rate`.
    pub start_rate: u128,
    /// The floor.
    pub end_rate: u128,
    pub start_time: u64,
    /// Time over which the rate decays; not zero.
    pub duration: u64,
    /// Recovery time of the locks that fills create.
    pub timelock: u64,
    /// False once nothing remains or the maker cancelled.
    pub active: bool,
    /// The commitment pinned by the first fill.
    pub hashlock: Option<Vec<u8>>,
}

/// Mathematical content of an [`Auction`].
pub struct AuctionView {
    pub maker: Seq<char>,
    pub source_amount: u128,
    pub destination_token: Seq<char>,
    pub destination_chain: Seq<char>,
    pub destination_account: Seq<char>,
    pub start_rate: u128,
    pub end_rate: u128,
    pub start_time: u64,
    pub duration: u64,
    pub timelock: u64,
    pub active: bool,
    pub hashlock: Option<Seq<u8>>,
}

impl View for Auction {
    type V = AuctionView;

    open spec fn view(&self) -> AuctionView {
        AuctionView {
            maker: self.maker@,
            source_amount: self.source_amount,
            destination_token: self.destination_token@,
            destination_chain: self.destination_chain@,
            destination_account: self.destination_account@,
            start_rate: self.start_rate,
            end_rate: self.end_rate,
            start_time: self.start_time,
            duration: self.duration,
            timelock: self.timelock,
            active: self.active,
            hashlock: bytes_view(self.hashlock),
        }
    }
}

impl AuctionView {
    /// The invariant of every auction held by the engine.
    pub open spec fn wf(self) -> bool {
        &&& self.start_rate > self.end_rate
        &&& self.duration > 0
    }

    /// Time passed since the start; a clock reading before the start
    /// counts as the start.
    pub open spec fn elapsed_at(self, now: u64) -> u64 {
        if now >= self.start_time {
            (now - self.start_time) as u64
        } else {
            0
        }
    }

    /// The rate accepted at time `now`.
    pub open spec fn current_rate(self, now: u64) -> int {
        rate_at(self.start_rate, self.end_rate, self.duration, self.elapsed_at(now))
    }

    /// What a fill of `fill` source units buys at time `now`.
    pub open spec fn destination_amount(self, fill: u128, now: u64) -> int {
        mul_div(fill as int, self.current_rate(now), 100)
    }

    /// The first reason, if any, for which a fill of `fill` with a
    /// preimage whose digest is `digest` is refused at time `now`, before
    /// the escrow engine is asked.
    pub open spec fn fill_error(self, digest: Seq<u8>, fill: Option<u128>, now: u64) -> Option<
        AuctionError,
    > {
        if !self.active {
            Some(AuctionError::AuctionInactive)
        } else if fill is None || fill->0 > self.source_amount {
            Some(AuctionError::InvalidFillAmount)
        } else if now > self.start_time + self.duration {
            Some(AuctionError::AuctionExpired)
        } else if self.hashlock matches Some(h) && h != digest {
            Some(AuctionError::HashlockAlreadySet)
        } else if self.destination_amount(fill->0, now) > u128::MAX {
            Some(AuctionError::AmountOverflow)
        } else {
            None
        }
    }

    /// The auction after a fill of `fill`: the hashlock is pinned, the
    /// remainder shrinks, and the auction closes when nothing remains.
    pub open spec fn after_fill(self, digest: Seq<u8>, fill: u128) -> AuctionView {
        AuctionView {
            source_amount: (self.source_amount - fill) as u128,
            active: self.source_amount - fill != 0,
            hashlock: Some(digest),
            ..self
        }
    }

    /// The first reason, if any, for which `caller` may not cancel.
    pub open spec fn cancel_error(self, caller: Seq<char>) -> Option<AuctionError> {
        if caller != self.maker {
            Some(AuctionError::Unauthorized)
        } else if !self.active {
            Some(AuctionError::AuctionInactive)
        } else {
            None
        }
    }

    /// The auction after its maker cancelled it.
    pub open spec fn cancelled(self) -> AuctionView {
        AuctionView { active: false, ..self }
    }

    /// The refund of the unsold remainder that a cancellation orders.
    pub open spec fn cancel_transfer(self) -> TransferView {
        TransferView { token: native_token(), receiver: self.maker, amount: self.source_amount }
    }

    /// The escrow that holds a filled portion for `filler`.
    pub open spec fn fill_escrow(self, digest: Seq<u8>, fill: u128, filler: Seq<char>) -> EscrowView {
        EscrowView {
            sender: self.maker,
            receiver: Some(filler),
            token: native_token(),
            amount: fill,
            hashlock: digest,
            timelock_exclusive: None,
            timelock_recovery: self.timelock,
            state: EscrowState::Open,
            resolver: None,
        }
    }
}

impl Clone for Auction {
    fn clone(&self) -> (r: Self)
        ensures
            r@ == self@,
    {
        Auction {
            maker: self.maker.clone(),
            source_amount: self.source_amount,
            destination_token: self.destination_token.clone(),
            destination_chain: self.destination_chain.clone(),
            destination_account: self.destination_account.clone(),
            start_rate: self.start_rate,
            end_rate: self.end_rate,
            start_time: self.start_time,
            duration: self.duration,
            timelock: self.timelock,
            active: self.active,
            hashlock: clone_bytes(&self.hashlock),
        }
    }
}

/// Whether the terms of a new auction are acceptable at time `now`: the
/// deposit equals the amount offered, the rate descends, the duration is
/// not zero and the timelock lies in the future.
pub open spec fn auction_terms_valid(
    source_amount: Option<u128>,
    attached: u128,
    start_rate: u128,
    end_rate: u128,
    duration: u64,
    timelock: u64,
    now: u64,
) -> bool {
    &&& source_amount == Some(attached)
    &&& start_rate > end_rate
    &&& duration > 0
    &&& timelock > now
}

impl Auction {
    /// Opens an auction of `maker`, who deposited `attached`, at time
    /// `now`. Unacceptable terms are refused with `InvalidAuctionParams`.
    pub fn open(
        source_amount: Option<u128>,
        destination_token: String,
        destination_chain: String,
        destination_account: String,
        start_rate: u128,
        end_rate: u128,
        duration: u64,
        timelock: u64,
        maker: &String,
        attached: u128,
        now: u64,
    ) -> (r: Result<Auction, AuctionError>)
        ensures
            r is Ok <==> auction_terms_valid(
                source_amount,
                attached,
                start_rate,
                end_rate,
                duration,
                timelock,
                now,
            ),
            match r {
                Ok(a) => a@.wf() && a@ == (AuctionView {
                    maker: maker@,
                    source_amount: attached,
                    destination_token: destination_token@,
                    destination_chain: destination_chain@,
                    destination_account: destination_account@,
                    start_rate,
                    end_rate,
                    start_time: now,
                    duration,
                    timelock,
                    active: true,
                    hashlock: None,
                }),
                Err(e) => e == AuctionError::InvalidAuctionParams,
            },
    {
        let source: u128 = match source_amount {
            Some(a) => a,
            None => {
                return Err(AuctionError::InvalidAuctionParams);
            },
        };
        if attached != source || start_rate <= end_rate || duration == 0 || timelock <= now {
            return Err(AuctionError::InvalidAuctionParams);
        }
        Ok(
            Auction {
                maker: JsonAccountId::new(maker.clone()),
                source_amount: source,
                destination_token,
                destination_chain,
                destination_account,
                start_rate,
                end_rate,
                start_time: now,
                duration,
                timelock,
                active: true,
                hashlock: None,
            },
        )
    }

    /// Time passed since the start of the auction.
    pub fn elapsed_at(&self, now: u64) -> (r: u64)
        ensures
            r == self@.elapsed_at(now),
    {
        if now >= self.start_time {
            now - self.start_time
        } else {
            0
        }
    }

    /// The rate accepted at time `now`.
    pub fn current_rate(&self, now: u64) -> (r: u128)
        requires
            self@.wf(),
        ensures
            r == self@.current_rate(now),
            self.end_rate <= r <= self.start_rate,
    {
        let elapsed = self.elapsed_at(now);
        if elapsed >= self.duration {
            return self.end_rate;
        }
        let spread: u128 = self.start_rate - self.end_rate;
        proof {
            lemma_mul_div_bounded(spread as int, elapsed as int, self.duration as int);
        }
        // before the end of the duration the drop is below the spread
        match checked_mul_div(spread, elapsed as u128, self.duration) {
            Some(drop) => self.start_rate - drop,
            None => self.end_rate,
        }
    }

    /// Whether time `now` is past the end of the auction's duration.
    pub fn expired_at(&self, now: u64) -> (r: bool)
        ensures
            r == (now > self.start_time + self.duration),
    {
        match self.start_time.checked_add(self.duration) {
            Some(end) => now > end,
            None => false,
        }
    }

    /// Whether a fill with digest `digest` would contradict the pinned
    /// hashlock.
    pub fn hashlock_conflicts(&self, digest: &Vec<u8>) -> (r: bool)
        ensures
            r == (self@.hashlock matches Some(h) && h != digest@),
    {
        match &self.hashlock {
            Some(h) => !bytes_equal(h.as_slice(), digest.as_slice()),
            None => false,
        }
    }

    /// Checks a fill and prices it, without changing the auction.
    ///
    /// Returns the destination amount that `fill` source units buy at the
    /// rate of time `now`.
    pub fn quote_fill(&self, digest: &Vec<u8>, fill: Option<u128>, now: u64) -> (r: Result<
        u128,
        AuctionError,
    >)
        requires
            self@.wf(),
        ensures
            match r {
                Ok(amount) => {
                    &&& self@.fill_error(digest@, fill, now) is None
                    &&& amount == self@.destination_amount(fill->0, now)
                },
                Err(e) => self@.fill_error(digest@, fill, now) == Some(e),
            },
    {
        if !self.active {
            return Err(AuctionError::AuctionInactive);
        }
        let amount: u128 = match fill {
            Some(a) => a,
            None => {
                return Err(AuctionError::InvalidFillAmount);
            },
        };
        if amount > self.source_amount {
            return Err(AuctionError::InvalidFillAmount);
        }
        if self.expired_at(now) {
            return Err(AuctionError::AuctionExpired);
        }
        if self.hashlock_conflicts(digest) {
            return Err(AuctionError::HashlockAlreadySet);
        }
        let rate = self.current_rate(now);
        match checked_mul_div(amount, rate, 100) {
            Some(destination_amount) => Ok(destination_amount),
            None => Err(AuctionError::AmountOverflow),
        }
    }

    /// Records a fill that was checked with [`Auction::quote_fill`].
    pub fn apply_fill(&mut self, digest: Vec<u8>, fill: u128)
        requires
            fill <= old(self).source_amount,
        ensures
            final(self)@ == old(self)@.after_fill(digest@, fill),
    {
        self.source_amount = self.source_amount - fill;
        if self.source_amount == 0 {
            self.active = false;
        } else {
            self.active = true;
        }
        self.hashlock = Some(digest);
    }

    /// Cancels the auction on behalf of `caller` and returns the refund of
    /// what was not sold.
    pub fn cancel(&mut self, caller: &String) -> (r: Result<Transfer, AuctionError>)
        ensures
            match r {
                Ok(t) => {
                    &&& old(self)@.cancel_error(caller@) is None
                    &&& final(self)@ == old(self)@.cancelled()
                    &&& t@ == old(self)@.cancel_transfer()
                },
                Err(e) => {
                    &&& old(self)@.cancel_error(caller@) == Some(e)
                    &&& *final(self) == *old(self)
                },
            },
    {
        if !self.maker.is(caller) {
            return Err(AuctionError::Unauthorized);
        }
        if !self.active {
            return Err(AuctionError::AuctionInactive);
        }
        self.active = false;
        Ok(
            Transfer {
                token: native_token_account().into_inner(),
                receiver: self.maker.inner(),
                amount: self.source_amount,
            },
        )
    }
}

impl AuctionView {
    /// The first reason, if any, for which a fill is refused, by the
    /// auction itself or by the escrow engine that is to hold the filled
    /// portion.
    pub open spec fn settle_error(self, digest: Seq<u8>, fill: Option<u128>, now: u64) -> Option<
        AuctionError,
    > {
        match self.fill_error(digest, fill, now) {
            Some(e) => Some(e),
            None => match create_error(fill->0, digest, None, self.timelock, now) {
                Some(e) => Some(AuctionError::Escrow(e)),
                None => None,
            },
        }
    }
}

/// The id of the `n`-th auction: the eight bytes of `n`, least
/// significant first.
pub open spec fn auction_id_bytes(n: u64) -> Seq<u8> {
    spec_u64_to_le_bytes(n)
}

/// Different auctions have different ids.
pub proof fn lemma_auction_id_injective(a: u64, b: u64)
    requires
        auction_id_bytes(a) == auction_id_bytes(b),
    ensures
        a == b,
{
    lemma_auto_spec_u64_to_from_le_bytes();
}

/// Builds the id of the `n`-th auction.
pub fn auction_id(n: u64) -> (id: Vec<u8>)
    ensures
        id@ == auction_id_bytes(n),
{
    u64_to_le_bytes(n)
}

/// The auction engine. Ids are handed out in sequence and an auction is
/// never removed or replaced: a maker who opens a second auction gets a
/// second id, and the first auction stays as it is.
pub struct DutchAuction {
    auctions: Table<Vec<u8>, Auction>,
    htlc_contract: JsonAccountId,
    counter: u64,
}

impl DutchAuction {
    /// The auctions by id.
    pub closed spec fn auctions(&self) -> Map<Seq<u8>, AuctionView> {
        self.auctions.map().map_values(|a: Auction| a@)
    }

    /// The account of the escrow engine that holds filled portions.
    pub closed spec fn htlc_contract(&self) -> Seq<char> {
        self.htlc_contract@
    }

    /// Number of auctions created so far.
    pub closed spec fn counter(&self) -> u64 {
        self.counter
    }

    /// The engine's invariant: the ids are those handed out so far, and
    /// every auction offers a descending rate over a duration that is not
    /// zero.
    pub closed spec fn wf(&self) -> bool {
        &&& self.auctions.wf()
        &&& forall|id: Seq<u8>| #[trigger]
            self.auctions.map().contains_key(id) ==> self.auctions.map()[id]@.wf()
        &&& forall|id: Seq<u8>| #[trigger]
            self.auctions.map().contains_key(id) ==> exists|n: u64|
                n < self.counter && id == #[trigger] auction_id_bytes(n)
    }

    /// Every id in use is the id of an auction created so far.
    pub proof fn lemma_ids(&self, id: Seq<u8>)
        requires
            self.wf(),
            self.auctions().contains_key(id),
        ensures
            exists|n: u64| n < self.counter() && id == #[trigger] auction_id_bytes(n),
    {
        assert(self.auctions.map().contains_key(id));
    }

    /// Every auction of a well-formed engine is well-formed.
    pub proof fn lemma_auctions_wf(&self, id: Seq<u8>)
        requires
            self.wf(),
            self.auctions().contains_key(id),
        ensures
            self.auctions()[id].wf(),
    {
    }

    /// An engine without auctions.
    pub fn new(htlc_contract: JsonAccountId) -> (d: Self)
        ensures
            d.wf(),
            d.auctions() == Map::<Seq<u8>, AuctionView>::empty(),
            d.htlc_contract() == htlc_contract@,
            d.counter() == 0,
    {
        let d = DutchAuction { auctions: Table::new(), htlc_contract, counter: 0 };
        assert(d.auctions() =~= Map::<Seq<u8>, AuctionView>::empty());
        d
    }

    /// The account of the escrow engine.
    pub fn get_htlc_contract(&self) -> (r: JsonAccountId)
        ensures
            r@ == self.htlc_contract(),
    {
        self.htlc_contract.clone()
    }

    /// A copy of the auction filed under `auction_id`, if there is one.
    pub fn get_auction(&self, auction_id: &Vec<u8>) -> (r: Option<Auction>)
        requires
            self.wf(),
        ensures
            match r {
                Some(a) => self.auctions().contains_key(auction_id@) && self.auctions()[auction_id@]
                    == a@,
                None => !self.auctions().contains_key(auction_id@),
            },
    {
        match self.auctions.get(auction_id) {
            Some(a) => Some(a.clone()),
            None => None,
        }
    }

    /// Opens an auction for `caller`, who deposited `attached`, and returns
    /// its id, the next in sequence.
    ///
    /// The auction starts at time `now` with no hashlock. Every earlier
    /// auction stays as it is. Unacceptable terms are refused with
    /// `InvalidAuctionParams` and change nothing.
    pub fn create_auction(
        &mut self,
        source_amount: String,
        destination_token: String,
        destination_chain: String,
        destination_account: String,
        start_rate: u128,
        end_rate: u128,
        duration: u64,
        timelock: u64,
        caller: &String,
        attached: u128,
        now: u64,
    ) -> (r: Result<Vec<u8>, AuctionError>)
        requires
            old(self).wf(),
            old(self).counter() < u64::MAX,
        ensures
            final(self).wf(),
            final(self).htlc_contract() == old(self).htlc_contract(),
            r is Ok <==> auction_terms_valid(
                parsed_amount(source_amount@),
                attached,
                start_rate,
                end_rate,
                duration,
                timelock,
                now,
            ),
            match r {
                Ok(id) => {
                    &&& id@ == auction_id_bytes(old(self).counter())
                    &&& !old(self).auctions().contains_key(id@)
                    &&& final(self).counter() == old(self).counter() + 1
                    &&& final(self).auctions() == old(self).auctions().insert(
                        id@,
                        AuctionView {
                            maker: caller@,
                            source_amount: attached,
                            destination_token: destination_token@,
                            destination_chain: destination_chain@,
                            destination_account: destination_account@,
                            start_rate,
                            end_rate,
                            start_time: now,
                            duration,
                            timelock,
                            active: true,
                            hashlock: None,
                        },
                    )
                },
                Err(e) => e == AuctionError::InvalidAuctionParams && *final(self) == *old(self),
            },
    {
        let auction = match Auction::open(
            parse_amount(&source_amount),
            destination_token,
            destination_chain,
            destination_account,
            start_rate,
            end_rate,
            duration,
            timelock,
            caller,
            attached,
            now,
        ) {
            Ok(a) => a,
            Err(e) => {
                return Err(e);
            },
        };
        let id = auction_id(self.counter);
        proof {
            if old(self).auctions.map().contains_key(id@) {
                let n = choose|n: u64|
                    n < old(self).counter && id@ == #[trigger] auction_id_bytes(n);
                lemma_auction_id_injective(n, old(self).counter);
            }
        }
        self.auctions.insert(id.clone(), auction);
        self.counter = self.counter + 1;
        proof {
            assert(self.auctions() =~= old(self).auctions().insert(id@, auction@));
            assert forall|k: Seq<u8>| #[trigger] self.auctions.map().contains_key(k) implies exists|
                n: u64,
            |
                n < self.counter && k == #[trigger] auction_id_bytes(n) by {
                if k == id@ {
                    assert(k == auction_id_bytes(old(self).counter));
                } else {
                    assert(old(self).auctions.map().contains_key(k));
                    let n = choose|n: u64|
                        n < old(self).counter && k == #[trigger] auction_id_bytes(n);
                    assert(n < self.counter && k == auction_id_bytes(n));
                }
            }
        }
        Ok(id)
    }

    /// The rate that auction `auction_id` accepts at time `now`.
    pub fn get_current_rate(&self, auction_id: Vec<u8>, now: u64) -> (r: Result<u128, AuctionError>)
        requires
            self.wf(),
        ensures
            match r {
                Ok(rate) => {
                    &&& self.auctions().contains_key(auction_id@)
                    &&& self.auctions()[auction_id@].active
                    &&& rate == self.auctions()[auction_id@].current_rate(now)
                },
                Err(e) => if !self.auctions().contains_key(auction_id@) {
                    e == AuctionError::NotFound
                } else {
                    e == AuctionError::AuctionInactive && !self.auctions()[auction_id@].active
                },
            },
    {
        let auction = match self.auctions.get(&auction_id) {
            Some(a) => a,
            None => {
                return Err(AuctionError::NotFound);
            },
        };
        if !auction.active {
            return Err(AuctionError::AuctionInactive);
        }
        Ok(auction.current_rate(now))
    }

    /// Fills `fill_amount` of auction `auction_id` for `caller` with a
    /// preimage whose SHA-256 digest is `digest`.
    ///
    /// The filled portion is locked in `escrow` for the caller, under the
    /// digest and the auction's timelock. Returns the destination amount
    /// owed and the id of the lock. A fill that the auction or the escrow
    /// engine refuses changes neither of them.
    pub fn fill_auction_with_digest(
        &mut self,
        escrow: &mut Contract,
        auction_id: Vec<u8>,
        digest: Vec<u8>,
        fill_amount: String,
        caller: &String,
        now: u64,
    ) -> (r: Result<(u128, u64), AuctionError>)
        requires
            old(self).wf(),
            old(escrow).wf(),
            old(escrow).next_id() < u64::MAX,
        ensures
            final(self).wf(),
            final(escrow).wf(),
            final(self).htlc_contract() == old(self).htlc_contract(),
            final(self).counter() == old(self).counter(),
            match r {
                Ok((amount, lock_id)) => {
                    let fill = parsed_amount(fill_amount@);
                    &&& old(self).auctions().contains_key(auction_id@)
                    &&& old(self).auctions()[auction_id@].settle_error(digest@, fill, now) is None
                    &&& amount == old(self).auctions()[auction_id@].destination_amount(fill->0, now)
                    &&& lock_id == old(escrow).next_id()
                    &&& final(escrow).next_id() == lock_id + 1
                    &&& final(escrow).escrows() == old(escrow).escrows().push(
                        old(self).auctions()[auction_id@].fill_escrow(digest@, fill->0, caller@),
                    )
                    &&& final(self).auctions() == old(self).auctions().insert(
                        auction_id@,
                        old(self).auctions()[auction_id@].after_fill(digest@, fill->0),
                    )
                },
                Err(e) => {
                    &&& *final(self) == *old(self)
                    &&& *final(escrow) == *old(escrow)
                    &&& if old(self).auctions().contains_key(auction_id@) {
                        old(self).auctions()[auction_id@].settle_error(
                            digest@,
                            parsed_amount(fill_amount@),
                            now,
                        ) == Some(e)
                    } else {
                        e == AuctionError::NotFound
                    }
                },
            },
    {
        let mut auction = match self.auctions.get(&auction_id) {
            Some(a) => a.clone(),
            None => {
                return Err(AuctionError::NotFound);
            },
        };
        let fill = parse_amount(&fill_amount);
        let amount = match auction.quote_fill(&digest, fill, now) {
            Ok(a) => a,
            Err(e) => {
                return Err(e);
            },
        };
        let filled: u128 = match fill {
            Some(f) => f,
            None => {
                return Err(AuctionError::InvalidFillAmount);
            },
        };
        let lock_id = match escrow.create_lock(
            auction.maker.clone(),
            Some(JsonAccountId::new(caller.clone())),
            None,
            native_token_account(),
            filled,
            digest.clone(),
            None,
            auction.timelock,
            now,
        ) {
            Ok(id) => id,
            Err(e) => {
                return Err(AuctionError::Escrow(e));
            },
        };
        auction.apply_fill(digest, filled);
        self.auctions.insert(auction_id, auction);
        assert(self.auctions() =~= old(self).auctions().insert(auction_id@, auction@));
        Ok((amount, lock_id))
    }

    /// Fills `fill_amount` of auction `auction_id` for `caller`, who
    /// reveals `preimage`.
    pub fn fill_auction(
        &mut self,
        escrow: &mut Contract,
        auction_id: Vec<u8>,
        preimage: Vec<u8>,
        fill_amount: String,
        caller: &String,
        now: u64,
    ) -> (r: Result<(u128, u64), AuctionError>)
        requires
            old(self).wf(),
            old(escrow).wf(),
            old(escrow).next_id() < u64::MAX,
        ensures
            final(self).wf(),
            final(escrow).wf(),
            final(self).htlc_contract() == old(self).htlc_contract(),
            final(self).counter() == old(self).counter(),
            match r {
                Ok((amount, lock_id)) => {
                    let fill = parsed_amount(fill_amount@);
                    let digest = sha256_digest(preimage@);
                    &&& old(self).auctions().contains_key(auction_id@)
                    &&& old(self).auctions()[auction_id@].settle_error(digest, fill, now) is None
                    &&& amount == old(self).auctions()[auction_id@].destination_amount(fill->0, now)
                    &&& lock_id == old(escrow).next_id()
                    &&& final(escrow).next_id() == lock_id + 1
                    &&& final(escrow).escrows() == old(escrow).escrows().push(
                        old(self).auctions()[auction_id@].fill_escrow(digest, fill->0, caller@),
                    )
                    &&& final(self).auctions() == old(self).auctions().insert(
                        auction_id@,
                        old(self).auctions()[auction_id@].after_fill(digest, fill->0),
                    )
                },
                Err(e) => {
                    &&& *final(self) == *old(self)
                    &&& *final(escrow) == *old(escrow)
                    &&& if old(self).auctions().contains_key(auction_id@) {
                        old(self).auctions()[auction_id@].settle_error(
                            sha256_digest(preimage@),
                            parsed_amount(fill_amount@),
                            now,
                        ) == Some(e)
                    } else {
                        e == AuctionError::NotFound
                    }
                },
            },
    {
        let digest = sha256(preimage.as_slice());
        self.fill_auction_with_digest(escrow, auction_id, digest, fill_amount, caller, now)
    }

    /// Cancels auction `auction_id` on behalf of `caller`, its maker, and
    /// returns the refund of what was not sold.
    pub fn cancel_auction(&mut self, auction_id: Vec<u8>, caller: &String) -> (r: Result<
        Transfer,
        AuctionError,
    >)
        requires
            old(self).wf(),
        ensures
            final(self).wf(),
            final(self).htlc_contract() == old(self).htlc_contract(),
            final(self).counter() == old(self).counter(),
            match r {
                Ok(t) => {
                    &&& old(self).auctions().contains_key(auction_id@)
                    &&& old(self).auctions()[auction_id@].cancel_error(caller@) is None
                    &&& t@ == old(self).auctions()[auction_id@].cancel_transfer()
                    &&& final(self).auctions() == old(self).auctions().insert(
                        auction_id@,
                        old(self).auctions()[auction_id@].cancelled(),
                    )
                },
                Err(e) => {
                    &&& *final(self) == *old(self)
                    &&& if old(self).auctions().contains_key(auction_id@) {
                        old(self).auctions()[auction_id@].cancel_error(caller@) == Some(e)
                    } else {
                        e == AuctionError::NotFound
                    }
                },
            },
    {
        let mut auction = match self.auctions.get(&auction_id) {
            Some(a) => a.clone(),
            None => {
                return Err(AuctionError::NotFound);
            },
        };
        match auction.cancel(caller) {
            Ok(t) => {
                self.auctions.insert(auction_id, auction);
                assert(self.auctions() =~= old(self).auctions().insert(auction_id@, auction@));
                Ok(t)
            },
            Err(e) => Err(e),
        }
    }
}

impl Default for DutchAuction {
    /// An engine without auctions whose escrow engine is the account
    /// `htlc-contract.testnet`.
    fn default() -> (d: Self)
        ensures
            d.wf(),
            d.auctions() == Map::<Seq<u8>, AuctionView>::empty(),
            d.htlc_contract() == "htlc-contract.testnet"@,
            d.counter() == 0,
    {
        DutchAuction::new(JsonAccountId::new("htlc-contract.testnet".to_owned()))
    }
}

/// The accepted rate never rises as time passes: it starts at
/// `start_rate`, stays between the two rates, and is `end_rate` from the
/// end of the duration on.
pub proof fn lemma_rate_decays(
    start_rate: u128,
    end_rate: u128,
    duration: u64,
    earlier: u64,
    later: u64,
)
    requires
        start_rate > end_rate,
        duration > 0,
        earlier <= later,
    ensures
        rate_at(start_rate, end_rate, duration, later) <= rate_at(
            start_rate,
            end_rate,
            duration,
            earlier,
        ),
        rate_at(start_rate, end_rate, duration, 0) == start_rate,
        later >= duration ==> rate_at(start_rate, end_rate, duration, later) == end_rate,
        end_rate <= rate_at(start_rate, end_rate, duration, later) <= start_rate,
{
    let spread = start_rate - end_rate;
    assert(mul_div(spread, 0, duration as int) == 0) by {
        assert(spread * 0 == 0);
    }
    if later < duration {
        lemma_mul_div_bounded(spread, later as int, duration as int);
        lemma_mul_div_bounded(spread, earlier as int, duration as int);
        lemma_mul_div_monotone(spread, earlier as int, later as int, duration as int);
    } else if earlier < duration {
        lemma_mul_div_bounded(spread, earlier as int, duration as int);
    }
}

/// An attempt to fill part of an auction.
pub struct FillAttempt {
    /// Digest of the preimage presented.
    pub digest: Seq<u8>,
    /// Source units asked for.
    pub amount: u128,
    /// Time of the attempt.
    pub now: u64,
}

impl AuctionView {
    /// The auction after `attempt`: filled if the attempt is accepted,
    /// untouched if it is refused.
    pub open spec fn after_attempt(self, attempt: FillAttempt) -> AuctionView {
        if self.settle_error(attempt.digest, Some(attempt.amount), attempt.now) is None {
            self.after_fill(attempt.digest, attempt.amount)
        } else {
            self
        }
    }

    /// The auction after `attempts`, made one after another.
    pub open spec fn after_attempts(self, attempts: Seq<FillAttempt>) -> AuctionView
        decreases attempts.len(),
    {
        if attempts.len() == 0 {
            self
        } else {
            self.after_attempt(attempts[0]).after_attempts(attempts.drop_first())
        }
    }

    /// The total amount of the accepted fills among `attempts`.
    pub open spec fn filled(self, attempts: Seq<FillAttempt>) -> nat
        decreases attempts.len(),
    {
        if attempts.len() == 0 {
            0
        } else {
            let first: nat = if self.settle_error(
                attempts[0].digest,
                Some(attempts[0].amount),
                attempts[0].now,
            ) is None {
                attempts[0].amount as nat
            } else {
                0
            };
            first + self.after_attempt(attempts[0]).filled(attempts.drop_first())
        }
    }
}

/// Over any sequence of fill attempts, what was filled and what remains
/// add up to what the auction offered, so the fills never exceed it. An
/// auction with something left to sell stays open while something is left.
pub proof fn lemma_fills_conserve(a: AuctionView, attempts: Seq<FillAttempt>)
    ensures
        a.filled(attempts) + a.after_attempts(attempts).source_amount == a.source_amount,
        a.filled(attempts) <= a.source_amount,
        (a.active ==> a.source_amount > 0) ==> (a.after_attempts(attempts).active
            ==> a.after_attempts(attempts).source_amount > 0),
        !a.active ==> a.after_attempts(attempts) == a,
    decreases attempts.len(),
{
    if attempts.len() > 0 {
        lemma_fills_conserve(a.after_attempt(attempts[0]), attempts.drop_first());
    }
}

/// An accepted fill takes exactly its amount from what remains, and the
/// auction is open afterwards exactly if something remains.
pub proof fn lemma_fill_closes_when_empty(a: AuctionView, digest: Seq<u8>, fill: u128, now: u64)
    requires
        a.settle_error(digest, Some(fill), now) is None,
    ensures
        a.active,
        0 < fill <= a.source_amount,
        a.after_fill(digest, fill).source_amount == a.source_amount - fill,
        a.after_fill(digest, fill).active <==> a.after_fill(digest, fill).source_amount > 0,
{
}

} // verus!
