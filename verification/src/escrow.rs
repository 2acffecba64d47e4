//! The escrow engine: hash-time-locked locks that are created, then either
//! claimed against a preimage or refunded after their recovery time.

use crate::hashlock::{bytes_equal, hex_bytes, hex_decode, is_hex_text, sha256, sha256_digest,
    HASHLOCK_LEN};
use vstd::prelude::*;
use vstd::utf8::encode_utf8;

verus! {

/// Lifecycle of an escrow. An escrow leaves `Open` once and never returns.
#[derive(Clone, Copy, Debug, PartialEq, Eq, Structural)]
pub enum EscrowState {
    Open,
    Claimed,
    Refunded,
}

/// Why an escrow operation was rejected.
#[derive(Clone, Copy, Debug, PartialEq, Eq, Structural)]
pub enum EscrowError {
    /// The amount to lock is zero.
    InvalidAmount,
    /// The hashlock is not a 32-byte commitment.
    InvalidHashlock,
    /// The recovery time is not in the future, or precedes the end of the
    /// exclusive window.
    InvalidTimelock,
    /// No escrow has the given id.
    NotFound,
    /// The preimage does not hash to the hashlock.
    PreimageMismatch,
    /// The escrow was already claimed or refunded.
    AlreadySettled,
    /// The recovery time has been reached; only a refund is possible.
    Expired,
    /// The recovery time has not been reached; a refund is not yet possible.
    NotYetExpired,
    /// The caller may not perform the operation at this time.
    Unauthorized,
}

impl EscrowError {
    /// What this error says to the caller.
    pub open spec fn message_text(self) -> Seq<char> {
        match self {
            EscrowError::InvalidAmount => "Amount must be greater than zero"@,
            EscrowError::InvalidHashlock => "Hashlock must be 32 bytes"@,
            EscrowError::InvalidTimelock => "Invalid timelock"@,
            EscrowError::NotFound => "Escrow not found"@,
            EscrowError::PreimageMismatch => "Invalid preimage"@,
            EscrowError::AlreadySettled => "Escrow already claimed or refunded"@,
            EscrowError::Expired => "Expired"@,
            EscrowError::NotYetExpired => "Not expired"@,
            EscrowError::Unauthorized => "Unauthorized"@,
        }
    }

    /// What this error says to the caller.
    pub fn message(&self) -> (r: &'static str)
        ensures
            r@ == self.message_text(),
    {
        match self {
            EscrowError::InvalidAmount => "Amount must be greater than zero",
            EscrowError::InvalidHashlock => "Hashlock must be 32 bytes",
            EscrowError::InvalidTimelock => "Invalid timelock",
            EscrowError::NotFound => "Escrow not found",
            EscrowError::PreimageMismatch => "Invalid preimage",
            EscrowError::AlreadySettled => "Escrow already claimed or refunded",
            EscrowError::Expired => "Expired",
            EscrowError::NotYetExpired => "Not expired",
            EscrowError::Unauthorized => "Unauthorized",
        }
    }
}

/// An account name.
pub struct JsonAccountId(pub String);

impl View for JsonAccountId {
    type V = Seq<char>;

    open spec fn view(&self) -> Seq<char> {
        self.0@
    }
}

impl Clone for JsonAccountId {
    fn clone(&self) -> (r: Self)
        ensures
            r == *self,
    {
        JsonAccountId(self.0.clone())
    }
}

impl JsonAccountId {
    /// Wraps an account name.
    pub fn new(account_id: String) -> (r: Self)
        ensures
            r@ == account_id@,
            r.0 == account_id,
    {
        JsonAccountId(account_id)
    }

    /// A copy of the account name.
    pub fn inner(&self) -> (r: String)
        ensures
            r@ == self@,
    {
        self.0.clone()
    }

    /// The account name.
    pub fn into_inner(self) -> (r: String)
        ensures
            r@ == self@,
    {
        self.0
    }

    /// Whether this is the account named `name`.
    pub fn is(&self, name: &String) -> (r: bool)
        ensures
            r == (self@ == name@),
    {
        self.0 == *name
    }
}

/// The account an optional account id names, if any.
pub open spec fn account_view(account: Option<JsonAccountId>) -> Option<Seq<char>> {
    match account {
        Some(a) => Some(a@),
        None => None,
    }
}

/// Copies an optional account id.
pub fn clone_account(account: &Option<JsonAccountId>) -> (r: Option<JsonAccountId>)
    ensures
        r == *account,
{
    match account {
        Some(a) => Some(a.clone()),
        None => None,
    }
}

/// The account name under which the chain's native asset is escrowed.
pub open spec fn native_token() -> Seq<char> {
    "near"@
}

/// The account that stands for the native asset.
pub fn native_token_account() -> (r: JsonAccountId)
    ensures
        r@ == native_token(),
{
    JsonAccountId::new("near".to_owned())
}

/// An instruction to move `amount` of `token` to `receiver`.
pub struct Transfer {
    pub token: String,
    pub receiver: String,
    pub amount: u128,
}

/// Mathematical content of a [`Transfer`].
pub struct TransferView {
    pub token: Seq<char>,
    pub receiver: Seq<char>,
    pub amount: u128,
}

impl View for Transfer {
    type V = TransferView;

    open spec fn view(&self) -> TransferView {
        TransferView { token: self.token@, receiver: self.receiver@, amount: self.amount }
    }
}

/// One leg of an atomic swap.
pub struct Escrow {
    /// The depositor, who is refunded after the recovery time.
    pub sender: JsonAccountId,
    /// The designated recipient, if one was named.
    pub receiver: Option<JsonAccountId>,
    /// The asset held.
    pub token: JsonAccountId,
    /// The amount held; never zero.
    pub amount: u128,
    /// SHA-256 commitment to the secret; 32 bytes.
    pub hashlock: Vec<u8>,
    /// End of the window in which only the resolver may claim.
    pub timelock_exclusive: Option<u64>,
    /// Time from which only a refund is possible.
    pub timelock_recovery: u64,
    /// Where the escrow is in its lifecycle.
    pub state: EscrowState,
    /// The party with first right to claim.
    pub resolver: Option<JsonAccountId>,
}

/// Mathematical content of an [`Escrow`].
pub struct EscrowView {
    pub sender: Seq<char>,
    pub receiver: Option<Seq<char>>,
    pub token: Seq<char>,
    pub amount: u128,
    pub hashlock: Seq<u8>,
    pub timelock_exclusive: Option<u64>,
    pub timelock_recovery: u64,
    pub state: EscrowState,
    pub resolver: Option<Seq<char>>,
}

impl View for Escrow {
    type V = EscrowView;

    open spec fn view(&self) -> EscrowView {
        EscrowView {
            sender: self.sender@,
            receiver: account_view(self.receiver),
            token: self.token@,
            amount: self.amount,
            hashlock: self.hashlock@,
            timelock_exclusive: self.timelock_exclusive,
            timelock_recovery: self.timelock_recovery,
            state: self.state,
            resolver: account_view(self.resolver),
        }
    }
}

/// The first reason, if any, for which a lock with these terms is refused
/// at time `now`.
pub open spec fn create_error(
    amount: u128,
    hashlock: Seq<u8>,
    timelock_exclusive: Option<u64>,
    timelock_recovery: u64,
    now: u64,
) -> Option<EscrowError> {
    if amount == 0 {
        Some(EscrowError::InvalidAmount)
    } else if hashlock.len() != HASHLOCK_LEN {
        Some(EscrowError::InvalidHashlock)
    } else if timelock_recovery <= now {
        Some(EscrowError::InvalidTimelock)
    } else if timelock_exclusive matches Some(t) && t > timelock_recovery {
        Some(EscrowError::InvalidTimelock)
    } else {
        None
    }
}

impl EscrowView {
    /// The invariant of every escrow held by the engine.
    pub open spec fn wf(self) -> bool {
        &&& self.amount > 0
        &&& self.hashlock.len() == HASHLOCK_LEN
        &&& self.timelock_exclusive matches Some(t) ==> t <= self.timelock_recovery
    }

    /// Whether only the resolver may claim at time `now`: before the end of
    /// the exclusive window, or, where no window was configured, whenever a
    /// resolver is assigned.
    pub open spec fn exclusive_at(self, now: u64) -> bool {
        match self.timelock_exclusive {
            Some(t) => now < t,
            None => self.resolver is Some,
        }
    }

    /// The first reason, if any, for which a claim by `caller` presenting a
    /// preimage with digest `digest` fails at time `now`.
    pub open spec fn claim_error(self, caller: Seq<char>, digest: Seq<u8>, now: u64) -> Option<
        EscrowError,
    > {
        if digest != self.hashlock {
            Some(EscrowError::PreimageMismatch)
        } else if self.state != EscrowState::Open {
            Some(EscrowError::AlreadySettled)
        } else if now >= self.timelock_recovery {
            Some(EscrowError::Expired)
        } else if self.exclusive_at(now) && self.resolver != Some(caller) {
            Some(EscrowError::Unauthorized)
        } else {
            None
        }
    }

    /// The first reason, if any, for which a refund requested by `caller`
    /// fails at time `now`.
    pub open spec fn refund_error(self, caller: Seq<char>, now: u64) -> Option<EscrowError> {
        if self.state != EscrowState::Open {
            Some(EscrowError::AlreadySettled)
        } else if now < self.timelock_recovery {
            Some(EscrowError::NotYetExpired)
        } else if caller != self.sender {
            Some(EscrowError::Unauthorized)
        } else {
            None
        }
    }

    /// Who is paid by a claim: the resolver if one is assigned, else the
    /// receiver, else the depositor.
    pub open spec fn beneficiary(self) -> Seq<char> {
        match self.resolver {
            Some(r) => r,
            None => match self.receiver {
                Some(r) => r,
                None => self.sender,
            },
        }
    }

    /// The payment a successful claim orders.
    pub open spec fn claim_transfer(self) -> TransferView {
        TransferView { token: self.token, receiver: self.beneficiary(), amount: self.amount }
    }

    /// The payment a successful refund orders.
    pub open spec fn refund_transfer(self) -> TransferView {
        TransferView { token: self.token, receiver: self.sender, amount: self.amount }
    }

    /// This escrow moved to `state`.
    pub open spec fn with_state(self, state: EscrowState) -> EscrowView {
        EscrowView { state, ..self }
    }

    /// This escrow after `caller` asked to become its resolver: the first
    /// assignment stays.
    pub open spec fn with_resolver(self, caller: Seq<char>) -> EscrowView {
        if self.resolver is Some {
            self
        } else {
            EscrowView { resolver: Some(caller), ..self }
        }
    }
}

impl Clone for Escrow {
    fn clone(&self) -> (r: Self)
        ensures
            r@ == self@,
    {
        Escrow {
            sender: self.sender.clone(),
            receiver: clone_account(&self.receiver),
            token: self.token.clone(),
            amount: self.amount,
            hashlock: self.hashlock.clone(),
            timelock_exclusive: self.timelock_exclusive,
            timelock_recovery: self.timelock_recovery,
            state: self.state,
            resolver: clone_account(&self.resolver),
        }
    }
}

/// The message that accompanies a token deposit and states the terms of
/// the lock to create.
pub struct LockMsg {
    /// The hashlock as 64 hexadecimal digits.
    pub hashlock: String,
    /// How long after the deposit the recovery time is reached. The
    /// exclusive window covers the first half of this span.
    pub timelock: u64,
    pub dest_chain: String,
    pub dest_user: String,
    pub min_return: String,
    pub output_token: String,
    /// The resolver, if the depositor names one.
    pub resolver_id: Option<JsonAccountId>,
}

/// The first reason, if any, for which a deposit of `amount` with the given
/// hashlock text and time span is refused at time `now`.
pub open spec fn deposit_error(amount: u128, hashlock: Seq<char>, timelock: u64, now: u64) -> Option<
    EscrowError,
> {
    if amount == 0 {
        Some(EscrowError::InvalidAmount)
    } else if !is_hex_text(hashlock) || hashlock.len() != 2 * HASHLOCK_LEN {
        Some(EscrowError::InvalidHashlock)
    } else if timelock == 0 || now + timelock > u64::MAX {
        Some(EscrowError::InvalidTimelock)
    } else {
        None
    }
}

/// The escrow that a deposit opens.
pub open spec fn deposit_escrow(
    token: Seq<char>,
    sender: Seq<char>,
    amount: u128,
    hashlock: Seq<char>,
    timelock: u64,
    resolver: Option<Seq<char>>,
    now: u64,
) -> EscrowView {
    EscrowView {
        sender,
        receiver: None,
        token,
        amount,
        hashlock: hex_bytes(hashlock),
        timelock_exclusive: Some((now + timelock / 2) as u64),
        timelock_recovery: (now + timelock) as u64,
        state: EscrowState::Open,
        resolver,
    }
}

impl Escrow {
    /// Opens an escrow with the given terms at time `now`, or says why the
    /// terms are refused.
    pub fn open(
        sender: JsonAccountId,
        receiver: Option<JsonAccountId>,
        resolver: Option<JsonAccountId>,
        token: JsonAccountId,
        amount: u128,
        hashlock: Vec<u8>,
        timelock_exclusive: Option<u64>,
        timelock_recovery: u64,
        now: u64,
    ) -> (r: Result<Escrow, EscrowError>)
        ensures
            match r {
                Ok(e) => {
                    &&& create_error(amount, hashlock@, timelock_exclusive, timelock_recovery, now)
                        is None
                    &&& e@ == (EscrowView {
                        sender: sender@,
                        receiver: account_view(receiver),
                        token: token@,
                        amount,
                        hashlock: hashlock@,
                        timelock_exclusive,
                        timelock_recovery,
                        state: EscrowState::Open,
                        resolver: account_view(resolver),
                    })
                    &&& e@.wf()
                },
                Err(err) => create_error(
                    amount,
                    hashlock@,
                    timelock_exclusive,
                    timelock_recovery,
                    now,
                ) == Some(err),
            },
    {
        if amount == 0 {
            return Err(EscrowError::InvalidAmount);
        }
        if hashlock.len() != HASHLOCK_LEN {
            return Err(EscrowError::InvalidHashlock);
        }
        if timelock_recovery <= now {
            return Err(EscrowError::InvalidTimelock);
        }
        match timelock_exclusive {
            Some(t) => {
                if t > timelock_recovery {
                    return Err(EscrowError::InvalidTimelock);
                }
            },
            None => {},
        }
        Ok(
            Escrow {
                sender,
                receiver,
                token,
                amount,
                hashlock,
                timelock_exclusive,
                timelock_recovery,
                state: EscrowState::Open,
                resolver,
            },
        )
    }

    /// Opens the escrow that a deposit of `amount` of `token` by
    /// `sender_id` asks for in `msg`, or says why the deposit is refused.
    ///
    /// The recovery time is `msg.timelock` after `now`, and the exclusive
    /// window ends halfway there.
    pub fn from_deposit(
        sender_id: JsonAccountId,
        amount: u128,
        msg: LockMsg,
        token: JsonAccountId,
        now: u64,
    ) -> (r: Result<Escrow, EscrowError>)
        ensures
            match r {
                Ok(e) => {
                    &&& deposit_error(amount, msg.hashlock@, msg.timelock, now) is None
                    &&& e@ == deposit_escrow(
                        token@,
                        sender_id@,
                        amount,
                        msg.hashlock@,
                        msg.timelock,
                        account_view(msg.resolver_id),
                        now,
                    )
                    &&& e@.wf()
                },
                Err(e) => deposit_error(amount, msg.hashlock@, msg.timelock, now) == Some(e),
            },
    {
        if amount == 0 {
            return Err(EscrowError::InvalidAmount);
        }
        let hashlock = match hex_decode(&msg.hashlock) {
            Ok(bytes) => bytes,
            Err(_) => {
                return Err(EscrowError::InvalidHashlock);
            },
        };
        if hashlock.len() != HASHLOCK_LEN {
            return Err(EscrowError::InvalidHashlock);
        }
        if msg.timelock == 0 {
            return Err(EscrowError::InvalidTimelock);
        }
        let recovery = match now.checked_add(msg.timelock) {
            Some(t) => t,
            None => {
                return Err(EscrowError::InvalidTimelock);
            },
        };
        let exclusive: u64 = now + msg.timelock / 2;
        Escrow::open(
            sender_id,
            None,
            msg.resolver_id,
            token,
            amount,
            hashlock,
            Some(exclusive),
            recovery,
            now,
        )
    }

    /// Whether only the resolver may claim at time `now`.
    pub fn exclusive_at(&self, now: u64) -> (r: bool)
        ensures
            r == self@.exclusive_at(now),
    {
        match self.timelock_exclusive {
            Some(t) => now < t,
            None => self.resolver.is_some(),
        }
    }

    /// Whether `caller` is the assigned resolver.
    pub fn is_resolver(&self, caller: &String) -> (r: bool)
        ensures
            r == (self@.resolver == Some(caller@)),
    {
        match &self.resolver {
            Some(a) => a.is(caller),
            None => false,
        }
    }

    /// The account a claim pays.
    pub fn beneficiary(&self) -> (r: String)
        ensures
            r@ == self@.beneficiary(),
    {
        match &self.resolver {
            Some(a) => a.inner(),
            None => match &self.receiver {
                Some(a) => a.inner(),
                None => self.sender.inner(),
            },
        }
    }

    /// Claims the escrow for a preimage whose SHA-256 digest is `digest`.
    ///
    /// On success the escrow becomes `Claimed` and the returned transfer
    /// pays the beneficiary; otherwise nothing changes.
    pub fn claim_with_digest(&mut self, digest: &Vec<u8>, caller: &String, now: u64) -> (r: Result<
        Transfer,
        EscrowError,
    >)
        ensures
            match r {
                Ok(t) => {
                    &&& old(self)@.claim_error(caller@, digest@, now) is None
                    &&& final(self)@ == old(self)@.with_state(EscrowState::Claimed)
                    &&& t@ == old(self)@.claim_transfer()
                },
                Err(e) => {
                    &&& old(self)@.claim_error(caller@, digest@, now) == Some(e)
                    &&& *final(self) == *old(self)
                },
            },
    {
        if !bytes_equal(digest.as_slice(), self.hashlock.as_slice()) {
            return Err(EscrowError::PreimageMismatch);
        }
        match self.state {
            EscrowState::Open => {},
            _ => {
                return Err(EscrowError::AlreadySettled);
            },
        }
        if now >= self.timelock_recovery {
            return Err(EscrowError::Expired);
        }
        if self.exclusive_at(now) && !self.is_resolver(caller) {
            return Err(EscrowError::Unauthorized);
        }
        let receiver = self.beneficiary();
        let token = self.token.inner();
        self.state = EscrowState::Claimed;
        Ok(Transfer { token, receiver, amount: self.amount })
    }

    /// Claims the escrow by revealing `preimage`.
    pub fn claim(&mut self, preimage: &String, caller: &String, now: u64) -> (r: Result<
        Transfer,
        EscrowError,
    >)
        ensures
            match r {
                Ok(t) => {
                    &&& old(self)@.claim_error(
                        caller@,
                        sha256_digest(encode_utf8(preimage@)),
                        now,
                    ) is None
                    &&& final(self)@ == old(self)@.with_state(EscrowState::Claimed)
                    &&& t@ == old(self)@.claim_transfer()
                },
                Err(e) => {
                    &&& old(self)@.claim_error(
                        caller@,
                        sha256_digest(encode_utf8(preimage@)),
                        now,
                    ) == Some(e)
                    &&& *final(self) == *old(self)
                },
            },
    {
        let digest = sha256(preimage.as_str().as_bytes());
        self.claim_with_digest(&digest, caller, now)
    }

    /// Returns the escrowed amount to the depositor once the recovery time
    /// has been reached.
    pub fn refund(&mut self, caller: &String, now: u64) -> (r: Result<Transfer, EscrowError>)
        ensures
            match r {
                Ok(t) => {
                    &&& old(self)@.refund_error(caller@, now) is None
                    &&& final(self)@ == old(self)@.with_state(EscrowState::Refunded)
                    &&& t@ == old(self)@.refund_transfer()
                },
                Err(e) => {
                    &&& old(self)@.refund_error(caller@, now) == Some(e)
                    &&& *final(self) == *old(self)
                },
            },
    {
        match self.state {
            EscrowState::Open => {},
            _ => {
                return Err(EscrowError::AlreadySettled);
            },
        }
        if now < self.timelock_recovery {
            return Err(EscrowError::NotYetExpired);
        }
        if !self.sender.is(caller) {
            return Err(EscrowError::Unauthorized);
        }
        let receiver = self.sender.inner();
        let token = self.token.inner();
        self.state = EscrowState::Refunded;
        Ok(Transfer { token, receiver, amount: self.amount })
    }

    /// Makes `caller` the resolver unless one is already assigned.
    pub fn assign_resolver(&mut self, caller: &String)
        ensures
            final(self)@ == old(self)@.with_resolver(caller@),
    {
        if self.resolver.is_none() {
            self.resolver = Some(JsonAccountId::new(caller.clone()));
        }
    }
}

/// The escrow ledger. Ids are handed out in sequence, starting at zero, and
/// an escrow is never removed.
pub struct Contract {
    escrows: Vec<Escrow>,
    next_id: u64,
}

impl Contract {
    /// All escrows ever created; the escrow with id `i` is at index `i`.
    pub closed spec fn escrows(&self) -> Seq<EscrowView> {
        self.escrows@.map_values(|e: Escrow| e@)
    }

    /// The id the next escrow will get.
    pub closed spec fn next_id(&self) -> u64 {
        self.next_id
    }

    /// The ledger's invariant.
    pub open spec fn wf(&self) -> bool {
        &&& self.escrows().len() == self.next_id()
        &&& forall|i: int| 0 <= i < self.escrows().len() ==> (#[trigger] self.escrows()[i]).wf()
    }

    /// The escrow with the given id, if it exists.
    pub open spec fn escrow(&self, id: u64) -> Option<EscrowView> {
        if id < self.escrows().len() {
            Some(self.escrows()[id as int])
        } else {
            None
        }
    }

    /// Relates the stored escrows to their views.
    proof fn lemma_views(&self)
        ensures
            self.escrows().len() == self.escrows@.len(),
            forall|i: int|
                0 <= i < self.escrows@.len() ==> #[trigger] self.escrows()[i] == self.escrows@[i]@,
    {
    }

    /// An empty ledger.
    pub fn new() -> (c: Self)
        ensures
            c.wf(),
            c.next_id() == 0,
            c.escrows() == Seq::<EscrowView>::empty(),
    {
        let c = Contract { escrows: Vec::new(), next_id: 0 };
        assert(c.escrows() =~= Seq::<EscrowView>::empty());
        c
    }

    /// Creates a lock and returns its id, or says why the terms are
    /// refused. A refused lock leaves the ledger unchanged.
    pub fn create_lock(
        &mut self,
        maker: JsonAccountId,
        receiver: Option<JsonAccountId>,
        resolver: Option<JsonAccountId>,
        token: JsonAccountId,
        amount: u128,
        hashlock: Vec<u8>,
        timelock_exclusive: Option<u64>,
        timelock_recovery: u64,
        now: u64,
    ) -> (r: Result<u64, EscrowError>)
        requires
            old(self).wf(),
            old(self).next_id() < u64::MAX,
        ensures
            final(self).wf(),
            match r {
                Ok(id) => {
                    &&& create_error(amount, hashlock@, timelock_exclusive, timelock_recovery, now)
                        is None
                    &&& id == old(self).next_id()
                    &&& final(self).next_id() == id + 1
                    &&& final(self).escrows() == old(self).escrows().push(
                        EscrowView {
                            sender: maker@,
                            receiver: account_view(receiver),
                            token: token@,
                            amount,
                            hashlock: hashlock@,
                            timelock_exclusive,
                            timelock_recovery,
                            state: EscrowState::Open,
                            resolver: account_view(resolver),
                        },
                    )
                },
                Err(e) => {
                    &&& create_error(amount, hashlock@, timelock_exclusive, timelock_recovery, now)
                        == Some(e)
                    &&& *final(self) == *old(self)
                },
            },
    {
        match Escrow::open(
            maker,
            receiver,
            resolver,
            token,
            amount,
            hashlock,
            timelock_exclusive,
            timelock_recovery,
            now,
        ) {
            Ok(escrow) => {
                let id = self.next_id;
                self.escrows.push(escrow);
                self.next_id = id + 1;
                assert(self.escrows() =~= old(self).escrows().push(escrow@));
                Ok(id)
            },
            Err(e) => Err(e),
        }
    }

    /// Handles a token deposit: opens an escrow of `amount` of `token` for
    /// `sender_id` on the terms in `msg` and returns its id.
    ///
    /// The recovery time is `msg.timelock` after `now`, and the exclusive
    /// window ends halfway there.
    pub fn ft_on_transfer(
        &mut self,
        sender_id: JsonAccountId,
        amount: u128,
        msg: LockMsg,
        token: JsonAccountId,
        now: u64,
    ) -> (r: Result<u64, EscrowError>)
        requires
            old(self).wf(),
            old(self).next_id() < u64::MAX,
        ensures
            final(self).wf(),
            match r {
                Ok(id) => {
                    &&& deposit_error(amount, msg.hashlock@, msg.timelock, now) is None
                    &&& id == old(self).next_id()
                    &&& final(self).next_id() == id + 1
                    &&& final(self).escrows() == old(self).escrows().push(
                        deposit_escrow(
                            token@,
                            sender_id@,
                            amount,
                            msg.hashlock@,
                            msg.timelock,
                            account_view(msg.resolver_id),
                            now,
                        ),
                    )
                },
                Err(e) => {
                    &&& deposit_error(amount, msg.hashlock@, msg.timelock, now) == Some(e)
                    &&& *final(self) == *old(self)
                },
            },
    {
        match Escrow::from_deposit(sender_id, amount, msg, token, now) {
            Ok(escrow) => {
                let id = self.next_id;
                self.escrows.push(escrow);
                self.next_id = id + 1;
                assert(self.escrows() =~= old(self).escrows().push(escrow@));
                Ok(id)
            },
            Err(e) => Err(e),
        }
    }

    /// Records `caller` as the resolver of escrow `id` unless it already
    /// has one. Asking again changes nothing.
    pub fn register_resolver(&mut self, id: u64, caller: &String) -> (r: Result<(), EscrowError>)
        requires
            old(self).wf(),
        ensures
            final(self).wf(),
            final(self).next_id() == old(self).next_id(),
            match r {
                Ok(()) => {
                    &&& old(self).escrow(id) matches Some(e)
                    &&& final(self).escrows() == old(self).escrows().update(
                        id as int,
                        e.with_resolver(caller@),
                    )
                },
                Err(e) => {
                    &&& e == EscrowError::NotFound
                    &&& old(self).escrow(id) is None
                    &&& *final(self) == *old(self)
                },
            },
    {
        proof {
            self.lemma_views();
        }
        if id >= self.escrows.len() as u64 {
            return Err(EscrowError::NotFound);
        }
        let index = id as usize;
        let mut escrow = self.escrows[index].clone();
        escrow.assign_resolver(caller);
        self.escrows.set(index, escrow);
        proof {
            self.lemma_views();
        }
        assert(self.escrows() =~= old(self).escrows().update(
            id as int,
            old(self).escrows()[id as int].with_resolver(caller@),
        ));
        Ok(())
    }

    /// Claims escrow `id` for a preimage whose SHA-256 digest is `digest`.
    ///
    /// On success the escrow becomes `Claimed` and the transfer to its
    /// beneficiary is returned. On failure the ledger is unchanged.
    pub fn withdraw_with_digest(&mut self, id: u64, digest: &Vec<u8>, caller: &String, now: u64) -> (r:
        Result<Transfer, EscrowError>)
        requires
            old(self).wf(),
        ensures
            final(self).wf(),
            final(self).next_id() == old(self).next_id(),
            match r {
                Ok(t) => {
                    &&& old(self).escrow(id) matches Some(e)
                    &&& e.claim_error(caller@, digest@, now) is None
                    &&& final(self).escrows() == old(self).escrows().update(
                        id as int,
                        e.with_state(EscrowState::Claimed),
                    )
                    &&& t@ == e.claim_transfer()
                },
                Err(err) => {
                    &&& *final(self) == *old(self)
                    &&& match old(self).escrow(id) {
                        Some(e) => e.claim_error(caller@, digest@, now) == Some(err),
                        None => err == EscrowError::NotFound,
                    }
                },
            },
    {
        proof {
            self.lemma_views();
        }
        if id >= self.escrows.len() as u64 {
            return Err(EscrowError::NotFound);
        }
        let index = id as usize;
        let mut escrow = self.escrows[index].clone();
        match escrow.claim_with_digest(digest, caller, now) {
            Ok(t) => {
                self.escrows.set(index, escrow);
                proof {
                    self.lemma_views();
                }
                assert(self.escrows() =~= old(self).escrows().update(
                    id as int,
                    old(self).escrows()[id as int].with_state(EscrowState::Claimed),
                ));
                Ok(t)
            },
            Err(e) => Err(e),
        }
    }

    /// Claims escrow `id` by revealing `preimage`.
    pub fn withdraw(&mut self, id: u64, preimage: String, caller: &String, now: u64) -> (r: Result<
        Transfer,
        EscrowError,
    >)
        requires
            old(self).wf(),
        ensures
            final(self).wf(),
            final(self).next_id() == old(self).next_id(),
            match r {
                Ok(t) => {
                    &&& old(self).escrow(id) matches Some(e)
                    &&& e.claim_error(caller@, sha256_digest(encode_utf8(preimage@)), now) is None
                    &&& final(self).escrows() == old(self).escrows().update(
                        id as int,
                        e.with_state(EscrowState::Claimed),
                    )
                    &&& t@ == e.claim_transfer()
                },
                Err(err) => {
                    &&& *final(self) == *old(self)
                    &&& match old(self).escrow(id) {
                        Some(e) => e.claim_error(
                            caller@,
                            sha256_digest(encode_utf8(preimage@)),
                            now,
                        ) == Some(err),
                        None => err == EscrowError::NotFound,
                    }
                },
            },
    {
        let digest = sha256(preimage.as_str().as_bytes());
        self.withdraw_with_digest(id, &digest, caller, now)
    }

    /// Refunds escrow `id` to its depositor.
    ///
    /// On success the escrow becomes `Refunded` and the transfer back to
    /// the depositor is returned. On failure the ledger is unchanged.
    pub fn refund(&mut self, id: u64, caller: &String, now: u64) -> (r: Result<Transfer, EscrowError>)
        requires
            old(self).wf(),
        ensures
            final(self).wf(),
            final(self).next_id() == old(self).next_id(),
            match r {
                Ok(t) => {
                    &&& old(self).escrow(id) matches Some(e)
                    &&& e.refund_error(caller@, now) is None
                    &&& final(self).escrows() == old(self).escrows().update(
                        id as int,
                        e.with_state(EscrowState::Refunded),
                    )
                    &&& t@ == e.refund_transfer()
                },
                Err(err) => {
                    &&& *final(self) == *old(self)
                    &&& match old(self).escrow(id) {
                        Some(e) => e.refund_error(caller@, now) == Some(err),
                        None => err == EscrowError::NotFound,
                    }
                },
            },
    {
        proof {
            self.lemma_views();
        }
        if id >= self.escrows.len() as u64 {
            return Err(EscrowError::NotFound);
        }
        let index = id as usize;
        let mut escrow = self.escrows[index].clone();
        match escrow.refund(caller, now) {
            Ok(t) => {
                self.escrows.set(index, escrow);
                proof {
                    self.lemma_views();
                }
                assert(self.escrows() =~= old(self).escrows().update(
                    id as int,
                    old(self).escrows()[id as int].with_state(EscrowState::Refunded),
                ));
                Ok(t)
            },
            Err(e) => Err(e),
        }
    }

    /// A copy of escrow `id`, if it exists.
    pub fn get_escrow(&self, id: u64) -> (r: Option<Escrow>)
        requires
            self.wf(),
        ensures
            match r {
                Some(e) => self.escrow(id) == Some(e@),
                None => self.escrow(id) is None,
            },
    {
        proof {
            self.lemma_views();
        }
        if id >= self.escrows.len() as u64 {
            return None;
        }
        Some(self.escrows[id as usize].clone())
    }
}

impl Default for Contract {
    fn default() -> (c: Self)
        ensures
            c.wf(),
            c.next_id() == 0,
            c.escrows() == Seq::<EscrowView>::empty(),
    {
        Contract::new()
    }
}

/// An attempt to settle an escrow.
pub enum Attempt {
    /// A claim by `caller` with a preimage whose digest is `digest`.
    Claim { caller: Seq<char>, digest: Seq<u8>, now: u64 },
    /// A refund requested by `caller`.
    Refund { caller: Seq<char>, now: u64 },
}

impl EscrowView {
    /// The first reason, if any, for which `attempt` fails.
    pub open spec fn attempt_error(self, attempt: Attempt) -> Option<EscrowError> {
        match attempt {
            Attempt::Claim { caller, digest, now } => self.claim_error(caller, digest, now),
            Attempt::Refund { caller, now } => self.refund_error(caller, now),
        }
    }

    /// The escrow after `attempt`: settled if the attempt succeeds,
    /// untouched if it fails.
    pub open spec fn after(self, attempt: Attempt) -> EscrowView {
        if self.attempt_error(attempt) is Some {
            self
        } else {
            match attempt {
                Attempt::Claim { .. } => self.with_state(EscrowState::Claimed),
                Attempt::Refund { .. } => self.with_state(EscrowState::Refunded),
            }
        }
    }

    /// How many of `attempts`, made one after another, succeed.
    pub open spec fn successes(self, attempts: Seq<Attempt>) -> nat
        decreases attempts.len(),
    {
        if attempts.len() == 0 {
            0
        } else {
            let first: nat = if self.attempt_error(attempts[0]) is None {
                1
            } else {
                0
            };
            first + self.after(attempts[0]).successes(attempts.drop_first())
        }
    }
}

/// Over any sequence of claims and refunds on one escrow, at most one
/// succeeds, and none does once the escrow has left `Open`.
pub proof fn lemma_settles_at_most_once(e: EscrowView, attempts: Seq<Attempt>)
    ensures
        e.successes(attempts) <= 1,
        e.state != EscrowState::Open ==> e.successes(attempts) == 0,
    decreases attempts.len(),
{
    if attempts.len() > 0 {
        lemma_settles_at_most_once(e.after(attempts[0]), attempts.drop_first());
    }
}

/// Once an escrow has been claimed or refunded, every refund fails with
/// `AlreadySettled`, every claim fails, and a claim with the right
/// preimage fails with `AlreadySettled`.
pub proof fn lemma_settled_rejects(e: EscrowView, caller: Seq<char>, digest: Seq<u8>, now: u64)
    requires
        e.state != EscrowState::Open,
    ensures
        e.refund_error(caller, now) == Some(EscrowError::AlreadySettled),
        e.claim_error(caller, digest, now) is Some,
        digest == e.hashlock ==> e.claim_error(caller, digest, now) == Some(
            EscrowError::AlreadySettled,
        ),
{
}

/// A successful claim or refund leaves the escrow settled for good: the
/// state moves from `Open` to `Claimed` or `Refunded` and no attempt moves
/// it again.
pub proof fn lemma_state_is_monotone(e: EscrowView, attempt: Attempt)
    ensures
        e.state != EscrowState::Open ==> e.after(attempt) == e,
        e.after(attempt).state != e.state ==> e.state == EscrowState::Open && e.after(
            attempt,
        ).state != EscrowState::Open,
        e.attempt_error(attempt) is None ==> e.after(attempt).state != EscrowState::Open,
{
}

/// Inside the exclusive window of an open escrow, a claim with the right
/// preimage succeeds for the resolver and fails with `Unauthorized` for
/// everyone else; without the resolver's name no claim succeeds at all.
pub proof fn lemma_exclusive_window(e: EscrowView, caller: Seq<char>, digest: Seq<u8>, now: u64)
    requires
        e.wf(),
        e.state == EscrowState::Open,
        e.timelock_exclusive matches Some(t) && now < t,
    ensures
        e.resolver == Some(caller) ==> e.claim_error(caller, e.hashlock, now) is None,
        e.resolver != Some(caller) ==> e.claim_error(caller, e.hashlock, now) == Some(
            EscrowError::Unauthorized,
        ),
        e.resolver != Some(caller) ==> e.claim_error(caller, digest, now) is Some,
{
}

/// After the exclusive window and before the recovery time, anyone who
/// holds the preimage may claim an open escrow.
pub proof fn lemma_open_window(e: EscrowView, caller: Seq<char>, now: u64)
    requires
        e.state == EscrowState::Open,
        e.timelock_exclusive matches Some(t) && t <= now,
        now < e.timelock_recovery,
    ensures
        e.claim_error(caller, e.hashlock, now) is None,
{
}

/// A refund of an open escrow fails with `NotYetExpired` before the
/// recovery time. From the recovery time on it succeeds for the depositor,
/// once: any later refund fails with `AlreadySettled`. From then on no
/// claim succeeds either.
pub proof fn lemma_refund_window(
    e: EscrowView,
    caller: Seq<char>,
    digest: Seq<u8>,
    now: u64,
    later: u64,
)
    requires
        e.state == EscrowState::Open,
    ensures
        now < e.timelock_recovery ==> e.refund_error(caller, now) == Some(
            EscrowError::NotYetExpired,
        ),
        now >= e.timelock_recovery ==> e.claim_error(caller, digest, now) is Some,
        now >= e.timelock_recovery && caller == e.sender ==> {
            &&& e.refund_error(caller, now) is None
            &&& e.with_state(EscrowState::Refunded).refund_error(caller, later) == Some(
                EscrowError::AlreadySettled,
            )
        },
{
}

/// The three windows of an open escrow with an exclusive window divide
/// time between them: before the end of the exclusive window only the
/// resolver can claim; from then until the recovery time anyone who holds
/// the preimage can; from the recovery time on nobody can claim and the
/// depositor can take the refund. At no time can both a claim and a
/// refund succeed.
pub proof fn lemma_windows_partition_time(
    e: EscrowView,
    claimant: Seq<char>,
    refunder: Seq<char>,
    digest: Seq<u8>,
    now: u64,
)
    requires
        e.wf(),
        e.state == EscrowState::Open,
        e.timelock_exclusive is Some,
    ensures
        e.claim_error(claimant, e.hashlock, now) is None <==> {
            ||| now < e.timelock_exclusive->0 && e.resolver == Some(claimant)
            ||| e.timelock_exclusive->0 <= now < e.timelock_recovery
        },
        e.refund_error(e.sender, now) is None <==> now >= e.timelock_recovery,
        !(e.claim_error(claimant, digest, now) is None && e.refund_error(refunder, now) is None),
{
}

} // verus!
