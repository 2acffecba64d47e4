//! Hash-time-locked contracts over the native asset, filed under text ids
//! and committed to by the base64 text of a SHA-256 digest.

use crate::escrow::{native_token, native_token_account, EscrowError, EscrowState, Transfer,
    TransferView};
use crate::hashlock::{base64_bytes, base64_decode, base64_encode, base64_text, bytes_view, sha256,
    sha256_digest, HASHLOCK_LEN};
use crate::ids::{lemma_id_injective, sequence_id, sequence_text};
use crate::table::Table;
use vstd::prelude::*;
use vstd::utf8::encode_utf8;

verus! {

/// A hash-time-locked contract.
pub struct Htlc {
    /// The depositor, who is refunded after the time lock.
    pub sender: String,
    /// Who is paid when the secret is revealed.
    pub receiver: String,
    /// The amount held; never zero.
    pub amount: u128,
    /// Base64 text of the SHA-256 digest of the secret.
    pub hash_lock: String,
    /// Time from which only a refund is possible.
    pub time_lock: u64,
    /// Where the contract is in its lifecycle.
    pub state: EscrowState,
}

/// Mathematical content of an [`Htlc`].
pub struct HtlcView {
    pub sender: Seq<char>,
    pub receiver: Seq<char>,
    pub amount: u128,
    pub hash_lock: Seq<char>,
    pub time_lock: u64,
    pub state: EscrowState,
}

impl View for Htlc {
    type V = HtlcView;

    open spec fn view(&self) -> HtlcView {
        HtlcView {
            sender: self.sender@,
            receiver: self.receiver@,
            amount: self.amount,
            hash_lock: self.hash_lock@,
            time_lock: self.time_lock,
            state: self.state,
        }
    }
}

impl Clone for Htlc {
    fn clone(&self) -> (r: Self)
        ensures
            r == *self,
    {
        Htlc {
            sender: self.sender.clone(),
            receiver: self.receiver.clone(),
            amount: self.amount,
            hash_lock: self.hash_lock.clone(),
            time_lock: self.time_lock,
            state: self.state,
        }
    }
}

/// The first reason, if any, for which a contract over `amount` with a
/// hash lock that decodes to `decoded` is refused at time `now`.
pub open spec fn htlc_terms_error(
    amount: u128,
    decoded: Option<Seq<u8>>,
    time_lock: u64,
    now: u64,
) -> Option<EscrowError> {
    if amount == 0 {
        Some(EscrowError::InvalidAmount)
    } else if decoded is None || decoded->0.len() != HASHLOCK_LEN {
        Some(EscrowError::InvalidHashlock)
    } else if time_lock <= now {
        Some(EscrowError::InvalidTimelock)
    } else {
        None
    }
}

/// The id of the `n`-th contract.
pub open spec fn htlc_id_text(n: nat) -> Seq<char> {
    sequence_text("htlc-"@, n)
}

/// The bytes that a hash lock text stands for, if it is well-formed
/// base64.
pub fn hash_lock_bytes(hash_lock: &String) -> (r: Option<Vec<u8>>)
    ensures
        bytes_view(r) == base64_bytes(hash_lock@),
{
    match base64_decode(hash_lock) {
        Ok(bytes) => Some(bytes),
        Err(_) => None,
    }
}

/// The hash lock text that commits to `preimage`: the base64 text of its
/// SHA-256 digest.
pub fn hash_lock_of(preimage: &String) -> (r: String)
    ensures
        r@ == base64_text(sha256_digest(encode_utf8(preimage@))),
{
    let digest = sha256(preimage.as_str().as_bytes());
    base64_encode(digest.as_slice())
}

impl HtlcView {
    /// The first reason, if any, for which a claim that presents a secret
    /// whose digest has the base64 text `encoded` fails at time `now`.
    /// Anyone who holds the secret may claim; the receiver is paid.
    pub open spec fn claim_error(self, encoded: Seq<char>, now: u64) -> Option<EscrowError> {
        if encoded != self.hash_lock {
            Some(EscrowError::PreimageMismatch)
        } else if self.state != EscrowState::Open {
            Some(EscrowError::AlreadySettled)
        } else if now >= self.time_lock {
            Some(EscrowError::Expired)
        } else {
            None
        }
    }

    /// The first reason, if any, for which a refund requested by `caller`
    /// fails at time `now`.
    pub open spec fn refund_error(self, caller: Seq<char>, now: u64) -> Option<EscrowError> {
        if self.state != EscrowState::Open {
            Some(EscrowError::AlreadySettled)
        } else if now < self.time_lock {
            Some(EscrowError::NotYetExpired)
        } else if caller != self.sender {
            Some(EscrowError::Unauthorized)
        } else {
            None
        }
    }

    /// This contract moved to `state`.
    pub open spec fn with_state(self, state: EscrowState) -> HtlcView {
        HtlcView { state, ..self }
    }

    /// The payment a successful claim orders.
    pub open spec fn claim_transfer(self) -> TransferView {
        TransferView { token: native_token(), receiver: self.receiver, amount: self.amount }
    }

    /// The payment a successful refund orders.
    pub open spec fn refund_transfer(self) -> TransferView {
        TransferView { token: native_token(), receiver: self.sender, amount: self.amount }
    }
}

impl Htlc {
    /// Opens a contract of `sender`, who deposited `amount`, whose hash
    /// lock text decodes to `decoded`, or says why its terms are refused.
    pub fn open(
        sender: String,
        receiver: String,
        amount: u128,
        hash_lock: String,
        decoded: Option<Vec<u8>>,
        time_lock: u64,
        now: u64,
    ) -> (r: Result<Htlc, EscrowError>)
        ensures
            match r {
                Ok(h) => {
                    &&& htlc_terms_error(amount, bytes_view(decoded), time_lock, now) is None
                    &&& h@ == (HtlcView {
                        sender: sender@,
                        receiver: receiver@,
                        amount,
                        hash_lock: hash_lock@,
                        time_lock,
                        state: EscrowState::Open,
                    })
                },
                Err(e) => htlc_terms_error(amount, bytes_view(decoded), time_lock, now) == Some(e),
            },
    {
        if amount == 0 {
            return Err(EscrowError::InvalidAmount);
        }
        match decoded {
            Some(bytes) => {
                if bytes.len() != HASHLOCK_LEN {
                    return Err(EscrowError::InvalidHashlock);
                }
            },
            None => {
                return Err(EscrowError::InvalidHashlock);
            },
        }
        if time_lock <= now {
            return Err(EscrowError::InvalidTimelock);
        }
        Ok(Htlc { sender, receiver, amount, hash_lock, time_lock, state: EscrowState::Open })
    }

    /// Claims the contract for a secret whose digest has the base64 text
    /// `encoded`. On failure nothing changes.
    pub fn claim_with_hash(&mut self, encoded: &String, now: u64) -> (r: Result<
        Transfer,
        EscrowError,
    >)
        ensures
            match r {
                Ok(t) => {
                    &&& old(self)@.claim_error(encoded@, now) is None
                    &&& final(self)@ == old(self)@.with_state(EscrowState::Claimed)
                    &&& t@ == old(self)@.claim_transfer()
                },
                Err(e) => {
                    &&& old(self)@.claim_error(encoded@, now) == Some(e)
                    &&& *final(self) == *old(self)
                },
            },
    {
        if !(*encoded == self.hash_lock) {
            return Err(EscrowError::PreimageMismatch);
        }
        match self.state {
            EscrowState::Open => {},
            _ => {
                return Err(EscrowError::AlreadySettled);
            },
        }
        if now >= self.time_lock {
            return Err(EscrowError::Expired);
        }
        self.state = EscrowState::Claimed;
        Ok(
            Transfer {
                token: native_token_account().into_inner(),
                receiver: self.receiver.clone(),
                amount: self.amount,
            },
        )
    }

    /// Returns the amount to the sender once the time lock has been
    /// reached. On failure nothing changes.
    pub fn refund(&mut self, caller: &String, now: u64) -> (r: Result<Transfer, EscrowError>)
        ensures
            match r {
                Ok(t) => {
                    &&& old(self)@.refund_error(caller@, now) is None
                    &&& final(self)@ == old(self)@.with_state(EscrowState::Refunded)
                    &&& t@ == old(self)@.refund_transfer()
                },
                Err(e) => {
                    &&& old(self)@.refund_error(caller@, now) == Some(e)
                    &&& *final(self) == *old(self)
                },
            },
    {
        match self.state {
            EscrowState::Open => {},
            _ => {
                return Err(EscrowError::AlreadySettled);
            },
        }
        if now < self.time_lock {
            return Err(EscrowError::NotYetExpired);
        }
        if !(self.sender == *caller) {
            return Err(EscrowError::Unauthorized);
        }
        self.state = EscrowState::Refunded;
        Ok(
            Transfer {
                token: native_token_account().into_inner(),
                receiver: self.sender.clone(),
                amount: self.amount,
            },
        )
    }
}

/// The ledger of hash-time-locked contracts. Ids are handed out in
/// sequence and a contract is never removed.
pub struct HtlcContract {
    htlcs: Table<String, Htlc>,
    counter: u64,
}

impl HtlcContract {
    /// The contracts by id.
    pub closed spec fn htlcs(&self) -> Map<Seq<char>, HtlcView> {
        self.htlcs.map().map_values(|h: Htlc| h@)
    }

    /// The ids in order of creation.
    pub closed spec fn htlc_ids(&self) -> Seq<Seq<char>> {
        self.htlcs.keys()
    }

    /// Number of contracts created so far.
    pub closed spec fn counter(&self) -> u64 {
        self.counter
    }

    /// The ledger's invariant: the ids are those handed out so far, in
    /// order.
    pub closed spec fn wf(&self) -> bool {
        &&& self.htlcs.wf()
        &&& self.htlcs.keys().len() == self.counter
        &&& forall|i: int|
            0 <= i < self.htlcs.keys().len() ==> #[trigger] self.htlcs.keys()[i] == htlc_id_text(
                i as nat,
            )
    }

    /// The ids of a well-formed ledger are exactly those handed out.
    pub proof fn lemma_ids(&self)
        requires
            self.wf(),
        ensures
            self.htlc_ids().len() == self.counter(),
            forall|i: int|
                0 <= i < self.counter() ==> #[trigger] self.htlc_ids()[i] == htlc_id_text(i as nat),
            forall|id: Seq<char>| self.htlcs().contains_key(id) <==> self.htlc_ids().contains(id),
    {
    }

    /// An empty ledger.
    pub fn new() -> (c: Self)
        ensures
            c.wf(),
            c.counter() == 0,
            c.htlcs() == Map::<Seq<char>, HtlcView>::empty(),
            c.htlc_ids() == Seq::<Seq<char>>::empty(),
    {
        let c = HtlcContract { htlcs: Table::new(), counter: 0 };
        assert(c.htlcs() =~= Map::<Seq<char>, HtlcView>::empty());
        c
    }

    /// Creates a contract whose hash lock text decodes to `decoded`, or
    /// says why its terms are refused. A refused contract changes nothing.
    pub fn create_htlc_with_hashlock(
        &mut self,
        receiver: String,
        hash_lock: String,
        decoded: Option<Vec<u8>>,
        time_lock: u64,
        caller: &String,
        attached: u128,
        now: u64,
    ) -> (r: Result<String, EscrowError>)
        requires
            old(self).wf(),
            old(self).counter() < u64::MAX,
        ensures
            final(self).wf(),
            match r {
                Ok(id) => {
                    &&& htlc_terms_error(
                        attached,
                        bytes_view(decoded),
                        time_lock,
                        now,
                    ) is None
                    &&& id@ == htlc_id_text(old(self).counter() as nat)
                    &&& !old(self).htlcs().contains_key(id@)
                    &&& final(self).counter() == old(self).counter() + 1
                    &&& final(self).htlc_ids() == old(self).htlc_ids().push(id@)
                    &&& final(self).htlcs() == old(self).htlcs().insert(
                        id@,
                        HtlcView {
                            sender: caller@,
                            receiver: receiver@,
                            amount: attached,
                            hash_lock: hash_lock@,
                            time_lock,
                            state: EscrowState::Open,
                        },
                    )
                },
                Err(e) => {
                    &&& htlc_terms_error(
                        attached,
                        bytes_view(decoded),
                        time_lock,
                        now,
                    ) == Some(e)
                    &&& *final(self) == *old(self)
                },
            },
    {
        let htlc = match Htlc::open(
            caller.clone(),
            receiver,
            attached,
            hash_lock,
            decoded,
            time_lock,
            now,
        ) {
            Ok(h) => h,
            Err(e) => {
                return Err(e);
            },
        };
        let id = sequence_id("htlc-", self.counter);
        proof {
            if old(self).htlcs.keys().contains(id@) {
                let i = old(self).htlcs.keys().index_of(id@);
                lemma_id_injective("htlc-"@, i as nat, old(self).counter as nat);
            }
        }
        self.htlcs.insert(id.clone(), htlc);
        self.counter = self.counter + 1;
        assert(self.htlcs() =~= old(self).htlcs().insert(id@, htlc@));
        Ok(id)
    }

    /// Creates a contract that pays `receiver` the deposit `attached` of
    /// `caller` against the secret committed to by `hash_lock`, and
    /// returns its id.
    pub fn create_htlc(
        &mut self,
        receiver: String,
        hash_lock: String,
        time_lock: u64,
        caller: &String,
        attached: u128,
        now: u64,
    ) -> (r: Result<String, EscrowError>)
        requires
            old(self).wf(),
            old(self).counter() < u64::MAX,
        ensures
            final(self).wf(),
            match r {
                Ok(id) => {
                    &&& htlc_terms_error(attached, base64_bytes(hash_lock@), time_lock, now) is None
                    &&& id@ == htlc_id_text(old(self).counter() as nat)
                    &&& !old(self).htlcs().contains_key(id@)
                    &&& final(self).counter() == old(self).counter() + 1
                    &&& final(self).htlc_ids() == old(self).htlc_ids().push(id@)
                    &&& final(self).htlcs() == old(self).htlcs().insert(
                        id@,
                        HtlcView {
                            sender: caller@,
                            receiver: receiver@,
                            amount: attached,
                            hash_lock: hash_lock@,
                            time_lock,
                            state: EscrowState::Open,
                        },
                    )
                },
                Err(e) => {
                    &&& htlc_terms_error(attached, base64_bytes(hash_lock@), time_lock, now) == Some(
                        e,
                    )
                    &&& *final(self) == *old(self)
                },
            },
    {
        let decoded = hash_lock_bytes(&hash_lock);
        self.create_htlc_with_hashlock(receiver, hash_lock, decoded, time_lock, caller, attached, now)
    }

    /// Claims contract `htlc_id` for a secret whose digest has the base64
    /// text `encoded`. On failure the ledger is unchanged.
    pub fn claim_with_hash(&mut self, htlc_id: String, encoded: &String, now: u64) -> (r: Result<
        Transfer,
        EscrowError,
    >)
        requires
            old(self).wf(),
        ensures
            final(self).wf(),
            final(self).counter() == old(self).counter(),
            final(self).htlc_ids() == old(self).htlc_ids(),
            match r {
                Ok(t) => {
                    &&& old(self).htlcs().contains_key(htlc_id@)
                    &&& old(self).htlcs()[htlc_id@].claim_error(encoded@, now) is None
                    &&& t@ == old(self).htlcs()[htlc_id@].claim_transfer()
                    &&& final(self).htlcs() == old(self).htlcs().insert(
                        htlc_id@,
                        old(self).htlcs()[htlc_id@].with_state(EscrowState::Claimed),
                    )
                },
                Err(e) => {
                    &&& *final(self) == *old(self)
                    &&& if old(self).htlcs().contains_key(htlc_id@) {
                        old(self).htlcs()[htlc_id@].claim_error(encoded@, now) == Some(e)
                    } else {
                        e == EscrowError::NotFound
                    }
                },
            },
    {
        let mut htlc = match self.htlcs.get(&htlc_id) {
            Some(h) => h.clone(),
            None => {
                return Err(EscrowError::NotFound);
            },
        };
        match htlc.claim_with_hash(encoded, now) {
            Ok(t) => {
                self.htlcs.insert(htlc_id, htlc);
                assert(self.htlcs() =~= old(self).htlcs().insert(htlc_id@, htlc@));
                Ok(t)
            },
            Err(e) => Err(e),
        }
    }

    /// Claims contract `htlc_id` by revealing `preimage`.
    pub fn claim(&mut self, htlc_id: String, preimage: String, now: u64) -> (r: Result<
        Transfer,
        EscrowError,
    >)
        requires
            old(self).wf(),
        ensures
            final(self).wf(),
            final(self).counter() == old(self).counter(),
            final(self).htlc_ids() == old(self).htlc_ids(),
            match r {
                Ok(t) => {
                    let encoded = base64_text(sha256_digest(encode_utf8(preimage@)));
                    &&& old(self).htlcs().contains_key(htlc_id@)
                    &&& old(self).htlcs()[htlc_id@].claim_error(encoded, now) is None
                    &&& t@ == old(self).htlcs()[htlc_id@].claim_transfer()
                    &&& final(self).htlcs() == old(self).htlcs().insert(
                        htlc_id@,
                        old(self).htlcs()[htlc_id@].with_state(EscrowState::Claimed),
                    )
                },
                Err(e) => {
                    &&& *final(self) == *old(self)
                    &&& if old(self).htlcs().contains_key(htlc_id@) {
                        old(self).htlcs()[htlc_id@].claim_error(
                            base64_text(sha256_digest(encode_utf8(preimage@))),
                            now,
                        ) == Some(e)
                    } else {
                        e == EscrowError::NotFound
                    }
                },
            },
    {
        let encoded = hash_lock_of(&preimage);
        self.claim_with_hash(htlc_id, &encoded, now)
    }

    /// Refunds contract `htlc_id` to its sender. On failure the ledger is
    /// unchanged.
    pub fn refund(&mut self, htlc_id: String, caller: &String, now: u64) -> (r: Result<
        Transfer,
        EscrowError,
    >)
        requires
            old(self).wf(),
        ensures
            final(self).wf(),
            final(self).counter() == old(self).counter(),
            final(self).htlc_ids() == old(self).htlc_ids(),
            match r {
                Ok(t) => {
                    &&& old(self).htlcs().contains_key(htlc_id@)
                    &&& old(self).htlcs()[htlc_id@].refund_error(caller@, now) is None
                    &&& t@ == old(self).htlcs()[htlc_id@].refund_transfer()
                    &&& final(self).htlcs() == old(self).htlcs().insert(
                        htlc_id@,
                        old(self).htlcs()[htlc_id@].with_state(EscrowState::Refunded),
                    )
                },
                Err(e) => {
                    &&& *final(self) == *old(self)
                    &&& if old(self).htlcs().contains_key(htlc_id@) {
                        old(self).htlcs()[htlc_id@].refund_error(caller@, now) == Some(e)
                    } else {
                        e == EscrowError::NotFound
                    }
                },
            },
    {
        let mut htlc = match self.htlcs.get(&htlc_id) {
            Some(h) => h.clone(),
            None => {
                return Err(EscrowError::NotFound);
            },
        };
        match htlc.refund(caller, now) {
            Ok(t) => {
                self.htlcs.insert(htlc_id, htlc);
                assert(self.htlcs() =~= old(self).htlcs().insert(htlc_id@, htlc@));
                Ok(t)
            },
            Err(e) => Err(e),
        }
    }

    /// The sender, receiver, amount, hash lock and time lock of contract
    /// `htlc_id`, and whether it has been claimed or refunded.
    pub fn get_details(&self, htlc_id: String) -> (r: Option<
        (String, String, u128, String, u64, bool),
    >)
        requires
            self.wf(),
        ensures
            match r {
                Some(d) => {
                    &&& self.htlcs().contains_key(htlc_id@)
                    &&& d.0@ == self.htlcs()[htlc_id@].sender
                    &&& d.1@ == self.htlcs()[htlc_id@].receiver
                    &&& d.2 == self.htlcs()[htlc_id@].amount
                    &&& d.3@ == self.htlcs()[htlc_id@].hash_lock
                    &&& d.4 == self.htlcs()[htlc_id@].time_lock
                    &&& d.5 == (self.htlcs()[htlc_id@].state != EscrowState::Open)
                },
                None => !self.htlcs().contains_key(htlc_id@),
            },
    {
        match self.htlcs.get(&htlc_id) {
            Some(h) => {
                let settled = match h.state {
                    EscrowState::Open => false,
                    _ => true,
                };
                Some(
                    (
                        h.sender.clone(),
                        h.receiver.clone(),
                        h.amount,
                        h.hash_lock.clone(),
                        h.time_lock,
                        settled,
                    ),
                )
            },
            None => None,
        }
    }

    /// The ids of all contracts, in order of creation.
    pub fn list_htlcs(&self) -> (r: Vec<String>)
        requires
            self.wf(),
        ensures
            r@.map_values(|id: String| id@) == self.htlc_ids(),
    {
        let mut ids: Vec<String> = Vec::new();
        let n = self.htlcs.len();
        let mut i: usize = 0;
        while i < n
            invariant
                self.wf(),
                i <= n,
                n == self.htlcs.keys().len(),
                ids@.map_values(|id: String| id@) == self.htlcs.keys().take(i as int),
            decreases n - i,
        {
            let id = self.htlcs.key_at(i);
            let ghost before = ids@.map_values(|id: String| id@);
            ids.push(id.clone());
            assert(ids@.map_values(|id: String| id@) =~= before.push(id@));
            assert(self.htlcs.keys().take(i + 1) =~= self.htlcs.keys().take(i as int).push(id@));
            i += 1;
        }
        assert(self.htlcs.keys().take(n as int) =~= self.htlcs.keys());
        ids
    }
}

/// Once a contract has been claimed or refunded, every refund fails with
/// `AlreadySettled`, every claim fails, and a claim with the right secret
/// fails with `AlreadySettled`.
pub proof fn lemma_settled_rejects(h: HtlcView, caller: Seq<char>, encoded: Seq<char>, now: u64)
    requires
        h.state != EscrowState::Open,
    ensures
        h.refund_error(caller, now) == Some(EscrowError::AlreadySettled),
        h.claim_error(encoded, now) is Some,
        encoded == h.hash_lock ==> h.claim_error(encoded, now) == Some(EscrowError::AlreadySettled),
{
}

/// At any time an open contract can either be claimed or be refunded,
/// never both: a claim needs a time before the time lock, a refund a time
/// from the time lock on. Whichever succeeds settles the contract.
pub proof fn lemma_claim_or_refund(h: HtlcView, caller: Seq<char>, encoded: Seq<char>, now: u64)
    requires
        h.state == EscrowState::Open,
    ensures
        !(h.claim_error(encoded, now) is None && h.refund_error(caller, now) is None),
        h.claim_error(h.hash_lock, now) is None <==> now < h.time_lock,
        h.refund_error(h.sender, now) is None <==> now >= h.time_lock,
        h.with_state(EscrowState::Claimed).state != EscrowState::Open,
        h.with_state(EscrowState::Refunded).state != EscrowState::Open,
{
}

} // verus!
