//! Action-confirmation core of a cross-chain bridge.
//!
//! A fixed registry of validators jointly attests to events observed on a
//! foreign chain. Each validator independently confirms an externally chosen
//! action identifier together with the effect it asks for; the quorum engine
//! merges those confirmations and decides, exactly once per action, when the
//! local effect may fire. The engine owns three pieces of state: the validator
//! registry, the ledger of pending actions, and a monotonic counter that
//! numbers outbound actions originated by this chain.
//!
//! Everything here is pure state-transition logic. Authentication of callers,
//! the currency and asset ledgers that execute the effects, and event
//! delivery to off-chain validators are the embedding host's business: entry
//! points take already-authenticated identities and plain values, and return
//! the effect or notification the host must carry out.

use vstd::prelude::*;

pub mod actions;
pub mod ledger;
pub mod weights;

use crate::actions::{ActionInfo, ActionRecordV, ActionV, LocalAction};
use crate::ledger::ActionLedger;

verus! {

/// An already-authenticated account identity on the local chain.
pub type AccountId = u64;

/// Amount of the local currency.
pub type Balance = u128;

/// Amount of the wrapped foreign currency.
pub type EgldBalance = u128;

/// Identifier of a unique (non-fungible) asset.
pub type NftId = u128;

/// Identifier of a fungible token managed by the wrapped-token contract.
pub type TokenId = u128;

/// Identifier assigned to outbound actions originated by this chain.
pub type ActionId = u128;

/// Rejection of a single call. No error leaves the state partially changed:
/// a call either fully applies or fully rejects.
#[derive(Debug, Clone, Copy, PartialEq, Eq, Structural)]
pub enum Error {
    /// A zero or otherwise semantically invalid amount on an outbound request.
    InvalidValue,
    /// Insufficient balance for an outbound withdrawal.
    OutOfFunds,
    /// Malformed destination address.
    InvalidDestination,
    /// The caller is not a registered validator.
    Unauthorized,
    /// The same validator confirmed the same external action id twice.
    DuplicateConfirmation,
}

/// Notification the host must emit for off-chain validators when this chain
/// originates an outbound action.
#[derive(Debug, Clone, PartialEq)]
pub enum Event {
    /// Local currency was frozen for transfer to a foreign chain:
    /// action id, target address on the foreign chain, amount.
    TransferFrozen(ActionId, Vec<u8>, Balance),
    /// A unique asset was locked for transfer to a foreign chain:
    /// action id, target address, asset id.
    TransferUniqueFrozen(ActionId, Vec<u8>, NftId),
    /// A smart contract on the foreign chain is to be called:
    /// action id, contract address, endpoint identifier, raw arguments.
    ScCall(ActionId, Vec<u8>, Vec<u8>, Vec<Vec<u8>>),
    /// Wrapped foreign currency was burned and is to be released abroad:
    /// action id, target address, amount.
    UnfreezeWrapped(ActionId, Vec<u8>, EgldBalance),
}

/// Quorum threshold for a registry of `n` validators: a strict supermajority,
/// `floor(2n/3) + 1`.
pub open spec fn quorum(n: u64) -> int {
    2 * (n as int) / 3 + 1
}

/// Computes the quorum threshold for a registry of `n` validators.
pub fn quorum_threshold(n: u64) -> (q: u64)
    ensures
        q as int == quorum(n),
{
    let wide: u128 = 2 * (n as u128) / 3 + 1;
    wide as u64
}

/// Whether `x` occurs in `v`.
fn contains_account(v: &Vec<AccountId>, x: AccountId) -> (r: bool)
    ensures
        r == v@.contains(x),
{
    let mut i: usize = 0;
    while i < v.len()
        invariant
            i <= v@.len(),
            forall|j: int| 0 <= j < i ==> v@[j] != x,
        decreases v@.len() - i,
    {
        if v[i] == x {
            return true;
        }
        i += 1;
    }
    false
}

/// The bridge module's state: the validator registry, the outbound-action
/// counter, and the pending-action ledger. Built once from a `GenesisConfig`;
/// afterwards every mutation runs through a single entry point's commit path.
pub struct Pallet {
    /// Registered validator identities, duplicate-free.
    validators: Vec<AccountId>,
    /// Number of registered validators; fixed at initialization.
    validator_cnt: u64,
    /// Id the next outbound action will be assigned.
    last_action_id: ActionId,
    /// Pending confirmations, keyed by external action identifier.
    actions: ActionLedger,
}

impl Pallet {
    /// The set of registered validators.
    pub closed spec fn validator_set(self) -> Set<AccountId> {
        self.validators@.to_set()
    }

    /// The size of the validator registry.
    pub closed spec fn validator_count(self) -> u64 {
        self.validator_cnt
    }

    /// The id the next outbound action will be assigned.
    pub closed spec fn next_action_id(self) -> ActionId {
        self.last_action_id
    }

    /// The pending-action ledger as a mapping from external identifiers to
    /// records.
    pub closed spec fn ledger(self) -> Map<Seq<u8>, ActionRecordV> {
        self.actions@
    }

    /// Internal consistency: the registry list is duplicate-free and sized by
    /// `validator_cnt`, the ledger is well-formed, and every stored record
    /// was confirmed only by registered validators.
    pub closed spec fn wf(self) -> bool {
        &&& self.validators@.no_duplicates()
        &&& self.validator_cnt == self.validators@.len()
        &&& self.actions.wf()
        &&& forall|k: Seq<u8>| #[trigger] self.actions@.contains_key(k) ==> {
            &&& self.actions@[k].validators.finite()
            &&& self.actions@[k].validators.subset_of(self.validators@.to_set())
        }
    }

    /// Whether `acc` is a registered validator.
    pub fn is_validator(&self, acc: AccountId) -> (r: bool)
        ensures
            r == self.validator_set().contains(acc),
    {
        contains_account(&self.validators, acc)
    }

    /// The size of the validator registry.
    pub fn count(&self) -> (r: u64)
        ensures
            r == self.validator_count(),
    {
        self.validator_cnt
    }

    /// Current value of the outbound counter: the id the next outbound action
    /// will be assigned. Starts at 0 and only ever grows.
    pub fn last_action_id(&self) -> (r: ActionId)
        ensures
            r == self.next_action_id(),
    {
        self.last_action_id
    }

    /// Rejects callers that are not registered validators.
    pub fn ensure_validator(&self, acc: AccountId) -> (r: Result<(), Error>)
        ensures
            r is Ok <==> self.validator_set().contains(acc),
            r is Err ==> r == Err::<(), Error>(Error::Unauthorized),
    {
        if !contains_account(&self.validators, acc) {
            return Err(Error::Unauthorized);
        }
        Ok(())
    }

    /// How many validators have confirmed the pending action `action_id`,
    /// or `None` if no record is pending under that identifier.
    pub fn confirmation_count(&self, action_id: &Vec<u8>) -> (r: Option<u64>)
        requires
            self.wf(),
        ensures
            match r {
                Some(n) => self.ledger().contains_key(action_id@) && n == self.ledger()[action_id@].validators.len(),
                None => !self.ledger().contains_key(action_id@),
            },
    {
        match self.actions.get(action_id) {
            Some(info) => {
                proof {
                    info.lemma_wf_unfold();
                    info.lemma_view_unfold();
                    info.validators@.unique_seq_to_set();
                }
                Some(info.validators.len() as u64)
            },
            None => None,
        }
    }

    /// Returns the current counter value and advances the counter: the ids of
    /// outbound actions are handed out strictly in order, starting at 0.
    pub fn action_inc(&mut self) -> (r: ActionId)
        requires
            old(self).wf(),
            old(self).next_action_id() < u128::MAX,
        ensures
            final(self).wf(),
            r == old(self).next_action_id(),
            final(self).next_action_id() == old(self).next_action_id() + 1,
            final(self).validator_set() == old(self).validator_set(),
            final(self).validator_count() == old(self).validator_count(),
            final(self).ledger() == old(self).ledger(),
    {
        let action: ActionId = self.last_action_id;
        self.last_action_id = action + 1;
        action
    }
}

/// The validators recorded as having confirmed `id` in state `st`; empty if
/// no record is pending under `id`.
pub open spec fn prior_confirmations(st: Pallet, id: Seq<u8>) -> Set<AccountId> {
    if st.ledger().contains_key(id) {
        st.ledger()[id].validators
    } else {
        Set::empty()
    }
}

/// The payload a confirmation of `id` leaves recorded: the stored payload if
/// a record is already pending, else the submitted one. The first confirmer's
/// payload wins; later submissions' payloads are not cross-checked against it.
pub open spec fn recorded_action(st: Pallet, id: Seq<u8>, submitted: ActionV) -> ActionV {
    if st.ledger().contains_key(id) {
        st.ledger()[id].action
    } else {
        submitted
    }
}

/// Complete description of one confirmation call: how `post` and the result
/// `r` arise from `pre`, the calling `validator`, the external `id` and the
/// `submitted` payload.
///
/// Rejections leave the ledger untouched. A successful call inserts the
/// validator into the record's confirmation set (creating the record if `id`
/// was unseen), answers `Ok(true)` exactly when the set's new size lands on
/// the quorum threshold, and prunes the record when the new size reaches the
/// full registry size.
pub open spec fn confirm_ensures(
    pre: Pallet,
    post: Pallet,
    validator: AccountId,
    id: Seq<u8>,
    submitted: ActionV,
    r: Result<bool, Error>,
) -> bool {
    let authorized = pre.validator_set().contains(validator);
    let duplicate = prior_confirmations(pre, id).contains(validator);
    let confs = prior_confirmations(pre, id).insert(validator);
    &&& post.validator_set() == pre.validator_set()
    &&& post.validator_count() == pre.validator_count()
    &&& post.next_action_id() == pre.next_action_id()
    &&& (r == Err::<bool, Error>(Error::Unauthorized) <==> !authorized)
    &&& (r == Err::<bool, Error>(Error::DuplicateConfirmation) <==> authorized && duplicate)
    &&& (r is Err ==> r == Err::<bool, Error>(Error::Unauthorized) || r == Err::<bool, Error>(
        Error::DuplicateConfirmation,
    ))
    &&& (r is Err ==> post.ledger() == pre.ledger())
    &&& (r is Ok ==> {
        &&& r == Ok::<bool, Error>(confs.len() == quorum(pre.validator_count()))
        &&& (confs.len() == pre.validator_count() ==> post.ledger() == pre.ledger().remove(id))
        &&& (confs.len() != pre.validator_count() ==> post.ledger() == pre.ledger().insert(
            id,
            (ActionRecordV { action: recorded_action(pre, id, submitted), validators: confs }),
        ))
    })
}

impl Pallet {
    /// Merges one validator's confirmation of the external action `action_id`
    /// into the ledger and decides whether the action is ready to execute.
    ///
    /// Exactly the call whose insertion makes the confirmation set's size
    /// equal the quorum threshold answers `Ok(true)`; every other successful
    /// call answers `Ok(false)`, even after quorum has already been reached.
    /// Once every registered validator has confirmed, the record is pruned on
    /// that same call.
    pub fn verify_action(
        &mut self,
        validator: AccountId,
        action_id: Vec<u8>,
        action: LocalAction,
    ) -> (r: Result<bool, Error>)
        requires
            old(self).wf(),
        ensures
            final(self).wf(),
            confirm_ensures(*old(self), *final(self), validator, action_id@, action@, r),
    {
        if !contains_account(&self.validators, validator) {
            return Err(Error::Unauthorized);
        }
        let ghost led0 = self.actions@;
        let ghost vset = self.validators@.to_set();
        let mut info = match self.actions.remove(&action_id) {
            Some(rec) => rec,
            None => ActionInfo::new(action),
        };
        proof {
            info.lemma_wf_unfold();
            info.lemma_view_unfold();
        }
        if contains_account(&info.validators, validator) {
            proof {
                assert(info.validators@.to_set().contains(validator));
                assert(led0.contains_key(action_id@));
            }
            self.actions.upsert(action_id, info);
            proof {
                assert(self.actions@ =~= led0);
            }
            return Err(Error::DuplicateConfirmation);
        }
        let ghost seq0 = info.validators@;
        info.validators.push(validator);
        proof {
            assert forall|a: int, b: int|
                0 <= a < b < info.validators@.len() implies info.validators@[a]
                != info.validators@[b] by {
                if b < seq0.len() {
                    assert(info.validators@[a] == seq0[a] && info.validators@[b] == seq0[b]);
                } else {
                    assert(info.validators@[a] == seq0[a] && info.validators@[b] == validator);
                    if seq0[a] == validator {
                        assert(seq0.contains(validator));
                    }
                }
            }
            info.lemma_wf_unfold();
            info.lemma_view_unfold();
            seq0.lemma_push_to_set_commute(validator);
            info.validators@.unique_seq_to_set();
        }
        let confirmed: usize = info.validators.len();
        let q: u64 = quorum_threshold(self.validator_cnt);
        let ready: bool = confirmed as u128 == q as u128;
        let ghost confs = seq0.to_set().insert(validator);
        if confirmed as u128 == self.validator_cnt as u128 {
            proof {
                if !led0.contains_key(action_id@) {
                    assert(led0.remove(action_id@) =~= led0);
                }
                assert forall|k: Seq<u8>| #[trigger] self.actions@.contains_key(k) implies {
                    &&& self.actions@[k].validators.finite()
                    &&& self.actions@[k].validators.subset_of(vset)
                } by {
                    assert(led0.contains_key(k));
                }
            }
            Ok(ready)
        } else {
            self.actions.upsert(action_id, info);
            proof {
                assert(self.actions@ =~= led0.insert(action_id@, info@));
                assert forall|k: Seq<u8>| #[trigger] self.actions@.contains_key(k) implies {
                    &&& self.actions@[k].validators.finite()
                    &&& self.actions@[k].validators.subset_of(vset)
                } by {
                    if k == action_id@ {
                        assert(self.actions@[k].validators == confs);
                        assert forall|x: AccountId| confs.contains(x) implies vset.contains(
                            x,
                        ) by {
                            if x != validator {
                                assert(seq0.to_set().contains(x));
                            }
                        }
                    } else {
                        assert(led0.contains_key(k));
                    }
                }
            }
            Ok(ready)
        }
    }

    /// Originates an outbound transfer of local currency to a foreign chain.
    ///
    /// The caller's spendable balance is passed in by the host, which must
    /// already have frozen (withdrawn) `value` from the caller before acting
    /// on the returned notification. No quorum is needed: the funds move
    /// synchronously, so a single authenticated caller suffices.
    pub fn send(&mut self, dest: Vec<u8>, value: Balance, free_balance: Balance) -> (r: Result<
        Event,
        Error,
    >)
        requires
            old(self).wf(),
            old(self).next_action_id() < u128::MAX,
        ensures
            final(self).wf(),
            final(self).validator_set() == old(self).validator_set(),
            final(self).validator_count() == old(self).validator_count(),
            final(self).ledger() == old(self).ledger(),
            value == 0 ==> r == Err::<Event, Error>(Error::InvalidValue) && final(self).next_action_id() == old(self).next_action_id(),
            value != 0 && value > free_balance ==> r == Err::<Event, Error>(Error::OutOfFunds)
                && final(self).next_action_id() == old(self).next_action_id(),
            value != 0 && value <= free_balance ==> r == Ok::<Event, Error>(
                Event::TransferFrozen(old(self).next_action_id(), dest, value),
            ) && final(self).next_action_id() == old(self).next_action_id() + 1,
    {
        if value == 0 {
            return Err(Error::InvalidValue);
        }
        if value > free_balance {
            return Err(Error::OutOfFunds);
        }
        let action: ActionId = self.action_inc();
        Ok(Event::TransferFrozen(action, dest, value))
    }

    /// Originates an outbound transfer of a unique asset to a foreign chain.
    ///
    /// `owner` is the asset's current owner as read from the asset ledger by
    /// the host; only the owner may send it. On success the host must lock
    /// the asset before acting on the returned notification.
    pub fn send_nft(&mut self, who: AccountId, dest: Vec<u8>, nft_id: NftId, owner: AccountId) -> (r:
        Result<Event, Error>)
        requires
            old(self).wf(),
            old(self).next_action_id() < u128::MAX,
        ensures
            final(self).wf(),
            final(self).validator_set() == old(self).validator_set(),
            final(self).validator_count() == old(self).validator_count(),
            final(self).ledger() == old(self).ledger(),
            owner != who ==> r == Err::<Event, Error>(Error::Unauthorized) && final(self).next_action_id() == old(self).next_action_id(),
            owner == who ==> r == Ok::<Event, Error>(
                Event::TransferUniqueFrozen(old(self).next_action_id(), dest, nft_id),
            ) && final(self).next_action_id() == old(self).next_action_id() + 1,
    {
        if owner != who {
            return Err(Error::Unauthorized);
        }
        let action: ActionId = self.action_inc();
        Ok(Event::TransferUniqueFrozen(action, dest, nft_id))
    }

    /// Originates an outbound release of wrapped foreign currency: the host
    /// burns `value` of the caller's wrapped tokens (their balance is passed
    /// in) and the foreign chain later releases the original funds.
    pub fn withdraw_wrapped(&mut self, dest: Vec<u8>, value: EgldBalance, free_balance: EgldBalance) -> (r:
        Result<Event, Error>)
        requires
            old(self).wf(),
            old(self).next_action_id() < u128::MAX,
        ensures
            final(self).wf(),
            final(self).validator_set() == old(self).validator_set(),
            final(self).validator_count() == old(self).validator_count(),
            final(self).ledger() == old(self).ledger(),
            value == 0 ==> r == Err::<Event, Error>(Error::InvalidValue) && final(self).next_action_id() == old(self).next_action_id(),
            value != 0 && value > free_balance ==> r == Err::<Event, Error>(Error::OutOfFunds)
                && final(self).next_action_id() == old(self).next_action_id(),
            value != 0 && value <= free_balance ==> r == Ok::<Event, Error>(
                Event::UnfreezeWrapped(old(self).next_action_id(), dest, value),
            ) && final(self).next_action_id() == old(self).next_action_id() + 1,
    {
        if value == 0 {
            return Err(Error::InvalidValue);
        }
        if value > free_balance {
            return Err(Error::OutOfFunds);
        }
        let action: ActionId = self.action_inc();
        Ok(Event::UnfreezeWrapped(action, dest, value))
    }

    /// Originates an outbound smart-contract call on a foreign chain. Any
    /// authenticated caller may request one; there is nothing to validate
    /// locally.
    pub fn send_sc_call(&mut self, dest: Vec<u8>, endpoint: Vec<u8>, args: Vec<Vec<u8>>) -> (r:
        Event)
        requires
            old(self).wf(),
            old(self).next_action_id() < u128::MAX,
        ensures
            final(self).wf(),
            final(self).validator_set() == old(self).validator_set(),
            final(self).validator_count() == old(self).validator_count(),
            final(self).ledger() == old(self).ledger(),
            r == Event::ScCall(old(self).next_action_id(), dest, endpoint, args),
            final(self).next_action_id() == old(self).next_action_id() + 1,
    {
        let action: ActionId = self.action_inc();
        Event::ScCall(action, dest, endpoint, args)
    }

    /// Confirms that the foreign chain froze currency for `to`: one
    /// validator's attestation of the external action `action_id`. On
    /// `Ok(true)` the host must credit `value` to `to`, exactly once.
    pub fn unfreeze_verify(
        &mut self,
        validator: AccountId,
        action_id: Vec<u8>,
        to: AccountId,
        value: Balance,
    ) -> (r: Result<bool, Error>)
        requires
            old(self).wf(),
        ensures
            final(self).wf(),
            confirm_ensures(
                *old(self),
                *final(self),
                validator,
                action_id@,
                (ActionV::Unfreeze { to, value }),
                r,
            ),
    {
        self.verify_action(validator, action_id, LocalAction::Unfreeze { to, value })
    }

    /// Confirms that the foreign chain released a unique asset for `to`. On
    /// `Ok(true)` the host must transfer the locked asset `nft_id` to `to`,
    /// exactly once.
    pub fn unfreeze_nft_verify(
        &mut self,
        validator: AccountId,
        action_id: Vec<u8>,
        to: AccountId,
        nft_id: NftId,
    ) -> (r: Result<bool, Error>)
        requires
            old(self).wf(),
        ensures
            final(self).wf(),
            confirm_ensures(
                *old(self),
                *final(self),
                validator,
                action_id@,
                (ActionV::UnfreezeAsset { to, asset_id: nft_id }),
                r,
            ),
    {
        self.verify_action(validator, action_id, LocalAction::UnfreezeAsset { to, asset_id: nft_id })
    }

    /// Confirms that the foreign chain requested a local contract call. On
    /// `Ok(true)` the host must invoke `contract` with `raw_call_data`,
    /// exactly once.
    pub fn sc_call_verify(
        &mut self,
        validator: AccountId,
        action_id: Vec<u8>,
        contract: AccountId,
        raw_call_data: Vec<u8>,
    ) -> (r: Result<bool, Error>)
        requires
            old(self).wf(),
        ensures
            final(self).wf(),
            confirm_ensures(
                *old(self),
                *final(self),
                validator,
                action_id@,
                (ActionV::RpcCall { contract, call_data: raw_call_data@ }),
                r,
            ),
    {
        self.verify_action(
            validator,
            action_id,
            LocalAction::RpcCall { contract, call_data: raw_call_data },
        )
    }

    /// Confirms that the foreign chain locked currency to be minted here as
    /// wrapped tokens for `to`. On `Ok(true)` the host must mint `value`
    /// wrapped tokens to `to`, exactly once.
    pub fn transfer_wrapped_verify(
        &mut self,
        validator: AccountId,
        action_id: Vec<u8>,
        to: AccountId,
        value: EgldBalance,
    ) -> (r: Result<bool, Error>)
        requires
            old(self).wf(),
        ensures
            final(self).wf(),
            confirm_ensures(
                *old(self),
                *final(self),
                validator,
                action_id@,
                (ActionV::TransferWrapped { to, value }),
                r,
            ),
    {
        self.verify_action(validator, action_id, LocalAction::TransferWrapped { to, value })
    }
}

/// Confirming the same external id twice from the same validator is rejected
/// with `DuplicateConfirmation`, and the rejection leaves the ledger — in
/// particular the record's confirmation set — unchanged. This holds as long
/// as the record from the first confirmation is still pending: a record
/// pruned by full-registry confirmation forgets its history, and a later
/// confirmation starts a fresh record.
pub proof fn lemma_duplicate_confirmation_rejected(
    pre: Pallet,
    mid: Pallet,
    post: Pallet,
    validator: AccountId,
    id: Seq<u8>,
    a1: ActionV,
    a2: ActionV,
    r1: Result<bool, Error>,
    r2: Result<bool, Error>,
)
    requires
        confirm_ensures(pre, mid, validator, id, a1, r1),
        confirm_ensures(mid, post, validator, id, a2, r2),
        r1 is Ok,
        mid.ledger().contains_key(id),
    ensures
        r2 == Err::<bool, Error>(Error::DuplicateConfirmation),
        post.ledger() == mid.ledger(),
{
}

/// An unauthorized identity's confirmation is rejected and mutates nothing:
/// the ledger, every record's confirmation set, and the registry all stay as
/// they were.
pub proof fn lemma_unauthorized_no_effect(
    pre: Pallet,
    post: Pallet,
    validator: AccountId,
    id: Seq<u8>,
    a: ActionV,
    r: Result<bool, Error>,
)
    requires
        confirm_ensures(pre, post, validator, id, a, r),
        !pre.validator_set().contains(validator),
    ensures
        r == Err::<bool, Error>(Error::Unauthorized),
        post.ledger() == pre.ledger(),
        post.validator_set() == pre.validator_set(),
        forall|k: Seq<u8>| prior_confirmations(post, k) == prior_confirmations(pre, k),
{
}

/// Once the confirmation set reaches the full registry size, the record is
/// pruned from the ledger on that same call, whether or not the quorum
/// threshold was crossed earlier.
pub proof fn lemma_full_confirmation_prunes(
    pre: Pallet,
    post: Pallet,
    validator: AccountId,
    id: Seq<u8>,
    a: ActionV,
    r: Result<bool, Error>,
)
    requires
        confirm_ensures(pre, post, validator, id, a, r),
        r is Ok,
        prior_confirmations(pre, id).insert(validator).len() == pre.validator_count(),
    ensures
        !post.ledger().contains_key(id),
{
}

/// A run of confirmation calls against one external id: `states` are the
/// successive engine states, and call `k` is made by `validators[k]` with
/// payload `payloads[k]` and answers `results[k]`.
pub open spec fn trace_step(
    states: Seq<Pallet>,
    validators: Seq<AccountId>,
    payloads: Seq<ActionV>,
    results: Seq<Result<bool, Error>>,
    id: Seq<u8>,
    k: int,
) -> bool {
    confirm_ensures(states[k], states[k + 1], validators[k], id, payloads[k], results[k])
}

pub open spec fn confirm_trace(
    states: Seq<Pallet>,
    validators: Seq<AccountId>,
    payloads: Seq<ActionV>,
    results: Seq<Result<bool, Error>>,
    id: Seq<u8>,
) -> bool {
    &&& states.len() == results.len() + 1
    &&& validators.len() == results.len()
    &&& payloads.len() == results.len()
    &&& forall|k: int|
        0 <= k < results.len() ==> #[trigger] trace_step(
            states,
            validators,
            payloads,
            results,
            id,
            k,
        )
    &&& forall|k: int| 0 <= k < states.len() ==> (#[trigger] states[k]).wf()
}

/// The record under `id` stays pending through the whole run: no call prunes
/// it.
pub open spec fn survives_step(
    states: Seq<Pallet>,
    results: Seq<Result<bool, Error>>,
    id: Seq<u8>,
    k: int,
) -> bool {
    states[k + 1].ledger().contains_key(id)
}

pub open spec fn record_survives(
    states: Seq<Pallet>,
    results: Seq<Result<bool, Error>>,
    id: Seq<u8>,
) -> bool {
    forall|k: int|
        0 <= k < results.len() ==> #[trigger] survives_step(states, results, id, k)
}

proof fn lemma_trace_count_constant(
    states: Seq<Pallet>,
    validators: Seq<AccountId>,
    payloads: Seq<ActionV>,
    results: Seq<Result<bool, Error>>,
    id: Seq<u8>,
    k: int,
)
    requires
        confirm_trace(states, validators, payloads, results, id),
        0 <= k < states.len(),
    ensures
        states[k].validator_count() == states[0].validator_count(),
    decreases k,
{
    if k > 0 {
        lemma_trace_count_constant(states, validators, payloads, results, id, k - 1);
        assert(trace_step(states, validators, payloads, results, id, k - 1));
    }
}

/// How one surviving call moves the record's confirmation count: a success
/// grows it by exactly one and answers `Ok(true)` exactly when the new count
/// lands on the quorum threshold; a rejection leaves it alone.
proof fn lemma_step_size(
    pre: Pallet,
    post: Pallet,
    validator: AccountId,
    id: Seq<u8>,
    a: ActionV,
    r: Result<bool, Error>,
)
    requires
        confirm_ensures(pre, post, validator, id, a, r),
        pre.wf(),
        post.ledger().contains_key(id),
    ensures
        r is Ok ==> prior_confirmations(post, id).len() == prior_confirmations(pre, id).len() + 1,
        r is Err ==> prior_confirmations(post, id) == prior_confirmations(pre, id),
        r == Ok::<bool, Error>(true) <==> (r is Ok && prior_confirmations(post, id).len()
            == quorum(pre.validator_count())),
{
    assert(prior_confirmations(pre, id).finite());
    if r is Ok {
        let confs = prior_confirmations(pre, id).insert(validator);
        assert(confs.len() != pre.validator_count());
        assert(prior_confirmations(post, id) == confs);
        assert(!prior_confirmations(pre, id).contains(validator));
    }
}

proof fn lemma_trace_size_monotone(
    states: Seq<Pallet>,
    validators: Seq<AccountId>,
    payloads: Seq<ActionV>,
    results: Seq<Result<bool, Error>>,
    id: Seq<u8>,
    a: int,
    b: int,
)
    requires
        confirm_trace(states, validators, payloads, results, id),
        record_survives(states, results, id),
        0 <= a <= b < states.len(),
    ensures
        prior_confirmations(states[a], id).len() <= prior_confirmations(states[b], id).len(),
    decreases b - a,
{
    if a < b {
        lemma_trace_size_monotone(states, validators, payloads, results, id, a, b - 1);
        assert(trace_step(states, validators, payloads, results, id, b - 1));
        assert(survives_step(states, results, id, b - 1));
        assert(states[b - 1].wf());
        lemma_step_size(
            states[b - 1],
            states[b],
            validators[b - 1],
            id,
            payloads[b - 1],
            results[b - 1],
        );
    }
}

/// The Ready signal fires on at most one call per external action id. In any
/// run of confirmation calls whose record stays pending, each success grows
/// the confirmation count by one and `Ok(true)` is answered exactly when the
/// count lands on the quorum threshold — so no later call of the run can
/// answer `Ok(true)` again, even though the count is still below the full
/// registry size.
pub proof fn lemma_ready_fires_once(
    states: Seq<Pallet>,
    validators: Seq<AccountId>,
    payloads: Seq<ActionV>,
    results: Seq<Result<bool, Error>>,
    id: Seq<u8>,
    i: int,
    j: int,
)
    requires
        confirm_trace(states, validators, payloads, results, id),
        record_survives(states, results, id),
        0 <= i < j < results.len(),
        results[i] == Ok::<bool, Error>(true),
    ensures
        results[j] != Ok::<bool, Error>(true),
{
    lemma_trace_count_constant(states, validators, payloads, results, id, i);
    lemma_trace_count_constant(states, validators, payloads, results, id, j);
    assert(trace_step(states, validators, payloads, results, id, i));
    assert(survives_step(states, results, id, i));
    assert(states[i].wf());
    lemma_step_size(states[i], states[i + 1], validators[i], id, payloads[i], results[i]);
    lemma_trace_size_monotone(states, validators, payloads, results, id, i + 1, j);
    if results[j] == Ok::<bool, Error>(true) {
        assert(trace_step(states, validators, payloads, results, id, j));
        assert(survives_step(states, results, id, j));
        assert(states[j].wf());
        lemma_step_size(states[j], states[j + 1], validators[j], id, payloads[j], results[j]);
        assert(false);
    }
}

/// One outbound allocation, as every successful outbound entry point performs
/// it: the action is assigned the counter's current value and the counter
/// advances by one.
pub open spec fn allocates(pre: Pallet, post: Pallet, id: ActionId) -> bool {
    &&& id == pre.next_action_id()
    &&& post.next_action_id() == pre.next_action_id() + 1
}

/// The `m`-th call of a run of outbound requests allocates `ids[m]`.
pub open spec fn alloc_step(states: Seq<Pallet>, ids: Seq<ActionId>, m: int) -> bool {
    allocates(states[m], states[m + 1], ids[m])
}

proof fn lemma_counter_value(states: Seq<Pallet>, ids: Seq<ActionId>, k: int)
    requires
        states.len() == ids.len() + 1,
        states[0].next_action_id() == 0,
        forall|m: int| 0 <= m < ids.len() ==> #[trigger] alloc_step(states, ids, m),
        0 <= k < states.len(),
    ensures
        states[k].next_action_id() == k,
    decreases k,
{
    if k > 0 {
        lemma_counter_value(states, ids, k - 1);
        assert(alloc_step(states, ids, k - 1));
    }
}

/// Outbound sequence ids start at 0 and strictly increase: beginning from a
/// freshly initialized state, the k-th outbound action is assigned id k,
/// whatever the validator list was.
pub proof fn lemma_outbound_ids_sequential(states: Seq<Pallet>, ids: Seq<ActionId>)
    requires
        states.len() == ids.len() + 1,
        states[0].next_action_id() == 0,
        forall|m: int| 0 <= m < ids.len() ==> #[trigger] alloc_step(states, ids, m),
    ensures
        forall|k: int| 0 <= k < ids.len() ==> ids[k] == k,
        forall|a: int, b: int| 0 <= a < b < ids.len() ==> ids[a] < ids[b],
{
    assert forall|k: int| 0 <= k < ids.len() implies ids[k] == k by {
        lemma_counter_value(states, ids, k);
        assert(alloc_step(states, ids, k));
    }
}

/// Initial validator list, applied exactly once before any operation. The
/// default (empty) configuration builds a registry nobody can confirm
/// through, so real deployments must supply validators.
pub struct GenesisConfig {
    pub initial_validators: Vec<AccountId>,
}

impl Default for GenesisConfig {
    fn default() -> (r: Self)
        ensures
            r.initial_validators@ == Seq::<AccountId>::empty(),
    {
        GenesisConfig { initial_validators: Vec::new() }
    }
}

impl GenesisConfig {
    /// Builds the initial state: the registry holds the listed validators
    /// (deduplicated by set insertion), the count is fixed at the set's size,
    /// the outbound counter starts at 0, and the ledger is empty.
    pub fn build(&self) -> (p: Pallet)
        ensures
            p.wf(),
            p.validator_set() == self.initial_validators@.to_set(),
            p.validator_count() == self.initial_validators@.to_set().len(),
            p.next_action_id() == 0,
            p.ledger() =~= Map::<Seq<u8>, ActionRecordV>::empty(),
    {
        let mut validators: Vec<AccountId> = Vec::new();
        let mut i: usize = 0;
        while i < self.initial_validators.len()
            invariant
                i <= self.initial_validators@.len(),
                validators@.no_duplicates(),
                forall|x: AccountId| validators@.contains(x) <==> self.initial_validators@
                    .subrange(0, i as int).contains(x),
            decreases self.initial_validators@.len() - i,
        {
            let v: AccountId = self.initial_validators[i];
            let ghost pre = validators@;
            if !contains_account(&validators, v) {
                validators.push(v);
                proof {
                    assert forall|a: int, b: int|
                        0 <= a < b < validators@.len() implies validators@[a] != validators@[b] by {
                        if b < pre.len() {
                            assert(validators@[a] == pre[a] && validators@[b] == pre[b]);
                        } else {
                            assert(validators@[a] == pre[a] && validators@[b] == v);
                            if pre[a] == v {
                                assert(pre.contains(v));
                            }
                        }
                    }
                }
            }
            proof {
                let full = self.initial_validators@;
                let prefix = full.subrange(0, i as int);
                let upto = full.subrange(0, i + 1);
                assert forall|x: AccountId|
                    validators@.contains(x) <==> #[trigger] upto.contains(x) by {
                    if validators@.contains(x) {
                        let j = choose|j: int|
                            0 <= j < validators@.len() && validators@[j] == x;
                        if j < pre.len() {
                            assert(pre[j] == x);
                            assert(pre.contains(x));
                            assert(prefix.contains(x));
                            let m = choose|m: int| 0 <= m < prefix.len() && prefix[m] == x;
                            assert(upto[m] == x);
                            assert(upto.contains(x));
                        } else {
                            assert(validators@[j] == v);
                            assert(upto[i as int] == v);
                            assert(upto.contains(x));
                        }
                    }
                    if upto.contains(x) {
                        let j = choose|j: int| 0 <= j < upto.len() && upto[j] == x;
                        if j < i {
                            assert(prefix[j] == x);
                            assert(prefix.contains(x));
                            assert(pre.contains(x));
                            let m = choose|m: int| 0 <= m < pre.len() && pre[m] == x;
                            assert(validators@[m] == x);
                            assert(validators@.contains(x));
                        } else {
                            assert(x == full[i as int]);
                            if pre.contains(v) {
                                let m = choose|m: int| 0 <= m < pre.len() && pre[m] == v;
                                assert(validators@[m] == v);
                            } else {
                                assert(validators@[pre.len() as int] == v);
                            }
                            assert(validators@.contains(x));
                        }
                    }
                }
            }
            i += 1;
        }
        proof {
            assert(self.initial_validators@.subrange(0, self.initial_validators@.len() as int)
                =~= self.initial_validators@);
            assert(validators@.to_set() =~= self.initial_validators@.to_set());
            validators@.unique_seq_to_set();
        }
        let cnt: u64 = validators.len() as u64;
        let p = Pallet {
            validators,
            validator_cnt: cnt,
            last_action_id: 0,
            actions: ActionLedger::new(),
        };
        p
    }
}

} // verus!

