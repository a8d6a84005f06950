use vstd::prelude::*;
use crate::{AccountId, Balance, EgldBalance, NftId};

verus! {

/// Mathematical value of a `LocalAction`: the same payload with its byte
/// strings abstracted as sequences. Contracts speak of this type.
pub enum ActionV {
    Unfreeze { to: AccountId, value: Balance },
    RpcCall { contract: AccountId, call_data: Seq<u8> },
    TransferWrapped { to: AccountId, value: EgldBalance },
    UnfreezeAsset { to: AccountId, asset_id: NftId },
}

/// Effect to perform on this chain once a quorum of validators has confirmed
/// the corresponding foreign-chain event. The variant set is closed: whoever
/// dispatches a ready action must match it exhaustively.
#[derive(Debug, Clone, PartialEq)]
pub enum LocalAction {
    /// Release frozen local currency and credit it to the target account.
    Unfreeze { to: AccountId, value: Balance },
    /// Call a smart contract with raw call data.
    RpcCall { contract: AccountId, call_data: Vec<u8> },
    /// Mint wrapped foreign currency and credit it to the target account.
    TransferWrapped { to: AccountId, value: EgldBalance },
    /// Unlock a unique asset and transfer it to the target account.
    UnfreezeAsset { to: AccountId, asset_id: NftId },
}

impl View for LocalAction {
    type V = ActionV;

    open spec fn view(&self) -> ActionV {
        match self {
            LocalAction::Unfreeze { to, value } => ActionV::Unfreeze { to: *to, value: *value },
            LocalAction::RpcCall { contract, call_data } => ActionV::RpcCall {
                contract: *contract,
                call_data: call_data@,
            },
            LocalAction::TransferWrapped { to, value } => ActionV::TransferWrapped {
                to: *to,
                value: *value,
            },
            LocalAction::UnfreezeAsset { to, asset_id } => ActionV::UnfreezeAsset {
                to: *to,
                asset_id: *asset_id,
            },
        }
    }
}

/// Mathematical value of a pending-action record: the stored payload and the
/// set of validators that have confirmed it so far.
pub struct ActionRecordV {
    pub action: ActionV,
    pub validators: Set<AccountId>,
}

/// A pending action: the payload supplied by the first confirming validator,
/// and the validators that have confirmed it so far. The confirmation list
/// carries no duplicates, so it stands for a set.
#[derive(Debug, Clone, PartialEq)]
pub struct ActionInfo {
    pub(crate) action: LocalAction,
    pub(crate) validators: Vec<AccountId>,
}

impl View for ActionInfo {
    type V = ActionRecordV;

    closed spec fn view(&self) -> ActionRecordV {
        ActionRecordV { action: self.action@, validators: self.validators@.to_set() }
    }
}

impl ActionInfo {
    /// The confirmation list is duplicate-free, so its length is the size of
    /// the confirmation set.
    pub closed spec fn wf(self) -> bool {
        self.validators@.no_duplicates()
    }

    /// Unfolds `wf` for the other modules of this crate.
    pub(crate) proof fn lemma_wf_unfold(self)
        ensures
            self.wf() <==> self.validators@.no_duplicates(),
    {
    }

    /// Unfolds the view for the other modules of this crate.
    pub(crate) proof fn lemma_view_unfold(self)
        ensures
            self@ == (ActionRecordV {
                action: self.action@,
                validators: self.validators@.to_set(),
            }),
    {
    }

    /// A fresh record holding `action`, confirmed by nobody yet.
    pub fn new(action: LocalAction) -> (r: Self)
        ensures
            r.wf(),
            r@ == (ActionRecordV { action: action@, validators: Seq::<AccountId>::empty().to_set() }),
            r@.validators =~= Set::<AccountId>::empty(),
    {
        let r = ActionInfo { action, validators: Vec::new() };
        proof {
            assert(r.validators@.to_set() =~= Set::<AccountId>::empty());
        }
        r
    }
}

} // verus!
