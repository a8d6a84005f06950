use vstd::prelude::*;

verus! {

/// Abstract dispatch cost of a call, in the host chain's weight units.
pub type Weight = u64;

/// Cost charged for one read of the backing database.
pub const DB_READ_WEIGHT: u64 = 25_000_000;

/// Cost charged for one write to the backing database.
pub const DB_WRITE_WEIGHT: u64 = 100_000_000;

/// Base cost of a confirmation call, before database accesses.
pub const VERIFY_ACTION_BASE_WEIGHT: u64 = 81_909_000;

/// Flat cost assumed for deploying or extending the wrapped-token contract.
pub const CONTRACT_SETUP_WEIGHT: u64 = 100_000_000_000;

/// Weight schedule for the calls this module dispatches.
pub trait WeightInfo {
    fn verify_action() -> (w: Weight)
        ensures
            w == VERIFY_ACTION_BASE_WEIGHT + DB_READ_WEIGHT + DB_WRITE_WEIGHT,
    ;

    fn erc1155_init() -> (w: Weight)
        ensures
            w == CONTRACT_SETUP_WEIGHT,
    ;

    fn erc1155_create_token() -> (w: Weight)
        ensures
            w == CONTRACT_SETUP_WEIGHT,
    ;
}

/// The default weight schedule, priced for the reference database backend.
pub struct SubstrateWeight;

impl WeightInfo for SubstrateWeight {
    fn verify_action() -> (w: Weight) {
        VERIFY_ACTION_BASE_WEIGHT + DB_READ_WEIGHT + DB_WRITE_WEIGHT
    }

    fn erc1155_init() -> (w: Weight) {
        CONTRACT_SETUP_WEIGHT
    }

    fn erc1155_create_token() -> (w: Weight) {
        CONTRACT_SETUP_WEIGHT
    }
}

impl WeightInfo for () {
    fn verify_action() -> (w: Weight) {
        VERIFY_ACTION_BASE_WEIGHT + DB_READ_WEIGHT + DB_WRITE_WEIGHT
    }

    fn erc1155_init() -> (w: Weight) {
        CONTRACT_SETUP_WEIGHT
    }

    fn erc1155_create_token() -> (w: Weight) {
        CONTRACT_SETUP_WEIGHT
    }
}

} // verus!
