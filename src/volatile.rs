//! The messages of the volatile vault that are its own.
use vstd::prelude::*;
use crate::wire::U256;

verus! {

/// Execute messages the volatile vault adds to the common set.
#[derive(Debug)]
pub enum VolatileExecuteExtension {
    /// Moves the asset weights towards `new_weights`, reached at `target_timestamp`.
    SetWeights { target_timestamp: u64, new_weights: Vec<u128> },
}

/// The queries a volatile vault answers.
#[derive(Debug)]
pub enum QueryMsg {
    ChainInterface {},
    SetupMaster {},
    Factory {},
    FactoryOwner {},
    VaultConnectionState { channel_id: String, vault: Vec<u8> },
    Ready {},
    OnlyLocal {},
    Assets {},
    Weight { asset: String },
    VaultFee {},
    GovernanceFeeShare {},
    FeeAdministrator {},
    CalcSendAsset { from_asset: String, amount: u128 },
    CalcReceiveAsset { to_asset: String, u: U256 },
    CalcLocalSwap { from_asset: String, to_asset: String, amount: u128 },
    GetLimitCapacity {},
    TotalEscrowedAsset { asset: String },
    TotalEscrowedLiquidity {},
    AssetEscrow { hash: Vec<u8> },
    LiquidityEscrow { hash: Vec<u8> },
    TargetWeight { asset: String },
    WeightsUpdateFinishTimestamp {},
    Balance { address: String },
    TokenInfo {},
    Allowance { owner: String, spender: String },
}

/// The weight an asset is moving towards.
#[derive(Debug)]
pub struct TargetWeightResponse {
    pub target_weight: u128,
}

/// When the current weight update completes.
#[derive(Debug)]
pub struct WeightsUpdateFinishTimestampResponse {
    pub timestamp: u64,
}

} // verus!
