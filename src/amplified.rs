//! The messages of the amplified vault that are its own.
use vstd::prelude::*;
use crate::wire::U256;

verus! {

/// The amplified vault adds no execute messages to the common set. An enum
/// without variants would say so exactly, but Verus takes none, so the one
/// variant here stands for "no extension" and carries nothing.
#[derive(Clone, Copy, Debug, PartialEq, Eq, Structural)]
pub enum AmplifiedExecuteExtension {
    NoExtension,
}

/// The queries an amplified vault answers.
#[derive(Debug)]
pub enum QueryMsg {
    ChainInterface {},
    SetupMaster {},
    Factory {},
    FactoryOwner {},
    VaultConnectionState { channel_id: String, vault: Vec<u8> },
    Ready {},
    OnlyLocal {},
    Assets {},
    Weights {},
    VaultFee {},
    GovernanceFeeShare {},
    FeeAdministrator {},
    CalcSendAsset { from_asset: String, amount: u128 },
    CalcReceiveAsset { to_asset: String, u: U256 },
    CalcLocalSwap { from_asset: String, to_asset: String, amount: u128 },
    GetLimitCapacity {},
    TotalEscrowedAsset { asset: String },
    TotalEscrowedLiquidity {},
    AssetEscrow { hash: Vec<u8> },
    LiquidityEscrow { hash: Vec<u8> },
    Balance { address: String },
    TokenInfo {},
    Allowance { owner: String, spender: String },
}

} // verus!
