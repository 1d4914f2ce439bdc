//! The calls this contract makes into vaults, and the messages that carry them.
use vstd::prelude::*;
use crate::wire::U256;

verus! {

pub open spec fn opt_string_view(o: Option<String>) -> Option<Seq<char>> {
    match o {
        Some(s) => Some(s@),
        None => None,
    }
}

pub open spec fn opt_bytes_view(o: Option<Vec<u8>>) -> Option<Seq<u8>> {
    match o {
        Some(b) => Some(b@),
        None => None,
    }
}

/// A call into a vault: a delivered swap, or the verdict on a sent one.
#[derive(Debug)]
pub enum VaultCall {
    ReceiveAsset {
        channel_id: String,
        from_vault: Vec<u8>,
        to_asset_index: u8,
        to_account: String,
        u: U256,
        min_out: u128,
        from_amount: U256,
        from_asset: Vec<u8>,
        from_block_number_mod: u32,
        calldata_target: Option<String>,
        calldata: Option<Vec<u8>>,
    },
    ReceiveLiquidity {
        channel_id: String,
        from_vault: Vec<u8>,
        to_account: String,
        u: U256,
        min_pool_tokens: u128,
        min_reference_asset: u128,
        from_amount: U256,
        from_block_number_mod: u32,
        calldata_target: Option<String>,
        calldata: Option<Vec<u8>>,
    },
    OnSendAssetSuccess {
        channel_id: String,
        to_account: Vec<u8>,
        u: U256,
        amount: u128,
        asset: String,
        block_number_mod: u32,
    },
    OnSendAssetFailure {
        channel_id: String,
        to_account: Vec<u8>,
        u: U256,
        amount: u128,
        asset: String,
        block_number_mod: u32,
    },
    OnSendLiquiditySuccess {
        channel_id: String,
        to_account: Vec<u8>,
        u: U256,
        amount: u128,
        block_number_mod: u32,
    },
    OnSendLiquidityFailure {
        channel_id: String,
        to_account: Vec<u8>,
        u: U256,
        amount: u128,
        block_number_mod: u32,
    },
}

/// The model of a vault call: strings and bytes as sequences.
pub enum VaultCallView {
    ReceiveAsset {
        channel_id: Seq<char>,
        from_vault: Seq<u8>,
        to_asset_index: u8,
        to_account: Seq<char>,
        u: U256,
        min_out: u128,
        from_amount: U256,
        from_asset: Seq<u8>,
        from_block_number_mod: u32,
        calldata_target: Option<Seq<char>>,
        calldata: Option<Seq<u8>>,
    },
    ReceiveLiquidity {
        channel_id: Seq<char>,
        from_vault: Seq<u8>,
        to_account: Seq<char>,
        u: U256,
        min_pool_tokens: u128,
        min_reference_asset: u128,
        from_amount: U256,
        from_block_number_mod: u32,
        calldata_target: Option<Seq<char>>,
        calldata: Option<Seq<u8>>,
    },
    OnSendAssetSuccess {
        channel_id: Seq<char>,
        to_account: Seq<u8>,
        u: U256,
        amount: u128,
        asset: Seq<char>,
        block_number_mod: u32,
    },
    OnSendAssetFailure {
        channel_id: Seq<char>,
        to_account: Seq<u8>,
        u: U256,
        amount: u128,
        asset: Seq<char>,
        block_number_mod: u32,
    },
    OnSendLiquiditySuccess {
        channel_id: Seq<char>,
        to_account: Seq<u8>,
        u: U256,
        amount: u128,
        block_number_mod: u32,
    },
    OnSendLiquidityFailure {
        channel_id: Seq<char>,
        to_account: Seq<u8>,
        u: U256,
        amount: u128,
        block_number_mod: u32,
    },
}

impl View for VaultCall {
    type V = VaultCallView;

    open spec fn view(&self) -> VaultCallView {
        match self {
            VaultCall::ReceiveAsset {
                channel_id,
                from_vault,
                to_asset_index,
                to_account,
                u,
                min_out,
                from_amount,
                from_asset,
                from_block_number_mod,
                calldata_target,
                calldata,
            } => VaultCallView::ReceiveAsset {
                channel_id: channel_id@,
                from_vault: from_vault@,
                to_asset_index: *to_asset_index,
                to_account: to_account@,
                u: *u,
                min_out: *min_out,
                from_amount: *from_amount,
                from_asset: from_asset@,
                from_block_number_mod: *from_block_number_mod,
                calldata_target: opt_string_view(*calldata_target),
                calldata: opt_bytes_view(*calldata),
            },
            VaultCall::ReceiveLiquidity {
                channel_id,
                from_vault,
                to_account,
                u,
                min_pool_tokens,
                min_reference_asset,
                from_amount,
                from_block_number_mod,
                calldata_target,
                calldata,
            } => VaultCallView::ReceiveLiquidity {
                channel_id: channel_id@,
                from_vault: from_vault@,
                to_account: to_account@,
                u: *u,
                min_pool_tokens: *min_pool_tokens,
                min_reference_asset: *min_reference_asset,
                from_amount: *from_amount,
                from_block_number_mod: *from_block_number_mod,
                calldata_target: opt_string_view(*calldata_target),
                calldata: opt_bytes_view(*calldata),
            },
            VaultCall::OnSendAssetSuccess {
                channel_id,
                to_account,
                u,
                amount,
                asset,
                block_number_mod,
            } => VaultCallView::OnSendAssetSuccess {
                channel_id: channel_id@,
                to_account: to_account@,
                u: *u,
                amount: *amount,
                asset: asset@,
                block_number_mod: *block_number_mod,
            },
            VaultCall::OnSendAssetFailure {
                channel_id,
                to_account,
                u,
                amount,
                asset,
                block_number_mod,
            } => VaultCallView::OnSendAssetFailure {
                channel_id: channel_id@,
                to_account: to_account@,
                u: *u,
                amount: *amount,
                asset: asset@,
                block_number_mod: *block_number_mod,
            },
            VaultCall::OnSendLiquiditySuccess {
                channel_id,
                to_account,
                u,
                amount,
                block_number_mod,
            } => VaultCallView::OnSendLiquiditySuccess {
                channel_id: channel_id@,
                to_account: to_account@,
                u: *u,
                amount: *amount,
                block_number_mod: *block_number_mod,
            },
            VaultCall::OnSendLiquidityFailure {
                channel_id,
                to_account,
                u,
                amount,
                block_number_mod,
            } => VaultCallView::OnSendLiquidityFailure {
                channel_id: channel_id@,
                to_account: to_account@,
                u: *u,
                amount: *amount,
                block_number_mod: *block_number_mod,
            },
        }
    }
}

/// A vault call addressed to a contract.
#[derive(Debug)]
pub struct WasmExecute {
    pub contract_addr: String,
    pub msg: VaultCall,
}

/// The model of an addressed vault call.
pub struct WasmExecuteView {
    pub contract_addr: Seq<char>,
    pub msg: VaultCallView,
}

impl View for WasmExecute {
    type V = WasmExecuteView;

    open spec fn view(&self) -> WasmExecuteView {
        WasmExecuteView { contract_addr: self.contract_addr@, msg: self.msg@ }
    }
}

pub open spec fn opt_execute_view(o: Option<WasmExecute>) -> Option<WasmExecuteView> {
    match o {
        Some(w) => Some(w@),
        None => None,
    }
}

/// A call whose outcome comes back to this contract under `id`.
#[derive(Debug)]
pub struct SubMsg {
    pub id: u64,
    pub execute: WasmExecute,
}

/// The model of a tagged vault call.
pub struct SubMsgView {
    pub id: u64,
    pub execute: WasmExecuteView,
}

impl View for SubMsg {
    type V = SubMsgView;

    open spec fn view(&self) -> SubMsgView {
        SubMsgView { id: self.id, execute: self.execute@ }
    }
}

/// What the receipt of a packet yields: its acknowledgement, and the call, if
/// any, issued alongside it.
#[derive(Debug)]
pub struct ReceiveResponse {
    pub ack: Vec<u8>,
    pub sub_msg: Option<SubMsg>,
}

/// The model of what the receipt of a packet yields.
pub struct ReceiveResponseView {
    pub ack: Seq<u8>,
    pub sub_msg: Option<SubMsgView>,
}

impl View for ReceiveResponse {
    type V = ReceiveResponseView;

    open spec fn view(&self) -> ReceiveResponseView {
        ReceiveResponseView { ack: self.ack@, sub_msg: match self.sub_msg {
            Some(m) => Some(m@),
            None => None,
        } }
    }
}

} // verus!
