//! The contract's transport entry points: the channel handshake, the receipt
//! of packets, the reply hook that corrects an acknowledgement, and the
//! acknowledgement and timeout of packets this side sent.
use vstd::prelude::*;
use vstd::utf8::{decode_utf8, valid_utf8};
use crate::channel::{
    ChannelRegistry, IbcChannel, IbcChannelInfo, channel_version, validate_ibc_channel_config,
    version_check, version_result_matches,
};
use crate::error::ContractError;
use crate::payload::{
    CallDataView, CatalystV1Packet, DecodeError, PacketView, decode_packet, encode_address,
    write_address,
};
use crate::vault_msg::{
    ReceiveResponse, ReceiveResponseView, SubMsg, SubMsgView, VaultCall, VaultCallView,
    WasmExecute, WasmExecuteView, opt_execute_view, opt_string_view,
};

verus! {

/// The id under which the outcome of a vault call made on receipt comes back.
pub const RECEIVE_REPLY_ID: u64 = 0x100;

/// The acknowledgement byte of a packet that was acted on.
pub const ACK_SUCCESS: u8 = 0;

/// The acknowledgement byte of a packet that was refused or failed.
pub const ACK_FAIL: u8 = 1;

/// The acknowledgement of success.
pub fn ack_success() -> (r: Vec<u8>)
    ensures
        r@ == seq![ACK_SUCCESS],
{
    let mut r: Vec<u8> = Vec::new();
    r.push(ACK_SUCCESS);
    r
}

/// The acknowledgement of failure.
pub fn ack_fail() -> (r: Vec<u8>)
    ensures
        r@ == seq![ACK_FAIL],
{
    let mut r: Vec<u8> = Vec::new();
    r.push(ACK_FAIL);
    r
}

// ---------------------------------------------------------------------------
// Channel handshake.

pub open spec fn version_view(v: Option<&String>) -> Option<Seq<char>> {
    match v {
        Some(s) => Some(s@),
        None => None,
    }
}

/// What the registry keeps of a channel.
pub open spec fn channel_info(c: IbcChannel) -> IbcChannelInfo {
    IbcChannelInfo {
        endpoint: c.endpoint,
        counterparty_endpoint: c.counterparty_endpoint,
        connection_id: c.connection_id,
    }
}

/// The opening steps of the handshake: only the versions are checked.
pub fn ibc_channel_open(channel: &IbcChannel, counterparty_version: Option<&String>) -> (r: Result<
    (),
    ContractError,
>)
    ensures
        version_result_matches(r, version_check(channel.version@, version_view(counterparty_version))),
{
    validate_ibc_channel_config(channel, counterparty_version)
}

/// The connecting step: the versions are checked again, and an accepted
/// channel is recorded as open. A refused one leaves the registry as it was.
pub fn ibc_channel_connect(
    registry: &mut ChannelRegistry,
    channel: IbcChannel,
    counterparty_version: Option<&String>,
) -> (r: Result<(), ContractError>)
    requires
        old(registry).wf(),
    ensures
        final(registry).wf(),
        version_result_matches(r, version_check(channel.version@, version_view(counterparty_version))),
        r is Ok ==> final(registry)@ == old(registry)@.insert(
            channel.endpoint.channel_id@,
            channel_info(channel),
        ),
        r is Err ==> final(registry)@ == old(registry)@,
{
    match validate_ibc_channel_config(&channel, counterparty_version) {
        Err(e) => Err(e),
        Ok(()) => {
            let info = IbcChannelInfo {
                endpoint: channel.endpoint,
                counterparty_endpoint: channel.counterparty_endpoint,
                connection_id: channel.connection_id,
            };
            registry.save(info);
            Ok(())
        },
    }
}

/// The closing of a channel: it is no longer recorded as open.
pub fn ibc_channel_close(registry: &mut ChannelRegistry, channel: IbcChannel)
    requires
        old(registry).wf(),
    ensures
        final(registry).wf(),
        final(registry)@ == old(registry)@.remove(channel.endpoint.channel_id@),
{
    registry.remove(&channel.endpoint.channel_id);
}

// ---------------------------------------------------------------------------
// Receipt of a packet.

/// The addresses of a received packet as validated by the host chain: the
/// address, where it is one of this chain, else `None`. `calldata_target`
/// matters only for packets that carry call data.
pub struct AddressVerdicts {
    pub to_vault: Option<String>,
    pub to_account: Option<String>,
    pub calldata_target: Option<String>,
}

pub open spec fn packet_calldata(p: PacketView) -> Option<CallDataView> {
    match p {
        PacketView::SendAsset(a) => a.calldata,
        PacketView::SendLiquidity(l) => l.calldata,
    }
}

/// Every address the packet's call needs was validated.
pub open spec fn verdicts_complete(p: PacketView, v: AddressVerdicts) -> bool {
    &&& v.to_vault is Some
    &&& v.to_account is Some
    &&& packet_calldata(p) is Some ==> v.calldata_target is Some
}

/// The vault call that a received instruction asks for.
pub open spec fn receive_call(
    channel_id: Seq<char>,
    p: PacketView,
    to_account: Seq<char>,
    target: Option<Seq<char>>,
) -> VaultCallView {
    let (calldata_target, calldata) = match packet_calldata(p) {
        Some(d) => (target, Some(d.bytes)),
        None => (None, None),
    };
    match p {
        PacketView::SendAsset(a) => VaultCallView::ReceiveAsset {
            channel_id,
            from_vault: encode_address(a.from_vault),
            to_asset_index: a.to_asset_index,
            to_account,
            u: a.u,
            min_out: a.min_out,
            from_amount: a.from_amount,
            from_asset: encode_address(a.from_asset),
            from_block_number_mod: a.block_number,
            calldata_target,
            calldata,
        },
        PacketView::SendLiquidity(l) => VaultCallView::ReceiveLiquidity {
            channel_id,
            from_vault: encode_address(l.from_vault),
            to_account,
            u: l.u,
            min_pool_tokens: l.min_pool_tokens,
            min_reference_asset: l.min_reference_asset,
            from_amount: l.from_amount,
            from_block_number_mod: l.block_number,
            calldata_target,
            calldata,
        },
    }
}

/// What receiving `data` on `channel_id` yields: a success acknowledgement
/// with exactly one call into the destination vault, tagged for the reply
/// hook; or the reason no call can be made.
pub open spec fn receive_result(channel_id: Seq<char>, data: Seq<u8>, v: AddressVerdicts) -> Result<
    ReceiveResponseView,
    ContractError,
> {
    match decode_packet(data) {
        Err(e) => Err(ContractError::PayloadDecoding { error: e }),
        Ok(p) => if !verdicts_complete(p, v) {
            Err(ContractError::InvalidAddress)
        } else {
            Ok(
                ReceiveResponseView {
                    ack: seq![ACK_SUCCESS],
                    sub_msg: Some(
                        SubMsgView {
                            id: RECEIVE_REPLY_ID,
                            execute: WasmExecuteView {
                                contract_addr: v.to_vault.unwrap()@,
                                msg: receive_call(
                                    channel_id,
                                    p,
                                    v.to_account.unwrap()@,
                                    opt_string_view(v.calldata_target),
                                ),
                            },
                        },
                    ),
                },
            )
        },
    }
}

/// What the transport is handed for a received packet: a refused packet is
/// acknowledged as failed, with no call made.
pub open spec fn ibc_receive_result(channel_id: Seq<char>, data: Seq<u8>, v: AddressVerdicts) -> ReceiveResponseView {
    match receive_result(channel_id, data, v) {
        Ok(r) => r,
        Err(_) => ReceiveResponseView { ack: seq![ACK_FAIL], sub_msg: None },
    }
}

pub open spec fn receive_view(r: Result<ReceiveResponse, ContractError>) -> Result<
    ReceiveResponseView,
    ContractError,
> {
    match r {
        Ok(x) => Ok(x@),
        Err(e) => Err(e),
    }
}

fn encoded_address(a: &Vec<u8>) -> (r: Vec<u8>)
    requires
        a@.len() <= 64,
    ensures
        r@ == encode_address(a@),
{
    let mut r: Vec<u8> = Vec::new();
    write_address(&mut r, a);
    assert(r@ =~= encode_address(a@));
    r
}

/// Decodes a received packet and builds the call into its destination vault.
pub fn on_packet_receive(channel_id: String, data: &Vec<u8>, verdicts: AddressVerdicts) -> (r: Result<
    ReceiveResponse,
    ContractError,
>)
    ensures
        receive_view(r) == receive_result(channel_id@, data@, verdicts),
{
    let ghost v = verdicts;
    let packet = match CatalystV1Packet::try_decode(data) {
        Ok(p) => p,
        Err(e) => return Err(ContractError::PayloadDecoding { error: e }),
    };
    let AddressVerdicts { to_vault, to_account, calldata_target } = verdicts;
    let to_vault = match to_vault {
        Some(a) => a,
        None => return Err(ContractError::InvalidAddress),
    };
    let to_account = match to_account {
        Some(a) => a,
        None => return Err(ContractError::InvalidAddress),
    };
    let ghost pv = packet@;
    let msg = match packet {
        CatalystV1Packet::SendAsset(a) => {
            let (target, calldata) = match a.calldata {
                Some(d) => match calldata_target {
                    Some(t) => (Some(t), Some(d.bytes)),
                    None => return Err(ContractError::InvalidAddress),
                },
                None => (None, None),
            };
            let from_vault = encoded_address(&a.from_vault);
            let from_asset = encoded_address(&a.from_asset);
            VaultCall::ReceiveAsset {
                channel_id,
                from_vault,
                to_asset_index: a.to_asset_index,
                to_account,
                u: a.u,
                min_out: a.min_out,
                from_amount: a.from_amount,
                from_asset,
                from_block_number_mod: a.block_number,
                calldata_target: target,
                calldata,
            }
        },
        CatalystV1Packet::SendLiquidity(l) => {
            let (target, calldata) = match l.calldata {
                Some(d) => match calldata_target {
                    Some(t) => (Some(t), Some(d.bytes)),
                    None => return Err(ContractError::InvalidAddress),
                },
                None => (None, None),
            };
            let from_vault = encoded_address(&l.from_vault);
            VaultCall::ReceiveLiquidity {
                channel_id,
                from_vault,
                to_account,
                u: l.u,
                min_pool_tokens: l.min_pool_tokens,
                min_reference_asset: l.min_reference_asset,
                from_amount: l.from_amount,
                from_block_number_mod: l.block_number,
                calldata_target: target,
                calldata,
            }
        },
    };
    Ok(
        ReceiveResponse {
            ack: ack_success(),
            sub_msg: Some(
                SubMsg { id: RECEIVE_REPLY_ID, execute: WasmExecute { contract_addr: to_vault, msg } },
            ),
        },
    )
}

/// Receives a packet. This never fails: a packet that cannot be acted on is
/// acknowledged as failed and no call is made.
pub fn ibc_packet_receive(channel_id: String, data: &Vec<u8>, verdicts: AddressVerdicts) -> (r:
    ReceiveResponse)
    ensures
        r@ == ibc_receive_result(channel_id@, data@, verdicts),
{
    match on_packet_receive(channel_id, data, verdicts) {
        Ok(r) => r,
        Err(_) => ReceiveResponse { ack: ack_fail(), sub_msg: None },
    }
}

// ---------------------------------------------------------------------------
// The reply hook.

/// The data a reply sets: nothing after a successful vault call, the failure
/// acknowledgement (replacing the one given on receipt) after a failed one.
pub open spec fn reply_result(id: u64, success: bool) -> Result<Option<Seq<u8>>, ContractError> {
    if id != RECEIVE_REPLY_ID {
        Err(ContractError::UnknownReplyId { id })
    } else if success {
        Ok(None)
    } else {
        Ok(Some(seq![ACK_FAIL]))
    }
}

pub open spec fn reply_view(r: Result<Option<Vec<u8>>, ContractError>) -> Result<
    Option<Seq<u8>>,
    ContractError,
> {
    match r {
        Ok(Some(d)) => Ok(Some(d@)),
        Ok(None) => Ok(None),
        Err(e) => Err(e),
    }
}

/// Handles the outcome of the vault call made on receipt.
pub fn reply(id: u64, success: bool) -> (r: Result<Option<Vec<u8>>, ContractError>)
    ensures
        reply_view(r) == reply_result(id, success),
{
    if id != RECEIVE_REPLY_ID {
        Err(ContractError::UnknownReplyId { id })
    } else if success {
        Ok(None)
    } else {
        Ok(Some(ack_fail()))
    }
}

// ---------------------------------------------------------------------------
// Acknowledgements and timeouts of sent packets.

/// Relies on `String::from_utf8`, which gives the string whose UTF-8 bytes
/// are `b`, and fails exactly when `b` is not valid UTF-8.
#[verifier::external_body]
fn string_from_utf8(b: Vec<u8>) -> (r: Option<String>)
    ensures
        r is Some <==> valid_utf8(b@),
        r matches Some(s) ==> s@ == decode_utf8(b@),
{
    String::from_utf8(b).ok()
}

/// The call that tells the sending vault how its packet fared: it carries
/// the recipient, units, amount, asset and block fingerprint of the packet,
/// so that the vault finds the escrow it made.
pub open spec fn response_result(
    channel_id: Seq<char>,
    data: Seq<u8>,
    success: bool,
    from_vault: Option<Seq<char>>,
) -> Result<WasmExecuteView, ContractError> {
    match decode_packet(data) {
        Err(e) => Err(ContractError::PayloadDecoding { error: e }),
        Ok(p) => match from_vault {
            None => Err(ContractError::InvalidAddress),
            Some(vault) => match p {
                PacketView::SendAsset(a) => if a.from_amount.value() > u128::MAX {
                    Err(ContractError::PayloadDecoding { error: DecodeError::AmountOutOfRange })
                } else if !valid_utf8(a.from_asset) {
                    Err(ContractError::InvalidAssetEncoding)
                } else {
                    let to_account = encode_address(a.to_account);
                    let amount = a.from_amount.value() as u128;
                    let asset = decode_utf8(a.from_asset);
                    Ok(
                        WasmExecuteView {
                            contract_addr: vault,
                            msg: if success {
                                VaultCallView::OnSendAssetSuccess {
                                    channel_id,
                                    to_account,
                                    u: a.u,
                                    amount,
                                    asset,
                                    block_number_mod: a.block_number,
                                }
                            } else {
                                VaultCallView::OnSendAssetFailure {
                                    channel_id,
                                    to_account,
                                    u: a.u,
                                    amount,
                                    asset,
                                    block_number_mod: a.block_number,
                                }
                            },
                        },
                    )
                },
                PacketView::SendLiquidity(l) => if l.from_amount.value() > u128::MAX {
                    Err(ContractError::PayloadDecoding { error: DecodeError::AmountOutOfRange })
                } else {
                    let to_account = encode_address(l.to_account);
                    let amount = l.from_amount.value() as u128;
                    Ok(
                        WasmExecuteView {
                            contract_addr: vault,
                            msg: if success {
                                VaultCallView::OnSendLiquiditySuccess {
                                    channel_id,
                                    to_account,
                                    u: l.u,
                                    amount,
                                    block_number_mod: l.block_number,
                                }
                            } else {
                                VaultCallView::OnSendLiquidityFailure {
                                    channel_id,
                                    to_account,
                                    u: l.u,
                                    amount,
                                    block_number_mod: l.block_number,
                                }
                            },
                        },
                    )
                },
            },
        },
    }
}

/// The call made, if any: a failure to build it is absorbed.
pub open spec fn response_call(
    channel_id: Seq<char>,
    data: Seq<u8>,
    success: bool,
    from_vault: Option<Seq<char>>,
) -> Option<WasmExecuteView> {
    match response_result(channel_id, data, success, from_vault) {
        Ok(w) => Some(w),
        Err(_) => None,
    }
}

/// What an acknowledgement yields: its first byte alone decides; an empty
/// or unknown acknowledgement yields no call and no error.
pub open spec fn ack_call(
    channel_id: Seq<char>,
    data: Seq<u8>,
    ack: Seq<u8>,
    from_vault: Option<Seq<char>>,
) -> Option<WasmExecuteView> {
    if ack.len() == 0 {
        None
    } else if ack[0] == ACK_SUCCESS {
        response_call(channel_id, data, true, from_vault)
    } else if ack[0] == ACK_FAIL {
        response_call(channel_id, data, false, from_vault)
    } else {
        None
    }
}

pub open spec fn execute_view(r: Result<WasmExecute, ContractError>) -> Result<
    WasmExecuteView,
    ContractError,
> {
    match r {
        Ok(w) => Ok(w@),
        Err(e) => Err(e),
    }
}

/// Builds the call that tells the vault that sent `data` (on the channel
/// whose far end is `channel_id`) whether it succeeded. `from_vault` is the
/// packet's source vault as validated by the host chain.
pub fn on_packet_response(
    channel_id: String,
    data: &Vec<u8>,
    success: bool,
    from_vault: Option<String>,
) -> (r: Result<WasmExecute, ContractError>)
    ensures
        execute_view(r) == response_result(channel_id@, data@, success, opt_string_view(from_vault)),
{
    let packet = match CatalystV1Packet::try_decode(data) {
        Ok(p) => p,
        Err(e) => return Err(ContractError::PayloadDecoding { error: e }),
    };
    let vault = match from_vault {
        Some(v) => v,
        None => return Err(ContractError::InvalidAddress),
    };
    let msg = match packet {
        CatalystV1Packet::SendAsset(a) => {
            let amount = match a.from_amount.to_u128() {
                Some(x) => x,
                None => return Err(
                    ContractError::PayloadDecoding { error: DecodeError::AmountOutOfRange },
                ),
            };
            let ghost asset_bytes = a.from_asset@;
            let asset = match string_from_utf8(a.from_asset) {
                Some(s) => s,
                None => return Err(ContractError::InvalidAssetEncoding),
            };
            let to_account = encoded_address(&a.to_account);
            if success {
                VaultCall::OnSendAssetSuccess {
                    channel_id,
                    to_account,
                    u: a.u,
                    amount,
                    asset,
                    block_number_mod: a.block_number,
                }
            } else {
                VaultCall::OnSendAssetFailure {
                    channel_id,
                    to_account,
                    u: a.u,
                    amount,
                    asset,
                    block_number_mod: a.block_number,
                }
            }
        },
        CatalystV1Packet::SendLiquidity(l) => {
            let amount = match l.from_amount.to_u128() {
                Some(x) => x,
                None => return Err(
                    ContractError::PayloadDecoding { error: DecodeError::AmountOutOfRange },
                ),
            };
            let to_account = encoded_address(&l.to_account);
            if success {
                VaultCall::OnSendLiquiditySuccess {
                    channel_id,
                    to_account,
                    u: l.u,
                    amount,
                    block_number_mod: l.block_number,
                }
            } else {
                VaultCall::OnSendLiquidityFailure {
                    channel_id,
                    to_account,
                    u: l.u,
                    amount,
                    block_number_mod: l.block_number,
                }
            }
        },
    };
    Ok(WasmExecute { contract_addr: vault, msg })
}

/// Tells the sending vault that its packet succeeded; never fails.
pub fn on_packet_success(channel_id: String, data: &Vec<u8>, from_vault: Option<String>) -> (r:
    Option<WasmExecute>)
    ensures
        opt_execute_view(r) == response_call(channel_id@, data@, true, opt_string_view(from_vault)),
{
    match on_packet_response(channel_id, data, true, from_vault) {
        Ok(w) => Some(w),
        Err(_) => None,
    }
}

/// Tells the sending vault that its packet failed; never fails.
pub fn on_packet_failure(channel_id: String, data: &Vec<u8>, from_vault: Option<String>) -> (r:
    Option<WasmExecute>)
    ensures
        opt_execute_view(r) == response_call(channel_id@, data@, false, opt_string_view(from_vault)),
{
    match on_packet_response(channel_id, data, false, from_vault) {
        Ok(w) => Some(w),
        Err(_) => None,
    }
}

/// Handles the acknowledgement `ack` of the sent packet `data`.
pub fn ibc_packet_ack(
    channel_id: String,
    data: &Vec<u8>,
    ack: &Vec<u8>,
    from_vault: Option<String>,
) -> (r: Option<WasmExecute>)
    ensures
        opt_execute_view(r) == ack_call(channel_id@, data@, ack@, opt_string_view(from_vault)),
{
    if ack.len() == 0 {
        None
    } else if ack[0] == ACK_SUCCESS {
        on_packet_success(channel_id, data, from_vault)
    } else if ack[0] == ACK_FAIL {
        on_packet_failure(channel_id, data, from_vault)
    } else {
        None
    }
}

/// Handles the timeout of the sent packet `data`: it failed.
pub fn ibc_packet_timeout(channel_id: String, data: &Vec<u8>, from_vault: Option<String>) -> (r:
    Option<WasmExecute>)
    ensures
        opt_execute_view(r) == response_call(channel_id@, data@, false, opt_string_view(from_vault)),
{
    on_packet_failure(channel_id, data, from_vault)
}

// ---------------------------------------------------------------------------
// Laws.

/// A handshake step whose versions are both the protocol's passes; one whose
/// local or counterparty version is anything else fails, naming that version.
pub proof fn lemma_version_agreement(local: Seq<char>, counterparty: Option<Seq<char>>)
    ensures
        local == channel_version() && (counterparty is None || counterparty == Some(
            channel_version(),
        )) ==> version_check(local, counterparty) == Ok::<(), Seq<char>>(()),
        local != channel_version() ==> version_check(local, counterparty) == Err::<(), Seq<char>>(
            local,
        ),
        local == channel_version() && counterparty is Some && counterparty != Some(
            channel_version(),
        ) ==> version_check(local, counterparty) == Err::<(), Seq<char>>(counterparty.unwrap()),
{
}

/// A packet that holds no instruction is acknowledged as failed, and no
/// vault is called.
pub proof fn lemma_malformed_packet_refused(channel_id: Seq<char>, data: Seq<u8>, v: AddressVerdicts)
    requires
        decode_packet(data) is Err,
    ensures
        ibc_receive_result(channel_id, data, v) == (ReceiveResponseView {
            ack: seq![ACK_FAIL],
            sub_msg: None,
        }),
{
}

/// A well-formed asset swap, whose addresses the host accepts, is
/// acknowledged as a success at once, with exactly one `ReceiveAsset` call
/// carrying the packet's fields, tagged for the reply hook. A reply of
/// failure under that tag then sets the failure acknowledgement, while a
/// reply of success changes nothing; neither reply fails.
pub proof fn lemma_receive_asset_then_reply(channel_id: Seq<char>, data: Seq<u8>, v: AddressVerdicts)
    requires
        decode_packet(data) matches Ok(PacketView::SendAsset(_)),
        verdicts_complete(decode_packet(data).unwrap(), v),
    ensures
        ({
            let a = match decode_packet(data) {
                Ok(PacketView::SendAsset(a)) => a,
                _ => arbitrary(),
            };
            let r = ibc_receive_result(channel_id, data, v);
            &&& r.ack == seq![ACK_SUCCESS]
            &&& r.sub_msg matches Some(m) && m.id == RECEIVE_REPLY_ID
                && m.execute.contract_addr == v.to_vault.unwrap()@
                && m.execute.msg == (VaultCallView::ReceiveAsset {
                channel_id,
                from_vault: encode_address(a.from_vault),
                to_asset_index: a.to_asset_index,
                to_account: v.to_account.unwrap()@,
                u: a.u,
                min_out: a.min_out,
                from_amount: a.from_amount,
                from_asset: encode_address(a.from_asset),
                from_block_number_mod: a.block_number,
                calldata_target: match a.calldata {
                    Some(_) => opt_string_view(v.calldata_target),
                    None => None,
                },
                calldata: match a.calldata {
                    Some(d) => Some(d.bytes),
                    None => None,
                },
            })
                && reply_result(m.id, false) == Ok::<Option<Seq<u8>>, ContractError>(
                Some(seq![ACK_FAIL]),
            ) && reply_result(m.id, true) == Ok::<Option<Seq<u8>>, ContractError>(None)
        }),
{
}

/// The acknowledgement of a sent asset swap that can be read back: a first
/// byte of success yields exactly one `OnSendAssetSuccess` call to the
/// source vault, carrying the packet's units, amount and asset; a first byte
/// of failure, like a timeout, yields `OnSendAssetFailure` with the same
/// fields; any other or missing byte yields no call.
pub proof fn lemma_asset_ack_outcomes(
    channel_id: Seq<char>,
    data: Seq<u8>,
    ack: Seq<u8>,
    from_vault: Seq<char>,
)
    requires
        decode_packet(data) matches Ok(PacketView::SendAsset(a)) && a.from_amount.value()
            <= u128::MAX && valid_utf8(a.from_asset),
    ensures
        ({
            let a = match decode_packet(data) {
                Ok(PacketView::SendAsset(a)) => a,
                _ => arbitrary(),
            };
            let to_account = encode_address(a.to_account);
            let amount = a.from_amount.value() as u128;
            let asset = decode_utf8(a.from_asset);
            let success = WasmExecuteView {
                contract_addr: from_vault,
                msg: VaultCallView::OnSendAssetSuccess {
                    channel_id,
                    to_account,
                    u: a.u,
                    amount,
                    asset,
                    block_number_mod: a.block_number,
                },
            };
            let failure = WasmExecuteView {
                contract_addr: from_vault,
                msg: VaultCallView::OnSendAssetFailure {
                    channel_id,
                    to_account,
                    u: a.u,
                    amount,
                    asset,
                    block_number_mod: a.block_number,
                },
            };
            &&& ack.len() > 0 && ack[0] == ACK_SUCCESS ==> ack_call(
                channel_id,
                data,
                ack,
                Some(from_vault),
            ) == Some(success)
            &&& ack.len() > 0 && ack[0] == ACK_FAIL ==> ack_call(
                channel_id,
                data,
                ack,
                Some(from_vault),
            ) == Some(failure)
            &&& response_call(channel_id, data, false, Some(from_vault)) == Some(failure)
            &&& (ack.len() == 0 || (ack[0] != ACK_SUCCESS && ack[0] != ACK_FAIL)) ==> ack_call(
                channel_id,
                data,
                ack,
                Some(from_vault),
            ) is None
        }),
{
}

} // verus!
