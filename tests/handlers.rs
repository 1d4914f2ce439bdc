use catalyst_ibc_interface::error::ContractError;
use catalyst_ibc_interface::ibc::{
    ack_fail, ack_success, ibc_packet_ack, ibc_packet_receive, ibc_packet_timeout,
    on_packet_receive, on_packet_response, reply, AddressVerdicts, RECEIVE_REPLY_ID,
};
use catalyst_ibc_interface::payload::{
    CallData, CatalystV1Packet, DecodeError, SendAssetPayload, SendLiquidityPayload,
};
use catalyst_ibc_interface::vault_msg::VaultCall;
use catalyst_ibc_interface::wire::U256;

fn encoded(a: &[u8]) -> Vec<u8> {
    let mut v = vec![a.len() as u8];
    v.extend_from_slice(a);
    v.resize(65, 0);
    v
}

fn asset_bytes(from_amount: U256, from_asset: &[u8], calldata: Option<CallData>) -> Vec<u8> {
    CatalystV1Packet::SendAsset(SendAssetPayload {
        from_vault: b"wasm1sourcevault".to_vec(),
        to_vault: b"wasm1destvault".to_vec(),
        to_account: b"wasm1recipient".to_vec(),
        u: U256::new(3, 44),
        to_asset_index: 1,
        min_out: 250,
        from_amount,
        from_asset: from_asset.to_vec(),
        block_number: 4242,
        calldata,
    })
    .encode()
}

fn liquidity_bytes() -> Vec<u8> {
    CatalystV1Packet::SendLiquidity(SendLiquidityPayload {
        from_vault: b"wasm1sourcevault".to_vec(),
        to_vault: b"wasm1destvault".to_vec(),
        to_account: b"wasm1recipient".to_vec(),
        u: U256::from_u128(10),
        min_pool_tokens: 1,
        min_reference_asset: 2,
        from_amount: U256::from_u128(300),
        block_number: 9,
        calldata: None,
    })
    .encode()
}

fn all_valid() -> AddressVerdicts {
    AddressVerdicts {
        to_vault: Some("wasm1destvault".to_string()),
        to_account: Some("wasm1recipient".to_string()),
        calldata_target: Some("wasm1target".to_string()),
    }
}

#[test]
fn ack_bytes() {
    assert_eq!(ack_success(), vec![0]);
    assert_eq!(ack_fail(), vec![1]);
}

#[test]
fn malformed_packet_is_acknowledged_as_failure() {
    let r = ibc_packet_receive("channel-0".to_string(), &vec![7, 1, 2], all_valid());
    assert_eq!(r.ack, vec![1]);
    assert!(r.sub_msg.is_none());
    let r = ibc_packet_receive("channel-0".to_string(), &vec![], all_valid());
    assert_eq!(r.ack, vec![1]);
    assert!(r.sub_msg.is_none());
}

#[test]
fn receive_decode_error_is_reported() {
    let r = on_packet_receive("channel-0".to_string(), &vec![0; 10], all_valid());
    assert!(matches!(r, Err(ContractError::PayloadDecoding { error: DecodeError::TooShort })));
}

#[test]
fn invalid_destination_is_acknowledged_as_failure() {
    let data = asset_bytes(U256::from_u128(5), b"uatom", None);
    let mut v = all_valid();
    v.to_account = None;
    let r = ibc_packet_receive("channel-0".to_string(), &data, v);
    assert_eq!(r.ack, vec![1]);
    assert!(r.sub_msg.is_none());
    let mut v = all_valid();
    v.to_vault = None;
    assert!(matches!(
        on_packet_receive("channel-0".to_string(), &data, v),
        Err(ContractError::InvalidAddress)
    ));
}

#[test]
fn invalid_calldata_target_is_acknowledged_as_failure() {
    let cd = CallData { target: b"wasm1target".to_vec(), bytes: vec![1, 2] };
    let data = asset_bytes(U256::from_u128(5), b"uatom", Some(cd));
    let mut v = all_valid();
    v.calldata_target = None;
    let r = ibc_packet_receive("channel-0".to_string(), &data, v);
    assert_eq!(r.ack, vec![1]);
    assert!(r.sub_msg.is_none());
}

#[test]
fn asset_swap_issues_one_receive_asset_call() {
    let cd = CallData { target: b"wasm1target".to_vec(), bytes: vec![1, 2] };
    let data = asset_bytes(U256::new(1, 6), b"uatom", Some(cd));
    let r = ibc_packet_receive("channel-3".to_string(), &data, all_valid());
    assert_eq!(r.ack, vec![0]);
    let m = r.sub_msg.unwrap();
    assert_eq!(m.id, RECEIVE_REPLY_ID);
    assert_eq!(m.id, 0x100);
    assert_eq!(m.execute.contract_addr, "wasm1destvault");
    match m.execute.msg {
        VaultCall::ReceiveAsset {
            channel_id,
            from_vault,
            to_asset_index,
            to_account,
            u,
            min_out,
            from_amount,
            from_asset,
            from_block_number_mod,
            calldata_target,
            calldata,
        } => {
            assert_eq!(channel_id, "channel-3");
            assert_eq!(from_vault, encoded(b"wasm1sourcevault"));
            assert_eq!(to_asset_index, 1);
            assert_eq!(to_account, "wasm1recipient");
            assert_eq!(u, U256::new(3, 44));
            assert_eq!(min_out, 250);
            assert_eq!(from_amount, U256::new(1, 6));
            assert_eq!(from_asset, encoded(b"uatom"));
            assert_eq!(from_block_number_mod, 4242);
            assert_eq!(calldata_target, Some("wasm1target".to_string()));
            assert_eq!(calldata, Some(vec![1, 2]));
        }
        other => panic!("unexpected call {:?}", other),
    }
}

#[test]
fn liquidity_swap_issues_one_receive_liquidity_call() {
    let r = ibc_packet_receive("channel-3".to_string(), &liquidity_bytes(), all_valid());
    assert_eq!(r.ack, vec![0]);
    let m = r.sub_msg.unwrap();
    match m.execute.msg {
        VaultCall::ReceiveLiquidity {
            min_pool_tokens, min_reference_asset, from_amount, calldata_target, calldata, ..
        } => {
            assert_eq!(min_pool_tokens, 1);
            assert_eq!(min_reference_asset, 2);
            assert_eq!(from_amount, U256::from_u128(300));
            assert_eq!(calldata_target, None);
            assert_eq!(calldata, None);
        }
        other => panic!("unexpected call {:?}", other),
    }
}

#[test]
fn reply_failure_flips_ack() {
    assert_eq!(reply(RECEIVE_REPLY_ID, false).unwrap(), Some(vec![1]));
    assert_eq!(reply(RECEIVE_REPLY_ID, true).unwrap(), None);
}

#[test]
fn reply_unknown_id_fails() {
    assert!(matches!(reply(5, true), Err(ContractError::UnknownReplyId { id: 5 })));
}

fn expect_asset_verdict(call: Option<catalyst_ibc_interface::vault_msg::WasmExecute>, want_success: bool) {
    let w = call.expect("a call");
    assert_eq!(w.contract_addr, "wasm1sourcevault");
    let (success, channel_id, to_account, u, amount, asset, block) = match w.msg {
        VaultCall::OnSendAssetSuccess { channel_id, to_account, u, amount, asset, block_number_mod } => {
            (true, channel_id, to_account, u, amount, asset, block_number_mod)
        }
        VaultCall::OnSendAssetFailure { channel_id, to_account, u, amount, asset, block_number_mod } => {
            (false, channel_id, to_account, u, amount, asset, block_number_mod)
        }
        other => panic!("unexpected call {:?}", other),
    };
    assert_eq!(success, want_success);
    assert_eq!(channel_id, "channel-1");
    assert_eq!(to_account, encoded(b"wasm1recipient"));
    assert_eq!(u, U256::new(3, 44));
    assert_eq!(amount, 777);
    assert_eq!(asset, "uatom");
    assert_eq!(block, 4242);
}

#[test]
fn success_ack_notifies_success() {
    let data = asset_bytes(U256::from_u128(777), b"uatom", None);
    let r = ibc_packet_ack("channel-1".to_string(), &data, &vec![0], Some("wasm1sourcevault".to_string()));
    expect_asset_verdict(r, true);
}

#[test]
fn failure_ack_notifies_failure() {
    let data = asset_bytes(U256::from_u128(777), b"uatom", None);
    let r = ibc_packet_ack("channel-1".to_string(), &data, &vec![1, 0xff], Some("wasm1sourcevault".to_string()));
    expect_asset_verdict(r, false);
}

#[test]
fn timeout_notifies_failure() {
    let data = asset_bytes(U256::from_u128(777), b"uatom", None);
    let r = ibc_packet_timeout("channel-1".to_string(), &data, Some("wasm1sourcevault".to_string()));
    expect_asset_verdict(r, false);
}

#[test]
fn unknown_or_empty_ack_is_ignored() {
    let data = asset_bytes(U256::from_u128(777), b"uatom", None);
    let v = Some("wasm1sourcevault".to_string());
    assert!(ibc_packet_ack("channel-1".to_string(), &data, &vec![2], v.clone()).is_none());
    assert!(ibc_packet_ack("channel-1".to_string(), &data, &vec![], v).is_none());
}

#[test]
fn unreadable_sent_packet_is_absorbed() {
    let v = Some("wasm1sourcevault".to_string());
    assert!(ibc_packet_ack("channel-1".to_string(), &vec![9, 9], &vec![0], v.clone()).is_none());
    let big = asset_bytes(U256::new(1, 0), b"uatom", None);
    assert!(ibc_packet_timeout("channel-1".to_string(), &big, v.clone()).is_none());
    let r = on_packet_response("channel-1".to_string(), &big, true, v.clone());
    assert!(matches!(
        r,
        Err(ContractError::PayloadDecoding { error: DecodeError::AmountOutOfRange })
    ));
    let not_text = asset_bytes(U256::from_u128(1), &[0xff, 0xfe], None);
    assert!(matches!(
        on_packet_response("channel-1".to_string(), &not_text, true, v),
        Err(ContractError::InvalidAssetEncoding)
    ));
    let data = asset_bytes(U256::from_u128(777), b"uatom", None);
    assert!(ibc_packet_ack("channel-1".to_string(), &data, &vec![0], None).is_none());
}

#[test]
fn liquidity_ack_notifies_vault() {
    let v = Some("wasm1sourcevault".to_string());
    let r = ibc_packet_ack("channel-1".to_string(), &liquidity_bytes(), &vec![0], v.clone());
    match r.unwrap().msg {
        VaultCall::OnSendLiquiditySuccess { amount, u, block_number_mod, .. } => {
            assert_eq!(amount, 300);
            assert_eq!(u, U256::from_u128(10));
            assert_eq!(block_number_mod, 9);
        }
        other => panic!("unexpected call {:?}", other),
    }
    let r = ibc_packet_timeout("channel-1".to_string(), &liquidity_bytes(), v);
    assert!(matches!(r.unwrap().msg, VaultCall::OnSendLiquidityFailure { amount: 300, .. }));
}
