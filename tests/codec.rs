use catalyst_ibc_interface::payload::{
    CallData, CatalystV1Packet, DecodeError, SendAssetPayload, SendLiquidityPayload,
};
use catalyst_ibc_interface::wire::U256;

fn asset_packet(calldata: Option<CallData>) -> CatalystV1Packet {
    CatalystV1Packet::SendAsset(SendAssetPayload {
        from_vault: b"0xabcdef0123".to_vec(),
        to_vault: b"wasm1vaultaddress".to_vec(),
        to_account: b"wasm1account".to_vec(),
        u: U256::new(7, 123456789),
        to_asset_index: 2,
        min_out: 1000,
        from_amount: U256::new(1, 5),
        from_asset: b"uatom".to_vec(),
        block_number: 0x01020304,
        calldata,
    })
}

fn liquidity_packet() -> CatalystV1Packet {
    CatalystV1Packet::SendLiquidity(SendLiquidityPayload {
        from_vault: b"0xabcdef0123".to_vec(),
        to_vault: b"wasm1vaultaddress".to_vec(),
        to_account: b"wasm1account".to_vec(),
        u: U256::from_u128(99),
        min_pool_tokens: 11,
        min_reference_asset: 12,
        from_amount: U256::from_u128(500),
        block_number: 77,
        calldata: None,
    })
}

#[test]
fn asset_swap_round_trip() {
    let cd = CallData { target: b"wasm1target".to_vec(), bytes: vec![9, 8, 7] };
    let bytes = asset_packet(Some(cd)).encode();
    assert_eq!(bytes.len(), 364 + 65 + 3);
    match CatalystV1Packet::try_decode(&bytes).unwrap() {
        CatalystV1Packet::SendAsset(a) => {
            assert_eq!(a.from_vault, b"0xabcdef0123".to_vec());
            assert_eq!(a.to_vault, b"wasm1vaultaddress".to_vec());
            assert_eq!(a.to_account, b"wasm1account".to_vec());
            assert_eq!(a.u, U256::new(7, 123456789));
            assert_eq!(a.to_asset_index, 2);
            assert_eq!(a.min_out, 1000);
            assert_eq!(a.from_amount, U256::new(1, 5));
            assert_eq!(a.from_asset, b"uatom".to_vec());
            assert_eq!(a.block_number, 0x01020304);
            let cd = a.calldata.unwrap();
            assert_eq!(cd.target, b"wasm1target".to_vec());
            assert_eq!(cd.bytes, vec![9, 8, 7]);
        }
        _ => panic!("expected an asset swap"),
    }
}

#[test]
fn liquidity_swap_round_trip() {
    let bytes = liquidity_packet().encode();
    assert_eq!(bytes.len(), 330);
    match CatalystV1Packet::try_decode(&bytes).unwrap() {
        CatalystV1Packet::SendLiquidity(l) => {
            assert_eq!(l.from_vault, b"0xabcdef0123".to_vec());
            assert_eq!(l.to_account, b"wasm1account".to_vec());
            assert_eq!(l.u, U256::from_u128(99));
            assert_eq!(l.min_pool_tokens, 11);
            assert_eq!(l.min_reference_asset, 12);
            assert_eq!(l.from_amount, U256::from_u128(500));
            assert_eq!(l.block_number, 77);
            assert!(l.calldata.is_none());
        }
        _ => panic!("expected a liquidity swap"),
    }
}

#[test]
fn encoding_layout_is_fixed() {
    let bytes = asset_packet(None).encode();
    assert_eq!(bytes.len(), 364);
    assert_eq!(bytes[0], 0);
    // from vault: length, bytes, zero padding
    assert_eq!(bytes[1], 12);
    assert_eq!(&bytes[2..14], b"0xabcdef0123");
    assert!(bytes[14..66].iter().all(|b| *b == 0));
    // units: high half 7, low half 123456789, big-endian
    assert_eq!(bytes[196 + 15], 7);
    assert_eq!(&bytes[196 + 28..228], &123456789u32.to_be_bytes());
    assert_eq!(bytes[228], 2);
    // min out 1000 in 32 bytes
    assert!(bytes[229..259].iter().all(|b| *b == 0));
    assert_eq!(&bytes[259..261], &[0x03, 0xe8]);
    assert_eq!(&bytes[358..362], &[1, 2, 3, 4]);
    assert_eq!(&bytes[362..364], &[0, 0]);
}

#[test]
fn empty_buffer_is_too_short() {
    assert_eq!(CatalystV1Packet::try_decode(&vec![]).unwrap_err(), DecodeError::TooShort);
}

#[test]
fn short_buffers_are_refused() {
    assert_eq!(CatalystV1Packet::try_decode(&vec![0u8; 363]).unwrap_err(), DecodeError::TooShort);
    let mut b = vec![0u8; 329];
    b[0] = 1;
    assert_eq!(CatalystV1Packet::try_decode(&b).unwrap_err(), DecodeError::TooShort);
}

#[test]
fn unknown_kind_is_refused() {
    let mut bytes = asset_packet(None).encode();
    bytes[0] = 2;
    assert_eq!(CatalystV1Packet::try_decode(&bytes).unwrap_err(), DecodeError::UnknownKind);
    assert_eq!(CatalystV1Packet::try_decode(&vec![0xff]).unwrap_err(), DecodeError::UnknownKind);
}

#[test]
fn trailing_bytes_are_a_length_mismatch() {
    let mut bytes = asset_packet(None).encode();
    bytes.push(0);
    assert_eq!(CatalystV1Packet::try_decode(&bytes).unwrap_err(), DecodeError::LengthMismatch);
}

#[test]
fn oversized_min_out_is_out_of_range() {
    let mut bytes = asset_packet(None).encode();
    bytes[229] = 1;
    assert_eq!(CatalystV1Packet::try_decode(&bytes).unwrap_err(), DecodeError::AmountOutOfRange);
}

#[test]
fn oversized_min_reference_asset_is_out_of_range() {
    let mut bytes = liquidity_packet().encode();
    bytes[260 + 15] = 1;
    assert_eq!(CatalystV1Packet::try_decode(&bytes).unwrap_err(), DecodeError::AmountOutOfRange);
}

#[test]
fn oversized_from_amount_still_decodes() {
    let bytes = asset_packet(None).encode();
    // the from amount is carried as 256 bits: a high half is kept
    match CatalystV1Packet::try_decode(&bytes).unwrap() {
        CatalystV1Packet::SendAsset(a) => assert_eq!(a.from_amount.to_u128(), None),
        _ => panic!("expected an asset swap"),
    }
}

#[test]
fn bad_address_length_is_refused() {
    let mut bytes = asset_packet(None).encode();
    bytes[66] = 65;
    assert_eq!(CatalystV1Packet::try_decode(&bytes).unwrap_err(), DecodeError::InvalidAddress);
}

#[test]
fn nonzero_address_padding_is_refused() {
    let mut bytes = asset_packet(None).encode();
    bytes[65] = 1;
    assert_eq!(CatalystV1Packet::try_decode(&bytes).unwrap_err(), DecodeError::InvalidAddress);
}

#[test]
fn short_calldata_is_refused() {
    let mut bytes = liquidity_packet().encode();
    bytes[329] = 3;
    bytes.extend_from_slice(&[1, 2, 3]);
    assert_eq!(CatalystV1Packet::try_decode(&bytes).unwrap_err(), DecodeError::InvalidCalldata);
}

#[test]
fn u256_to_u128_bounds() {
    assert_eq!(U256::new(0, u128::MAX).to_u128(), Some(u128::MAX));
    assert_eq!(U256::new(1, 0).to_u128(), None);
}
