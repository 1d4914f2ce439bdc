//! The binary swap payload: one discriminant byte followed by a record of
//! fixed offsets, and a trailing block of call data of declared length.
//!
//! Layout, by byte offset:
//!
//! | field               | asset swap | liquidity swap |
//! |---------------------|------------|----------------|
//! | kind                | 0          | 0              |
//! | from vault          | 1..66      | 1..66          |
//! | to vault            | 66..131    | 66..131        |
//! | to account          | 131..196   | 131..196       |
//! | units               | 196..228   | 196..228       |
//! | to asset index      | 228        |                |
//! | min out             | 229..261   |                |
//! | min pool tokens     |            | 228..260       |
//! | min reference asset |            | 260..292       |
//! | from amount         | 261..293   | 292..324       |
//! | from asset          | 293..358   |                |
//! | block number        | 358..362   | 324..328       |
//! | call data length    | 362..364   | 328..330       |
//! | call data           | 364..      | 330..          |
//!
//! An address takes 65 bytes: its length (at most 64), its bytes, then zeros.
//! Numbers are big-endian. Call data, when present, is an address (the target
//! of the forwarded call) followed by the bytes handed to it.
use vstd::prelude::*;
use crate::wire::{
    U256, be_bytes, be_value, lemma_be_bytes_len, lemma_be_round_trip, lemma_be_value_bound,
    lemma_radix_pow_16, lemma_u256_of_value, lemma_u256_round_trip, radix_pow, read_be, read_u256,
    u256_bytes, u256_of, write_be, write_u256,
};

verus! {

/// The discriminant of an asset swap.
pub const SEND_ASSET_KIND: u8 = 0;

/// The discriminant of a liquidity swap.
pub const SEND_LIQUIDITY_KIND: u8 = 1;

/// The longest address a payload can carry.
pub const MAX_ADDRESS_LEN: usize = 64;

/// Bytes taken by one address on the wire.
pub const ENCODED_ADDRESS_LEN: usize = 65;

/// Bytes before the call data of an asset swap.
pub const SEND_ASSET_HEADER_LEN: usize = 364;

/// Bytes before the call data of a liquidity swap; no payload is shorter.
pub const SEND_LIQUIDITY_HEADER_LEN: usize = 330;

/// The longest call data block (its length is written in two bytes).
pub const MAX_CALLDATA_LEN: usize = 65535;

/// Why a byte buffer is not a payload.
#[derive(Clone, Copy, Debug, PartialEq, Eq, Structural)]
pub enum DecodeError {
    /// Shorter than the record its discriminant selects (or empty).
    TooShort,
    /// The first byte selects no known instruction.
    UnknownKind,
    /// The buffer's length disagrees with the declared call data length.
    LengthMismatch,
    /// An address field declares more than 64 bytes or is not zero-padded.
    InvalidAddress,
    /// Call data too short to hold its target address.
    InvalidCalldata,
    /// A minimum-output amount does not fit in 128 bits.
    AmountOutOfRange,
}

/// A call to make once the swap has completed.
#[derive(Debug)]
pub struct CallData {
    pub target: Vec<u8>,
    pub bytes: Vec<u8>,
}

/// An asset swap: units of value sent to be paid out in one asset.
#[derive(Debug)]
pub struct SendAssetPayload {
    pub from_vault: Vec<u8>,
    pub to_vault: Vec<u8>,
    pub to_account: Vec<u8>,
    pub u: U256,
    pub to_asset_index: u8,
    pub min_out: u128,
    pub from_amount: U256,
    pub from_asset: Vec<u8>,
    pub block_number: u32,
    pub calldata: Option<CallData>,
}

/// A liquidity swap: units of value sent to be paid out in pool tokens.
#[derive(Debug)]
pub struct SendLiquidityPayload {
    pub from_vault: Vec<u8>,
    pub to_vault: Vec<u8>,
    pub to_account: Vec<u8>,
    pub u: U256,
    pub min_pool_tokens: u128,
    pub min_reference_asset: u128,
    pub from_amount: U256,
    pub block_number: u32,
    pub calldata: Option<CallData>,
}

/// A swap instruction, as carried by one packet.
#[derive(Debug)]
pub enum CatalystV1Packet {
    SendAsset(SendAssetPayload),
    SendLiquidity(SendLiquidityPayload),
}

/// The model of call data: its target and bytes as sequences.
pub struct CallDataView {
    pub target: Seq<u8>,
    pub bytes: Seq<u8>,
}

/// The model of an asset swap.
pub struct SendAssetView {
    pub from_vault: Seq<u8>,
    pub to_vault: Seq<u8>,
    pub to_account: Seq<u8>,
    pub u: U256,
    pub to_asset_index: u8,
    pub min_out: u128,
    pub from_amount: U256,
    pub from_asset: Seq<u8>,
    pub block_number: u32,
    pub calldata: Option<CallDataView>,
}

/// The model of a liquidity swap.
pub struct SendLiquidityView {
    pub from_vault: Seq<u8>,
    pub to_vault: Seq<u8>,
    pub to_account: Seq<u8>,
    pub u: U256,
    pub min_pool_tokens: u128,
    pub min_reference_asset: u128,
    pub from_amount: U256,
    pub block_number: u32,
    pub calldata: Option<CallDataView>,
}

/// The model of a swap instruction.
pub enum PacketView {
    SendAsset(SendAssetView),
    SendLiquidity(SendLiquidityView),
}

impl View for CallData {
    type V = CallDataView;

    open spec fn view(&self) -> CallDataView {
        CallDataView { target: self.target@, bytes: self.bytes@ }
    }
}

pub open spec fn calldata_view(c: Option<CallData>) -> Option<CallDataView> {
    match c {
        Some(d) => Some(d@),
        None => None,
    }
}

impl View for SendAssetPayload {
    type V = SendAssetView;

    open spec fn view(&self) -> SendAssetView {
        SendAssetView {
            from_vault: self.from_vault@,
            to_vault: self.to_vault@,
            to_account: self.to_account@,
            u: self.u,
            to_asset_index: self.to_asset_index,
            min_out: self.min_out,
            from_amount: self.from_amount,
            from_asset: self.from_asset@,
            block_number: self.block_number,
            calldata: calldata_view(self.calldata),
        }
    }
}

impl View for SendLiquidityPayload {
    type V = SendLiquidityView;

    open spec fn view(&self) -> SendLiquidityView {
        SendLiquidityView {
            from_vault: self.from_vault@,
            to_vault: self.to_vault@,
            to_account: self.to_account@,
            u: self.u,
            min_pool_tokens: self.min_pool_tokens,
            min_reference_asset: self.min_reference_asset,
            from_amount: self.from_amount,
            block_number: self.block_number,
            calldata: calldata_view(self.calldata),
        }
    }
}

impl View for CatalystV1Packet {
    type V = PacketView;

    open spec fn view(&self) -> PacketView {
        match self {
            CatalystV1Packet::SendAsset(p) => PacketView::SendAsset(p@),
            CatalystV1Packet::SendLiquidity(p) => PacketView::SendLiquidity(p@),
        }
    }
}

pub open spec fn decoded_view(r: Result<CatalystV1Packet, DecodeError>) -> Result<
    PacketView,
    DecodeError,
> {
    match r {
        Ok(p) => Ok(p@),
        Err(e) => Err(e),
    }
}

// ---------------------------------------------------------------------------
// The format, as spec functions over byte strings.

/// `len` bytes of `b` from `start`.
pub open spec fn field(b: Seq<u8>, start: int, len: int) -> Seq<u8> {
    b.subrange(start, start + len)
}

/// The 65 bytes that carry an address.
pub open spec fn encode_address(a: Seq<u8>) -> Seq<u8> {
    seq![a.len() as u8] + a + Seq::new((64 - a.len()) as nat, |_i: int| 0u8)
}

/// 65 bytes carry an address: a length of at most 64, then zero padding.
pub open spec fn address_ok(e: Seq<u8>) -> bool {
    &&& e[0] <= 64
    &&& forall|i: int| 1 + e[0] <= i < 65 ==> e[i] == 0
}

/// The address that 65 well-formed bytes carry.
pub open spec fn address_of(e: Seq<u8>) -> Seq<u8> {
    e.subrange(1, 1 + e[0] as int)
}

/// The call data block of a payload.
pub open spec fn encode_calldata(c: Option<CallDataView>) -> Seq<u8> {
    match c {
        Some(d) => encode_address(d.target) + d.bytes,
        None => Seq::empty(),
    }
}

/// What a call data block holds: nothing when empty, else a target and bytes.
pub open spec fn calldata_of(c: Seq<u8>) -> Result<Option<CallDataView>, DecodeError> {
    if c.len() == 0 {
        Ok(None)
    } else if c.len() < 65 {
        Err(DecodeError::InvalidCalldata)
    } else if !address_ok(c.subrange(0, 65)) {
        Err(DecodeError::InvalidAddress)
    } else {
        Ok(Some(CallDataView { target: address_of(c.subrange(0, 65)), bytes: c.subrange(65, c.len() as int) }))
    }
}

/// A minimum-output amount: written in 32 bytes, held in 128 bits.
pub open spec fn amount_bytes(x: u128) -> Seq<u8> {
    u256_bytes(U256 { hi: 0, lo: x })
}

pub open spec fn valid_calldata(c: Option<CallDataView>) -> bool {
    match c {
        Some(d) => d.target.len() <= 64 && 65 + d.bytes.len() <= 65535,
        None => true,
    }
}

/// An instruction can be written: its addresses fit, and so does its call data.
pub open spec fn valid_packet(p: PacketView) -> bool {
    match p {
        PacketView::SendAsset(a) => {
            &&& a.from_vault.len() <= 64
            &&& a.to_vault.len() <= 64
            &&& a.to_account.len() <= 64
            &&& a.from_asset.len() <= 64
            &&& valid_calldata(a.calldata)
        },
        PacketView::SendLiquidity(l) => {
            &&& l.from_vault.len() <= 64
            &&& l.to_vault.len() <= 64
            &&& l.to_account.len() <= 64
            &&& valid_calldata(l.calldata)
        },
    }
}

/// The bytes of an instruction.
pub open spec fn encode_packet(p: PacketView) -> Seq<u8> {
    match p {
        PacketView::SendAsset(a) => {
            let cd = encode_calldata(a.calldata);
            seq![0u8] + encode_address(a.from_vault) + encode_address(a.to_vault) + encode_address(
                a.to_account,
            ) + u256_bytes(a.u) + seq![a.to_asset_index] + amount_bytes(a.min_out) + u256_bytes(
                a.from_amount,
            ) + encode_address(a.from_asset) + be_bytes(a.block_number as nat, 4) + be_bytes(
                cd.len(),
                2,
            ) + cd
        },
        PacketView::SendLiquidity(l) => {
            let cd = encode_calldata(l.calldata);
            seq![1u8] + encode_address(l.from_vault) + encode_address(l.to_vault) + encode_address(
                l.to_account,
            ) + u256_bytes(l.u) + amount_bytes(l.min_pool_tokens) + amount_bytes(
                l.min_reference_asset,
            ) + u256_bytes(l.from_amount) + be_bytes(l.block_number as nat, 4) + be_bytes(
                cd.len(),
                2,
            ) + cd
        },
    }
}

/// What the bytes of an asset swap hold.
pub open spec fn decode_send_asset(b: Seq<u8>) -> Result<PacketView, DecodeError> {
    if b.len() < 364 {
        Err(DecodeError::TooShort)
    } else if b.len() != 364 + be_value(field(b, 362, 2)) {
        Err(DecodeError::LengthMismatch)
    } else if !address_ok(field(b, 1, 65)) || !address_ok(field(b, 66, 65)) || !address_ok(
        field(b, 131, 65),
    ) || !address_ok(field(b, 293, 65)) {
        Err(DecodeError::InvalidAddress)
    } else {
        match calldata_of(b.subrange(364, b.len() as int)) {
            Err(e) => Err(e),
            Ok(cd) => if be_value(field(b, 229, 32)) > u128::MAX {
                Err(DecodeError::AmountOutOfRange)
            } else {
                Ok(
                    PacketView::SendAsset(
                        SendAssetView {
                            from_vault: address_of(field(b, 1, 65)),
                            to_vault: address_of(field(b, 66, 65)),
                            to_account: address_of(field(b, 131, 65)),
                            u: u256_of(field(b, 196, 32)),
                            to_asset_index: b[228],
                            min_out: be_value(field(b, 229, 32)) as u128,
                            from_amount: u256_of(field(b, 261, 32)),
                            from_asset: address_of(field(b, 293, 65)),
                            block_number: be_value(field(b, 358, 4)) as u32,
                            calldata: cd,
                        },
                    ),
                )
            },
        }
    }
}

/// What the bytes of a liquidity swap hold.
pub open spec fn decode_send_liquidity(b: Seq<u8>) -> Result<PacketView, DecodeError> {
    if b.len() < 330 {
        Err(DecodeError::TooShort)
    } else if b.len() != 330 + be_value(field(b, 328, 2)) {
        Err(DecodeError::LengthMismatch)
    } else if !address_ok(field(b, 1, 65)) || !address_ok(field(b, 66, 65)) || !address_ok(
        field(b, 131, 65),
    ) {
        Err(DecodeError::InvalidAddress)
    } else {
        match calldata_of(b.subrange(330, b.len() as int)) {
            Err(e) => Err(e),
            Ok(cd) => if be_value(field(b, 228, 32)) > u128::MAX || be_value(field(b, 260, 32))
                > u128::MAX {
                Err(DecodeError::AmountOutOfRange)
            } else {
                Ok(
                    PacketView::SendLiquidity(
                        SendLiquidityView {
                            from_vault: address_of(field(b, 1, 65)),
                            to_vault: address_of(field(b, 66, 65)),
                            to_account: address_of(field(b, 131, 65)),
                            u: u256_of(field(b, 196, 32)),
                            min_pool_tokens: be_value(field(b, 228, 32)) as u128,
                            min_reference_asset: be_value(field(b, 260, 32)) as u128,
                            from_amount: u256_of(field(b, 292, 32)),
                            block_number: be_value(field(b, 324, 4)) as u32,
                            calldata: cd,
                        },
                    ),
                )
            },
        }
    }
}

/// What a byte buffer holds: an instruction, or why it holds none.
pub open spec fn decode_packet(b: Seq<u8>) -> Result<PacketView, DecodeError> {
    if b.len() == 0 {
        Err(DecodeError::TooShort)
    } else if b[0] == 0 {
        decode_send_asset(b)
    } else if b[0] == 1 {
        decode_send_liquidity(b)
    } else {
        Err(DecodeError::UnknownKind)
    }
}

// ---------------------------------------------------------------------------
// Reading and writing fields.

fn copy_range(b: &Vec<u8>, start: usize, end: usize) -> (r: Vec<u8>)
    requires
        start <= end <= b@.len(),
    ensures
        r@ == b@.subrange(start as int, end as int),
{
    let mut r: Vec<u8> = Vec::new();
    let mut i: usize = start;
    while i < end
        invariant
            start <= i <= end <= b@.len(),
            r@ == b@.subrange(start as int, i as int),
        decreases end - i,
    {
        r.push(b[i]);
        i = i + 1;
        assert(r@ =~= b@.subrange(start as int, i as int));
    }
    r
}

fn read_address(b: &Vec<u8>, start: usize) -> (r: Option<Vec<u8>>)
    requires
        start + 65 <= b@.len(),
    ensures
        match r {
            Some(a) => address_ok(field(b@, start as int, 65)) && a@ == address_of(
                field(b@, start as int, 65),
            ),
            None => !address_ok(field(b@, start as int, 65)),
        },
{
    let ghost e = field(b@, start as int, 65);
    let len = b.len();
    let n = b[start];
    if n > 64 {
        return None;
    }
    let end: usize = start + 1 + n as usize;
    let mut i: usize = end;
    let stop: usize = start + 65;
    while i < stop
        invariant
            stop == start + 65,
            end <= i <= start + 65,
            start + 65 <= b@.len(),
            end == start + 1 + e[0],
            e == field(b@, start as int, 65),
            forall|j: int| 1 + e[0] <= j < i - start ==> e[j] == 0,
        decreases start + 65 - i,
    {
        if b[i] != 0 {
            assert(e[i - start] != 0);
            return None;
        }
        i = i + 1;
    }
    let a = copy_range(b, start + 1, end);
    assert(a@ =~= address_of(e));
    Some(a)
}

pub(crate) fn write_address(out: &mut Vec<u8>, a: &Vec<u8>)
    requires
        a@.len() <= 64,
    ensures
        final(out)@ == old(out)@ + encode_address(a@),
{
    let ghost start = out@;
    let n = a.len();
    out.push(n as u8);
    let mut i: usize = 0;
    while i < n
        invariant
            i <= n == a@.len() <= 64,
            out@ == start + seq![n as u8] + a@.subrange(0, i as int),
        decreases n - i,
    {
        out.push(a[i]);
        i = i + 1;
        assert(out@ =~= start + seq![n as u8] + a@.subrange(0, i as int));
    }
    let mut k: usize = n;
    while k < 64
        invariant
            n <= k <= 64,
            n == a@.len(),
            out@ == start + seq![n as u8] + a@ + Seq::new((k - n) as nat, |_i: int| 0u8),
        decreases 64 - k,
    {
        out.push(0u8);
        k = k + 1;
        assert(out@ =~= start + seq![n as u8] + a@ + Seq::new((k - n) as nat, |_i: int| 0u8));
    }
    assert(out@ =~= start + encode_address(a@));
}

pub open spec fn calldata_result_view(r: Result<Option<CallData>, DecodeError>) -> Result<
    Option<CallDataView>,
    DecodeError,
> {
    match r {
        Ok(c) => Ok(calldata_view(c)),
        Err(e) => Err(e),
    }
}

fn read_calldata(b: &Vec<u8>, start: usize) -> (r: Result<Option<CallData>, DecodeError>)
    requires
        start <= b@.len(),
    ensures
        calldata_result_view(r) == calldata_of(b@.subrange(start as int, b@.len() as int)),
{
    let ghost c = b@.subrange(start as int, b@.len() as int);
    let len = b.len();
    if len == start {
        return Ok(None);
    }
    if len - start < 65 {
        return Err(DecodeError::InvalidCalldata);
    }
    proof {
        assert(c.subrange(0, 65) =~= field(b@, start as int, 65));
    }
    match read_address(b, start) {
        None => Err(DecodeError::InvalidAddress),
        Some(target) => {
            let bytes = copy_range(b, start + 65, len);
            assert(bytes@ =~= c.subrange(65, c.len() as int));
            Ok(Some(CallData { target, bytes }))
        },
    }
}

fn write_calldata(out: &mut Vec<u8>, c: &Option<CallData>)
    requires
        valid_calldata(calldata_view(*c)),
    ensures
        final(out)@ == old(out)@ + encode_calldata(calldata_view(*c)),
{
    match c {
        None => {
            assert(out@ + Seq::<u8>::empty() =~= out@);
        },
        Some(d) => {
            let ghost start = out@;
            write_address(out, &d.target);
            let mut i: usize = 0;
            let n = d.bytes.len();
            while i < n
                invariant
                    i <= n == d.bytes@.len(),
                    out@ == start + encode_address(d.target@) + d.bytes@.subrange(0, i as int),
                decreases n - i,
            {
                out.push(d.bytes[i]);
                i = i + 1;
                assert(out@ =~= start + encode_address(d.target@) + d.bytes@.subrange(0, i as int));
            }
            assert(d.bytes@.subrange(0, n as int) =~= d.bytes@);
            assert(out@ =~= start + encode_calldata(calldata_view(*c)));
        },
    }
}

/// Reads a 32-byte minimum-output amount into 128 bits.
fn read_amount(b: &Vec<u8>, start: usize) -> (r: Option<u128>)
    requires
        start + 32 <= b@.len(),
    ensures
        match r {
            Some(x) => be_value(field(b@, start as int, 32)) <= u128::MAX && x == be_value(
                field(b@, start as int, 32),
            ),
            None => be_value(field(b@, start as int, 32)) > u128::MAX,
        },
{
    let v = read_u256(b, start);
    proof {
        lemma_u256_of_value(field(b@, start as int, 32));
    }
    v.to_u128()
}

proof fn lemma_encode_address_len(a: Seq<u8>)
    requires
        a.len() <= 64,
    ensures
        encode_address(a).len() == 65,
{
}

proof fn lemma_calldata_len(c: Option<CallDataView>)
    requires
        valid_calldata(c),
    ensures
        encode_calldata(c).len() == match c {
            Some(d) => 65 + d.bytes.len(),
            None => 0,
        },
        encode_calldata(c).len() <= 65535,
{
    if let Some(d) = c {
        lemma_encode_address_len(d.target);
    }
}

fn calldata_len(c: &Option<CallData>) -> (r: u128)
    requires
        valid_calldata(calldata_view(*c)),
    ensures
        r == encode_calldata(calldata_view(*c)).len(),
        r <= 65535,
{
    proof {
        lemma_calldata_len(calldata_view(*c));
    }
    match c {
        None => 0,
        Some(d) => 65 + d.bytes.len() as u128,
    }
}

fn decode_asset(b: &Vec<u8>) -> (r: Result<CatalystV1Packet, DecodeError>)
    ensures
        decoded_view(r) == decode_send_asset(b@),
{
    let len = b.len();
    if len < SEND_ASSET_HEADER_LEN {
        return Err(DecodeError::TooShort);
    }
    let cd_len = read_be(b, 362, 2);
    proof {
        lemma_be_value_bound(field(b@, 362, 2));
        lemma_radix_pow_16();
    }
    if len as u128 != 364 + cd_len {
        return Err(DecodeError::LengthMismatch);
    }
    let from_vault = match read_address(b, 1) {
        Some(a) => a,
        None => return Err(DecodeError::InvalidAddress),
    };
    let to_vault = match read_address(b, 66) {
        Some(a) => a,
        None => return Err(DecodeError::InvalidAddress),
    };
    let to_account = match read_address(b, 131) {
        Some(a) => a,
        None => return Err(DecodeError::InvalidAddress),
    };
    let from_asset = match read_address(b, 293) {
        Some(a) => a,
        None => return Err(DecodeError::InvalidAddress),
    };
    let calldata = match read_calldata(b, SEND_ASSET_HEADER_LEN) {
        Ok(c) => c,
        Err(e) => return Err(e),
    };
    let min_out = match read_amount(b, 229) {
        Some(x) => x,
        None => return Err(DecodeError::AmountOutOfRange),
    };
    let u = read_u256(b, 196);
    let from_amount = read_u256(b, 261);
    let block = read_be(b, 358, 4);
    proof {
        lemma_be_value_bound(field(b@, 358, 4));
    }
    let p = SendAssetPayload {
        from_vault,
        to_vault,
        to_account,
        u,
        to_asset_index: b[228],
        min_out,
        from_amount,
        from_asset,
        block_number: block as u32,
        calldata,
    };
    Ok(CatalystV1Packet::SendAsset(p))
}

fn decode_liquidity(b: &Vec<u8>) -> (r: Result<CatalystV1Packet, DecodeError>)
    ensures
        decoded_view(r) == decode_send_liquidity(b@),
{
    let len = b.len();
    if len < SEND_LIQUIDITY_HEADER_LEN {
        return Err(DecodeError::TooShort);
    }
    let cd_len = read_be(b, 328, 2);
    proof {
        lemma_be_value_bound(field(b@, 328, 2));
        lemma_radix_pow_16();
    }
    if len as u128 != 330 + cd_len {
        return Err(DecodeError::LengthMismatch);
    }
    let from_vault = match read_address(b, 1) {
        Some(a) => a,
        None => return Err(DecodeError::InvalidAddress),
    };
    let to_vault = match read_address(b, 66) {
        Some(a) => a,
        None => return Err(DecodeError::InvalidAddress),
    };
    let to_account = match read_address(b, 131) {
        Some(a) => a,
        None => return Err(DecodeError::InvalidAddress),
    };
    let calldata = match read_calldata(b, SEND_LIQUIDITY_HEADER_LEN) {
        Ok(c) => c,
        Err(e) => return Err(e),
    };
    let min_pool_tokens = match read_amount(b, 228) {
        Some(x) => x,
        None => return Err(DecodeError::AmountOutOfRange),
    };
    let min_reference_asset = match read_amount(b, 260) {
        Some(x) => x,
        None => return Err(DecodeError::AmountOutOfRange),
    };
    let u = read_u256(b, 196);
    let from_amount = read_u256(b, 292);
    let block = read_be(b, 324, 4);
    proof {
        lemma_be_value_bound(field(b@, 324, 4));
    }
    let p = SendLiquidityPayload {
        from_vault,
        to_vault,
        to_account,
        u,
        min_pool_tokens,
        min_reference_asset,
        from_amount,
        block_number: block as u32,
        calldata,
    };
    Ok(CatalystV1Packet::SendLiquidity(p))
}

impl CatalystV1Packet {
    /// Reads the instruction that the bytes of a packet carry.
    pub fn try_decode(data: &Vec<u8>) -> (r: Result<CatalystV1Packet, DecodeError>)
        ensures
            decoded_view(r) == decode_packet(data@),
    {
        let len = data.len();
        if len == 0 {
            return Err(DecodeError::TooShort);
        }
        let kind = data[0];
        if kind == SEND_ASSET_KIND {
            decode_asset(data)
        } else if kind == SEND_LIQUIDITY_KIND {
            decode_liquidity(data)
        } else {
            Err(DecodeError::UnknownKind)
        }
    }

    /// Writes the instruction as the bytes of a packet.
    pub fn encode(&self) -> (r: Vec<u8>)
        requires
            valid_packet(self@),
        ensures
            r@ == encode_packet(self@),
    {
        proof {
            lemma_radix_pow_16();
        }
        let mut out: Vec<u8> = Vec::new();
        match self {
            CatalystV1Packet::SendAsset(a) => {
                out.push(SEND_ASSET_KIND);
                write_address(&mut out, &a.from_vault);
                write_address(&mut out, &a.to_vault);
                write_address(&mut out, &a.to_account);
                write_u256(&mut out, a.u);
                out.push(a.to_asset_index);
                write_u256(&mut out, U256 { hi: 0, lo: a.min_out });
                write_u256(&mut out, a.from_amount);
                write_address(&mut out, &a.from_asset);
                write_be(&mut out, a.block_number as u128, 4);
                let cd_len = calldata_len(&a.calldata);
                write_be(&mut out, cd_len, 2);
                write_calldata(&mut out, &a.calldata);
                assert(out@ =~= encode_packet(self@));
            },
            CatalystV1Packet::SendLiquidity(l) => {
                out.push(SEND_LIQUIDITY_KIND);
                write_address(&mut out, &l.from_vault);
                write_address(&mut out, &l.to_vault);
                write_address(&mut out, &l.to_account);
                write_u256(&mut out, l.u);
                write_u256(&mut out, U256 { hi: 0, lo: l.min_pool_tokens });
                write_u256(&mut out, U256 { hi: 0, lo: l.min_reference_asset });
                write_u256(&mut out, l.from_amount);
                write_be(&mut out, l.block_number as u128, 4);
                let cd_len = calldata_len(&l.calldata);
                write_be(&mut out, cd_len, 2);
                write_calldata(&mut out, &l.calldata);
                assert(out@ =~= encode_packet(self@));
            },
        }
        out
    }
}

proof fn lemma_address_round_trip(a: Seq<u8>)
    requires
        a.len() <= 64,
    ensures
        encode_address(a).len() == 65,
        address_ok(encode_address(a)),
        address_of(encode_address(a)) == a,
{
    let e = encode_address(a);
    assert(e[0] == a.len());
    assert forall|i: int| 1 + e[0] <= i < 65 implies e[i] == 0 by {}
    assert(address_of(e) =~= a);
}

proof fn lemma_calldata_round_trip(c: Option<CallDataView>)
    requires
        valid_calldata(c),
    ensures
        calldata_of(encode_calldata(c)) == Ok::<Option<CallDataView>, DecodeError>(c),
{
    if let Some(d) = c {
        let e = encode_calldata(c);
        lemma_address_round_trip(d.target);
        assert(e.subrange(0, 65) =~= encode_address(d.target));
        assert(e.subrange(65, e.len() as int) =~= d.bytes);
    } else {
        assert(encode_calldata(c).len() == 0);
    }
}

proof fn lemma_amount_round_trip(x: u128)
    ensures
        amount_bytes(x).len() == 32,
        be_value(amount_bytes(x)) == x,
{
    let v = U256 { hi: 0, lo: x };
    lemma_u256_round_trip(v);
    lemma_u256_of_value(u256_bytes(v));
}

proof fn lemma_be_small_round_trip(x: nat, n: nat)
    requires
        x < radix_pow(n),
    ensures
        be_bytes(x, n).len() == n,
        be_value(be_bytes(x, n)) == x,
{
    lemma_be_bytes_len(x, n);
    lemma_be_round_trip(x, n);
}

/// Decoding the bytes of a writable instruction gives the instruction back.
pub proof fn lemma_decode_encode(p: PacketView)
    requires
        valid_packet(p),
    ensures
        decode_packet(encode_packet(p)) == Ok::<PacketView, DecodeError>(p),
{
    lemma_radix_pow_16();
    let b = encode_packet(p);
    match p {
        PacketView::SendAsset(a) => {
            let cd = encode_calldata(a.calldata);
            lemma_calldata_len(a.calldata);
            lemma_address_round_trip(a.from_vault);
            lemma_address_round_trip(a.to_vault);
            lemma_address_round_trip(a.to_account);
            lemma_address_round_trip(a.from_asset);
            lemma_u256_round_trip(a.u);
            lemma_u256_round_trip(a.from_amount);
            lemma_amount_round_trip(a.min_out);
            lemma_be_small_round_trip(a.block_number as nat, 4);
            lemma_be_small_round_trip(cd.len(), 2);
            lemma_calldata_round_trip(a.calldata);
            assert(b.len() == 364 + cd.len());
            assert(field(b, 1, 65) =~= encode_address(a.from_vault));
            assert(field(b, 66, 65) =~= encode_address(a.to_vault));
            assert(field(b, 131, 65) =~= encode_address(a.to_account));
            assert(field(b, 196, 32) =~= u256_bytes(a.u));
            assert(b[228] == a.to_asset_index);
            assert(field(b, 229, 32) =~= amount_bytes(a.min_out));
            assert(field(b, 261, 32) =~= u256_bytes(a.from_amount));
            assert(field(b, 293, 65) =~= encode_address(a.from_asset));
            assert(field(b, 358, 4) =~= be_bytes(a.block_number as nat, 4));
            assert(field(b, 362, 2) =~= be_bytes(cd.len(), 2));
            assert(b.subrange(364, b.len() as int) =~= cd);
            assert(b[0] == 0);
            if let Ok(PacketView::SendAsset(q)) = decode_packet(b) {
                assert(q.from_vault =~= a.from_vault);
                assert(q.to_vault =~= a.to_vault);
                assert(q.to_account =~= a.to_account);
                assert(q.from_asset =~= a.from_asset);
                assert(q == a);
            }
        },
        PacketView::SendLiquidity(l) => {
            let cd = encode_calldata(l.calldata);
            lemma_calldata_len(l.calldata);
            lemma_address_round_trip(l.from_vault);
            lemma_address_round_trip(l.to_vault);
            lemma_address_round_trip(l.to_account);
            lemma_u256_round_trip(l.u);
            lemma_u256_round_trip(l.from_amount);
            lemma_amount_round_trip(l.min_pool_tokens);
            lemma_amount_round_trip(l.min_reference_asset);
            lemma_be_small_round_trip(l.block_number as nat, 4);
            lemma_be_small_round_trip(cd.len(), 2);
            lemma_calldata_round_trip(l.calldata);
            assert(b.len() == 330 + cd.len());
            assert(field(b, 1, 65) =~= encode_address(l.from_vault));
            assert(field(b, 66, 65) =~= encode_address(l.to_vault));
            assert(field(b, 131, 65) =~= encode_address(l.to_account));
            assert(field(b, 196, 32) =~= u256_bytes(l.u));
            assert(field(b, 228, 32) =~= amount_bytes(l.min_pool_tokens));
            assert(field(b, 260, 32) =~= amount_bytes(l.min_reference_asset));
            assert(field(b, 292, 32) =~= u256_bytes(l.from_amount));
            assert(field(b, 324, 4) =~= be_bytes(l.block_number as nat, 4));
            assert(field(b, 328, 2) =~= be_bytes(cd.len(), 2));
            assert(b.subrange(330, b.len() as int) =~= cd);
            assert(b[0] == 1);
            if let Ok(PacketView::SendLiquidity(q)) = decode_packet(b) {
                assert(q.from_vault =~= l.from_vault);
                assert(q.to_vault =~= l.to_vault);
                assert(q.to_account =~= l.to_account);
                assert(q == l);
            }
        },
    }
}

/// A buffer shorter than the shortest record, or whose first byte selects no
/// instruction, holds no instruction.
pub proof fn lemma_short_or_unknown_rejected(b: Seq<u8>)
    requires
        b.len() < SEND_LIQUIDITY_HEADER_LEN || (b.len() > 0 && b[0] != SEND_ASSET_KIND && b[0]
            != SEND_LIQUIDITY_KIND),
    ensures
        decode_packet(b) is Err,
        b.len() > 0 && b[0] > 1 ==> decode_packet(b) == Err::<PacketView, DecodeError>(
            DecodeError::UnknownKind,
        ),
{
}

/// The bytes of an asset swap whose minimum output is written as any
/// 256-bit value.
pub open spec fn encode_send_asset_wide(a: SendAssetView, min_out: U256) -> Seq<u8> {
    let b = encode_packet(PacketView::SendAsset(a));
    b.subrange(0, 229) + u256_bytes(min_out) + b.subrange(261, b.len() as int)
}

/// The bytes of a liquidity swap whose minimum outputs are written as any
/// 256-bit values.
pub open spec fn encode_send_liquidity_wide(
    l: SendLiquidityView,
    min_pool_tokens: U256,
    min_reference_asset: U256,
) -> Seq<u8> {
    let b = encode_packet(PacketView::SendLiquidity(l));
    b.subrange(0, 228) + u256_bytes(min_pool_tokens) + u256_bytes(min_reference_asset)
        + b.subrange(292, b.len() as int)
}

/// An asset swap whose minimum output exceeds 128 bits is refused as out of
/// range.
pub proof fn lemma_wide_min_out_rejected(a: SendAssetView, min_out: U256)
    requires
        valid_packet(PacketView::SendAsset(a)),
        min_out.value() > u128::MAX,
    ensures
        decode_packet(encode_send_asset_wide(a, min_out)) == Err::<PacketView, DecodeError>(
            DecodeError::AmountOutOfRange,
        ),
{
    let p = PacketView::SendAsset(a);
    let b = encode_packet(p);
    let w = encode_send_asset_wide(a, min_out);
    lemma_decode_encode(p);
    lemma_u256_round_trip(min_out);
    lemma_u256_of_value(u256_bytes(min_out));
    lemma_calldata_len(a.calldata);
    lemma_address_round_trip(a.from_vault);
    assert(b.len() >= 364);
    assert(w.len() == b.len());
    assert(w[0] == b[0]);
    assert(field(w, 1, 65) =~= field(b, 1, 65));
    assert(field(w, 66, 65) =~= field(b, 66, 65));
    assert(field(w, 131, 65) =~= field(b, 131, 65));
    assert(field(w, 293, 65) =~= field(b, 293, 65));
    assert(field(w, 362, 2) =~= field(b, 362, 2));
    assert(w.subrange(364, w.len() as int) =~= b.subrange(364, b.len() as int));
    assert(field(w, 229, 32) =~= u256_bytes(min_out));
}

/// A liquidity swap with a minimum output that exceeds 128 bits is refused
/// as out of range.
pub proof fn lemma_wide_min_liquidity_rejected(
    l: SendLiquidityView,
    min_pool_tokens: U256,
    min_reference_asset: U256,
)
    requires
        valid_packet(PacketView::SendLiquidity(l)),
        min_pool_tokens.value() > u128::MAX || min_reference_asset.value() > u128::MAX,
    ensures
        decode_packet(encode_send_liquidity_wide(l, min_pool_tokens, min_reference_asset))
            == Err::<PacketView, DecodeError>(DecodeError::AmountOutOfRange),
{
    let p = PacketView::SendLiquidity(l);
    let b = encode_packet(p);
    let w = encode_send_liquidity_wide(l, min_pool_tokens, min_reference_asset);
    lemma_decode_encode(p);
    lemma_u256_round_trip(min_pool_tokens);
    lemma_u256_of_value(u256_bytes(min_pool_tokens));
    lemma_u256_round_trip(min_reference_asset);
    lemma_u256_of_value(u256_bytes(min_reference_asset));
    lemma_calldata_len(l.calldata);
    lemma_address_round_trip(l.from_vault);
    assert(b.len() >= 330);
    assert(w.len() == b.len());
    assert(w[0] == b[0]);
    assert(field(w, 1, 65) =~= field(b, 1, 65));
    assert(field(w, 66, 65) =~= field(b, 66, 65));
    assert(field(w, 131, 65) =~= field(b, 131, 65));
    assert(field(w, 328, 2) =~= field(b, 328, 2));
    assert(w.subrange(330, w.len() as int) =~= b.subrange(330, b.len() as int));
    assert(field(w, 228, 32) =~= u256_bytes(min_pool_tokens));
    assert(field(w, 260, 32) =~= u256_bytes(min_reference_asset));
}

} // verus!
