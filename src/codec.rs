//! Fixed-width big-endian encodings used for subaccounts and memos.
use vstd::prelude::*;

verus! {

/// The eight big-endian bytes of `k`.
pub open spec fn be_bytes_u64(k: u64) -> Seq<u8> {
    seq![
        (k >> 56u64) as u8,
        (k >> 48u64) as u8,
        (k >> 40u64) as u8,
        (k >> 32u64) as u8,
        (k >> 24u64) as u8,
        (k >> 16u64) as u8,
        (k >> 8u64) as u8,
        k as u8,
    ]
}

/// The number that eight bytes spell in big-endian order.
pub open spec fn be_value_u64(b: Seq<u8>) -> u64
    recommends
        b.len() == 8,
{
    ((b[0] as u64) << 56u64) | ((b[1] as u64) << 48u64) | ((b[2] as u64) << 40u64) | ((
    b[3] as u64) << 32u64) | ((b[4] as u64) << 24u64) | ((b[5] as u64) << 16u64) | ((
    b[6] as u64) << 8u64) | (b[7] as u64)
}

/// What a memo decodes to: a key when it holds exactly eight bytes.
pub open spec fn memo_key(b: Seq<u8>) -> Option<u64> {
    if b.len() == 8 {
        Some(be_value_u64(b))
    } else {
        None
    }
}

/// Encodes a log key as the memo that tags the transfer settling it.
pub fn key_to_memo(k: u64) -> (r: Vec<u8>)
    ensures
        r@ == be_bytes_u64(k),
{
    let r: Vec<u8> = vec![
        (k >> 56u64) as u8,
        (k >> 48u64) as u8,
        (k >> 40u64) as u8,
        (k >> 32u64) as u8,
        (k >> 24u64) as u8,
        (k >> 16u64) as u8,
        (k >> 8u64) as u8,
        k as u8,
    ];
    assert(r@ =~= be_bytes_u64(k));
    r
}

/// Decodes a memo into a log key; anything but eight bytes is no key.
pub fn memo_to_key(b: &Vec<u8>) -> (r: Option<u64>)
    ensures
        r == memo_key(b@),
{
    if b.len() != 8 {
        return None;
    }
    let v: u64 = ((b[0] as u64) << 56u64) | ((b[1] as u64) << 48u64) | ((b[2] as u64) << 40u64)
        | ((b[3] as u64) << 32u64) | ((b[4] as u64) << 24u64) | ((b[5] as u64) << 16u64) | ((
    b[6] as u64) << 8u64) | (b[7] as u64);
    Some(v)
}

/// Decoding the memo of a key gives the key back.
pub proof fn law_memo_round_trip(k: u64)
    ensures
        memo_key(be_bytes_u64(k)) == Some(k),
{
    let b = be_bytes_u64(k);
    let b0 = (k >> 56u64) as u8;
    let b1 = (k >> 48u64) as u8;
    let b2 = (k >> 40u64) as u8;
    let b3 = (k >> 32u64) as u8;
    let b4 = (k >> 24u64) as u8;
    let b5 = (k >> 16u64) as u8;
    let b6 = (k >> 8u64) as u8;
    let b7 = k as u8;
    assert(b[0] == b0 && b[1] == b1 && b[2] == b2 && b[3] == b3);
    assert(b[4] == b4 && b[5] == b5 && b[6] == b6 && b[7] == b7);
    assert(((b0 as u64) << 56u64) | ((b1 as u64) << 48u64) | ((b2 as u64) << 40u64) | ((
    b3 as u64) << 32u64) | ((b4 as u64) << 24u64) | ((b5 as u64) << 16u64) | ((b6 as u64)
        << 8u64) | (b7 as u64) == k) by (bit_vector)
        requires
            b0 == (k >> 56u64) as u8,
            b1 == (k >> 48u64) as u8,
            b2 == (k >> 40u64) as u8,
            b3 == (k >> 32u64) as u8,
            b4 == (k >> 24u64) as u8,
            b5 == (k >> 16u64) as u8,
            b6 == (k >> 8u64) as u8,
            b7 == k as u8,
    ;
}

} // verus!
