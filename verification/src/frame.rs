//! The wire format of one message: an eight-byte big-endian length, then the
//! payload.
use vstd::prelude::*;

verus! {

/// Number of bytes of the length that precedes every payload.
pub const PREFIX_LEN: usize = 8;

/// The eight bytes that announce a payload of `n` bytes, most significant
/// byte first.
pub open spec fn length_prefix(n: u64) -> Seq<u8> {
    seq![
        (n / 0x0100_0000_0000_0000) as u8,
        (n / 0x0001_0000_0000_0000 % 256) as u8,
        (n / 0x0000_0100_0000_0000 % 256) as u8,
        (n / 0x0000_0001_0000_0000 % 256) as u8,
        (n / 0x0000_0000_0100_0000 % 256) as u8,
        (n / 0x0000_0000_0001_0000 % 256) as u8,
        (n / 0x0000_0000_0000_0100 % 256) as u8,
        (n % 256) as u8,
    ]
}

/// The length that the first eight bytes of `bytes` announce.
pub open spec fn prefix_value(bytes: Seq<u8>) -> u64
    recommends
        bytes.len() >= 8,
{
    (bytes[0] * 0x0100_0000_0000_0000 + bytes[1] * 0x0001_0000_0000_0000 + bytes[2]
        * 0x0000_0100_0000_0000 + bytes[3] * 0x0000_0001_0000_0000 + bytes[4]
        * 0x0000_0000_0100_0000 + bytes[5] * 0x0000_0000_0001_0000 + bytes[6]
        * 0x0000_0000_0000_0100 + bytes[7]) as u64
}

/// The bytes that carry `payload` on the wire.
pub open spec fn frame(payload: Seq<u8>) -> Seq<u8>
    recommends
        payload.len() <= u64::MAX,
{
    length_prefix(payload.len() as u64) + payload
}

/// How many bytes are still to come before `bytes` starts with a whole
/// frame; 0 when it does.
pub open spec fn missing(bytes: Seq<u8>) -> nat {
    if bytes.len() < 8 {
        (8 - bytes.len()) as nat
    } else if bytes.len() - 8 < prefix_value(bytes) {
        (prefix_value(bytes) - (bytes.len() - 8)) as nat
    } else {
        0
    }
}

/// The payload of the frame that `bytes` starts with.
pub open spec fn first_payload(bytes: Seq<u8>) -> Seq<u8>
    recommends
        missing(bytes) == 0,
{
    bytes.subrange(8, 8 + prefix_value(bytes))
}

/// What follows the frame that `bytes` starts with.
pub open spec fn after_first(bytes: Seq<u8>) -> Seq<u8>
    recommends
        missing(bytes) == 0,
{
    bytes.subrange(8 + prefix_value(bytes), bytes.len() as int)
}

/// Dividing by 256 `k` times is dividing by the `k`-th power of 256.
proof fn lemma_shifts(n: int)
    requires
        0 <= n,
    ensures
        n / 0x0000_0000_0001_0000 == n / 0x0000_0000_0000_0100 / 256,
        n / 0x0000_0000_0100_0000 == n / 0x0000_0000_0001_0000 / 256,
        n / 0x0000_0001_0000_0000 == n / 0x0000_0000_0100_0000 / 256,
        n / 0x0000_0100_0000_0000 == n / 0x0000_0001_0000_0000 / 256,
        n / 0x0001_0000_0000_0000 == n / 0x0000_0100_0000_0000 / 256,
        n / 0x0100_0000_0000_0000 == n / 0x0001_0000_0000_0000 / 256,
{
    assert(n / 0x0000_0000_0001_0000 == n / 0x0000_0000_0000_0100 / 256);
    assert(n / 0x0000_0000_0100_0000 == n / 0x0000_0000_0001_0000 / 256);
    assert(n / 0x0000_0001_0000_0000 == n / 0x0000_0000_0100_0000 / 256);
    assert(n / 0x0000_0100_0000_0000 == n / 0x0000_0001_0000_0000 / 256);
    assert(n / 0x0001_0000_0000_0000 == n / 0x0000_0100_0000_0000 / 256);
    assert(n / 0x0100_0000_0000_0000 == n / 0x0001_0000_0000_0000 / 256);
}

/// A length survives the trip through its eight bytes.
pub proof fn lemma_prefix_round_trip(n: u64)
    ensures
        length_prefix(n).len() == 8,
        prefix_value(length_prefix(n)) == n,
{
    let a0 = n as int;
    let a1 = a0 / 256;
    let a2 = a1 / 256;
    let a3 = a2 / 256;
    let a4 = a3 / 256;
    let a5 = a4 / 256;
    let a6 = a5 / 256;
    let a7 = a6 / 256;
    lemma_shifts(a0);
    assert(a7 < 256);
    let b = length_prefix(n);
    assert(b[7] == a0 % 256);
    assert(b[6] == a1 % 256);
    assert(b[5] == a2 % 256);
    assert(b[4] == a3 % 256);
    assert(b[3] == a4 % 256);
    assert(b[2] == a5 % 256);
    assert(b[1] == a6 % 256);
    assert(b[0] == a7);
    assert(a6 == a7 * 256 + b[1]);
    assert(a5 == a6 * 256 + b[2]);
    assert(a4 == a5 * 256 + b[3]);
    assert(a3 == a4 * 256 + b[4]);
    assert(a2 == a3 * 256 + b[5]);
    assert(a1 == a2 * 256 + b[6]);
    assert(a0 == a1 * 256 + b[7]);
}

/// Whatever is framed is found again at the front of the stream: a reader
/// that meets `frame(payload)` followed by anything gets `payload` back,
/// byte for byte, and is left with what followed. An empty payload is a
/// frame like any other.
pub proof fn lemma_frame_round_trip(payload: Seq<u8>, rest: Seq<u8>)
    requires
        payload.len() <= u64::MAX,
    ensures
        frame(payload).len() == 8 + payload.len(),
        missing(frame(payload) + rest) == 0,
        first_payload(frame(payload) + rest) == payload,
        after_first(frame(payload) + rest) == rest,
{
    let n = payload.len() as u64;
    let wire = frame(payload) + rest;
    lemma_prefix_round_trip(n);
    assert(wire.subrange(0, 8) =~= length_prefix(n));
    assert(prefix_value(wire) == prefix_value(length_prefix(n)));
    assert(first_payload(wire) =~= payload);
    assert(after_first(wire) =~= rest);
}

/// A reader waits for the whole frame: while any byte of it is outstanding,
/// exactly the outstanding number is reported missing.
pub proof fn lemma_partial_frame(payload: Seq<u8>, k: int)
    requires
        payload.len() <= u64::MAX,
        0 <= k < 8 + payload.len(),
    ensures
        missing(frame(payload).subrange(0, k)) == if k < 8 {
            8 - k
        } else {
            8 + payload.len() - k
        },
{
    let n = payload.len() as u64;
    lemma_prefix_round_trip(n);
    if k >= 8 {
        let part = frame(payload).subrange(0, k);
        assert(part.subrange(0, 8) =~= length_prefix(n));
        assert(prefix_value(part) == prefix_value(length_prefix(n)));
    }
}

/// Appends the eight-byte prefix for a payload of `n` bytes to `out`.
pub fn put_length(out: &mut Vec<u8>, n: u64)
    ensures
        final(out)@ == old(out)@ + length_prefix(n),
{
    out.push((n / 0x0100_0000_0000_0000) as u8);
    out.push((n / 0x0001_0000_0000_0000 % 256) as u8);
    out.push((n / 0x0000_0100_0000_0000 % 256) as u8);
    out.push((n / 0x0000_0001_0000_0000 % 256) as u8);
    out.push((n / 0x0000_0000_0100_0000 % 256) as u8);
    out.push((n / 0x0000_0000_0001_0000 % 256) as u8);
    out.push((n / 0x0000_0000_0000_0100 % 256) as u8);
    out.push((n % 256) as u8);
    assert(out@ =~= old(out)@ + length_prefix(n));
}

/// Reads the length that the first eight bytes of `bytes` announce.
pub fn get_length(bytes: &[u8]) -> (n: Option<u64>)
    ensures
        n == if bytes@.len() >= 8 {
            Some(prefix_value(bytes@))
        } else {
            None
        },
{
    if bytes.len() < PREFIX_LEN {
        return None;
    }
    let b0: u64 = bytes[0] as u64;
    let b1: u64 = bytes[1] as u64;
    let b2: u64 = bytes[2] as u64;
    let b3: u64 = bytes[3] as u64;
    let b4: u64 = bytes[4] as u64;
    let b5: u64 = bytes[5] as u64;
    let b6: u64 = bytes[6] as u64;
    let b7: u64 = bytes[7] as u64;
    Some(
        b0 * 0x0100_0000_0000_0000 + b1 * 0x0001_0000_0000_0000 + b2 * 0x0000_0100_0000_0000
            + b3 * 0x0000_0001_0000_0000 + b4 * 0x0000_0000_0100_0000 + b5
            * 0x0000_0000_0001_0000 + b6 * 0x0000_0000_0000_0100 + b7,
    )
}

} // verus!
