//! A message as it lies in a ring: length, sequence number, payload.

use vstd::prelude::*;

verus! {

/// Bytes in front of every payload: its length, then its sequence number.
pub const MSG_HEADER_SIZE: usize = 8;

/// The lowest 32 bits of `n`, least significant byte first.
pub open spec fn le32(n: nat) -> Seq<u8> {
    seq![
        (n % 256) as u8,
        (n / 256 % 256) as u8,
        (n / 65536 % 256) as u8,
        (n / 16777216 % 256) as u8,
    ]
}

/// The number that four bytes stand for, least significant byte first.
pub open spec fn le32_value(bytes: Seq<u8>) -> nat {
    (bytes[0] + 256 * bytes[1] + 65536 * bytes[2] + 16777216 * bytes[3]) as nat
}

/// Four bytes give back the lowest 32 bits they were made from.
pub proof fn lemma_le32_value(n: nat)
    ensures
        le32_value(le32(n)) == n % 0x1_0000_0000,
{
    let a = n % 256;
    let b = n / 256 % 256;
    let c = n / 65536 % 256;
    let d = n / 16777216 % 256;
    assert(n / 65536 == n / 256 / 256);
    assert(n / 16777216 == n / 65536 / 256);
    assert(n == a + 256 * (n / 256));
    assert(n / 256 == b + 256 * (n / 65536));
    assert(n / 65536 == c + 256 * (n / 16777216));
    assert(n / 16777216 == d + 256 * (n / 16777216 / 256));
}

/// The bytes of a message: the length of the payload, the sequence number, the payload.
pub open spec fn record(payload: Seq<u8>, seq: u32) -> Seq<u8> {
    le32(payload.len()) + le32(seq as nat) + payload
}

/// The payload length that a record names.
pub open spec fn record_len(bytes: Seq<u8>) -> nat {
    le32_value(bytes.subrange(0, 4))
}

/// The sequence number that a record names.
pub open spec fn record_seq(bytes: Seq<u8>) -> nat {
    le32_value(bytes.subrange(4, 8))
}

/// A record names its payload's length and its sequence number.
pub proof fn lemma_record_names_its_parts(payload: Seq<u8>, seq: u32, rest: Seq<u8>)
    requires
        payload.len() < 0x1_0000_0000,
    ensures
        record(payload, seq).len() == MSG_HEADER_SIZE + payload.len(),
        record_len(record(payload, seq) + rest) == payload.len(),
        record_seq(record(payload, seq) + rest) == seq,
        (record(payload, seq) + rest).subrange(8, 8 + payload.len() as int) == payload,
{
    let bytes = record(payload, seq) + rest;
    assert(bytes.subrange(0, 4) =~= le32(payload.len()));
    assert(bytes.subrange(4, 8) =~= le32(seq as nat));
    assert(bytes.subrange(8, 8 + payload.len() as int) =~= payload);
    lemma_le32_value(payload.len());
    lemma_le32_value(seq as nat);
}

/// A 32-bit number as four bytes, least significant first.
pub fn to_le32(n: u32) -> (r: [u8; 4])
    ensures
        r@ == le32(n as nat),
{
    let r = [
        (n % 256) as u8,
        (n / 256 % 256) as u8,
        (n / 65536 % 256) as u8,
        (n / 16777216 % 256) as u8,
    ];
    assert(r@ =~= le32(n as nat));
    r
}

/// The 32-bit number that four bytes of `bytes` stand for.
pub fn from_le32(bytes: &[u8], at: usize) -> (r: u32)
    requires
        at + 4 <= bytes@.len(),
    ensures
        r == le32_value(bytes@.subrange(at as int, at + 4)),
{
    let a = bytes[at] as u32;
    let b = bytes[at + 1] as u32;
    let c = bytes[at + 2] as u32;
    let d = bytes[at + 3] as u32;
    a + 256 * b + 65536 * c + 16777216 * d
}

/// A number is told in four bytes, the least significant one first, and read back the same; its
/// bytes may stand anywhere among others.
pub proof fn law_number_is_read_as_told(n: u32, told: [u8; 4], bytes: &[u8], at: usize, r: u32)
    requires
        call_ensures(to_le32, (n,), told),
        at + 4 <= bytes@.len(),
        call_ensures(from_le32, (bytes, at), r),
    ensures
        told@.len() == 4,
        n == told@[0] + 256 * told@[1] + 65536 * told@[2] + 16777216 * told@[3],
        r == bytes@[at as int] + 256 * bytes@[at + 1] + 65536 * bytes@[at + 2] + 16777216
            * bytes@[at + 3],
        bytes@.subrange(at as int, at + 4) == told@ ==> r == n,
{
    lemma_le32_value(n as nat);
}

/// A message lies in a ring as the length of its payload in four bytes, its number in four bytes,
/// each with the least significant byte first, and then the payload.
pub proof fn law_record_is_header_and_payload(payload: Seq<u8>, seq: u32)
    requires
        payload.len() < 0x1_0000_0000,
    ensures
        ({
            let bytes = record(payload, seq);
            &&& bytes.len() == 8 + payload.len()
            &&& bytes[0] + 256 * bytes[1] + 65536 * bytes[2] + 16777216 * bytes[3] == payload.len()
            &&& bytes[4] + 256 * bytes[5] + 65536 * bytes[6] + 16777216 * bytes[7] == seq
            &&& forall|i: int| 0 <= i < payload.len() ==> bytes[8 + i] == #[trigger] payload[i]
        }),
{
    lemma_le32_value(payload.len());
    lemma_le32_value(seq as nat);
    let bytes = record(payload, seq);
    assert(bytes.subrange(0, 4) =~= le32(payload.len()));
    assert(bytes.subrange(4, 8) =~= le32(seq as nat));
    assert(bytes[0] == bytes.subrange(0, 4)[0] && bytes[1] == bytes.subrange(0, 4)[1]);
    assert(bytes[4] == bytes.subrange(4, 8)[0] && bytes[5] == bytes.subrange(4, 8)[1]);
}

} // verus!
