//! APDU construction: pure functions mapping a logical operation to bytes.
//!
//! Select, List and Remaining are fixed constant commands. Calculate carries
//! a TLV payload: a Name block and an 8-byte big-endian Challenge block,
//! preceded by one length byte that covers exactly those two blocks.

use vstd::prelude::*;

verus! {

/// TLV tag of the credential name block in a Calculate command.
pub const TAG_NAME: u8 = 0x71;

/// TLV tag of one entry in the credential directory listing.
pub const TAG_NAME_LIST: u8 = 0x72;

/// TLV tag of the challenge block in a Calculate command.
pub const TAG_CHALLENGE: u8 = 0x74;

/// Leading tag of a full calculation response.
pub const TAG_RESPONSE_FULL: u8 = 0x75;

/// Leading tag of a truncated calculation response.
pub const TAG_RESPONSE_TRUNCATED: u8 = 0x76;

/// Status marker in a response's second-to-last byte: more directory data follows.
pub const STATUS_MORE_DATA: u8 = 0x61;

/// First byte of the two-byte error status pairs a calculation can open with.
pub const STATUS_ERROR_SW1: u8 = 0x69;

/// Second byte of the "authentication required" status pair.
pub const STATUS_AUTH_REQUIRED_SW2: u8 = 0x82;

/// Second byte of the "no such object" status pair.
pub const STATUS_NO_SUCH_OBJECT_SW2: u8 = 0x84;

/// Longest credential name, in UTF-8 bytes, whose Calculate APDU still fits
/// its one-byte length fields: the data length byte covers the name plus the
/// 8 challenge bytes plus 4 tag/length bytes, and must not exceed 255.
pub const MAX_NAME_BYTES: usize = 243;

/// The 8 bytes of `x`, most significant first.
pub open spec fn spec_u64_to_be_bytes(x: u64) -> Seq<u8> {
    seq![
        ((x >> 56) & 0xff) as u8,
        ((x >> 48) & 0xff) as u8,
        ((x >> 40) & 0xff) as u8,
        ((x >> 32) & 0xff) as u8,
        ((x >> 24) & 0xff) as u8,
        ((x >> 16) & 0xff) as u8,
        ((x >> 8) & 0xff) as u8,
        (x & 0xff) as u8,
    ]
}

/// The value whose big-endian encoding is the 8-byte sequence `s`.
pub open spec fn spec_u64_from_be_bytes(s: Seq<u8>) -> u64
    recommends
        s.len() == 8,
{
    ((s[0] as u64) << 56 | (s[1] as u64) << 48 | (s[2] as u64) << 40 | (s[3] as u64) << 32 | (
    s[4] as u64) << 24 | (s[5] as u64) << 16 | (s[6] as u64) << 8 | (s[7] as u64)) as u64
}

/// The value whose big-endian encoding is `b0 b1 b2 b3`.
pub open spec fn spec_u32_from_be_bytes(b0: u8, b1: u8, b2: u8, b3: u8) -> u32 {
    ((b0 as u32) << 24 | (b1 as u32) << 16 | (b2 as u32) << 8 | (b3 as u32)) as u32
}

/// Decoding the big-endian encoding of a value gives the value back.
pub proof fn lemma_u64_be_bytes_roundtrip(x: u64)
    ensures
        spec_u64_to_be_bytes(x).len() == 8,
        spec_u64_from_be_bytes(spec_u64_to_be_bytes(x)) == x,
{
    assert({
        &&& (x >> 56) & 0xff < 256
        &&& (x >> 48) & 0xff < 256
        &&& (x >> 40) & 0xff < 256
        &&& (x >> 32) & 0xff < 256
        &&& (x >> 24) & 0xff < 256
        &&& (x >> 16) & 0xff < 256
        &&& (x >> 8) & 0xff < 256
        &&& x & 0xff < 256
    }) by (bit_vector);
    assert(x == (((x >> 56) & 0xff) << 56 | ((x >> 48) & 0xff) << 48 | ((x >> 40) & 0xff) << 40 | ((
    x >> 32) & 0xff) << 32 | ((x >> 24) & 0xff) << 24 | ((x >> 16) & 0xff) << 16 | ((x >> 8) & 0xff)
        << 8 | (x & 0xff))) by (bit_vector);
}

/// The 8 bytes of `x`, most significant first.
pub fn u64_to_be_bytes(x: u64) -> (s: Vec<u8>)
    ensures
        s@ == spec_u64_to_be_bytes(x),
{
    proof {
        assert({
            &&& (x >> 56) & 0xff < 256
            &&& (x >> 48) & 0xff < 256
            &&& (x >> 40) & 0xff < 256
            &&& (x >> 32) & 0xff < 256
            &&& (x >> 24) & 0xff < 256
            &&& (x >> 16) & 0xff < 256
            &&& (x >> 8) & 0xff < 256
            &&& x & 0xff < 256
        }) by (bit_vector);
    }
    let mut s: Vec<u8> = Vec::new();
    s.push(((x >> 56) & 0xff) as u8);
    s.push(((x >> 48) & 0xff) as u8);
    s.push(((x >> 40) & 0xff) as u8);
    s.push(((x >> 32) & 0xff) as u8);
    s.push(((x >> 24) & 0xff) as u8);
    s.push(((x >> 16) & 0xff) as u8);
    s.push(((x >> 8) & 0xff) as u8);
    s.push((x & 0xff) as u8);
    proof {
        assert(s@ =~= spec_u64_to_be_bytes(x));
    }
    s
}

/// The value whose big-endian encoding is `b0 b1 b2 b3`.
pub fn u32_from_be_bytes(b0: u8, b1: u8, b2: u8, b3: u8) -> (x: u32)
    ensures
        x == spec_u32_from_be_bytes(b0, b1, b2, b3),
{
    (b0 as u32) << 24u32 | (b1 as u32) << 16u32 | (b2 as u32) << 8u32 | (b3 as u32)
}

/// The fixed command selecting the OATH applet by its application identifier.
pub open spec fn spec_select_apdu() -> Seq<u8> {
    seq![0x00u8, 0xa4, 0x04, 0x00, 0x07, 0xa0, 0x00, 0x00, 0x05, 0x27, 0x21, 0x01]
}

/// The fixed command requesting the full credential directory.
pub open spec fn spec_list_apdu() -> Seq<u8> {
    seq![0x00u8, 0xa1, 0x00, 0x00]
}

/// The fixed command requesting the next chunk of a directory listing.
pub open spec fn spec_remaining_apdu() -> Seq<u8> {
    seq![0x00u8, 0xa5, 0x00, 0x00]
}

/// The Calculate command for a credential name and a challenge: a 4-byte
/// header, one data length byte, a Name TLV block, and a Challenge TLV block
/// holding the challenge as 8 big-endian bytes.
pub open spec fn spec_calculate_apdu(name: Seq<u8>, challenge: u64) -> Seq<u8>
    recommends
        name.len() <= MAX_NAME_BYTES,
{
    seq![0x00u8, 0xa2, 0x00, 0x01, (name.len() + 12) as u8, TAG_NAME, name.len() as u8] + name
        + seq![TAG_CHALLENGE, 8u8] + spec_u64_to_be_bytes(challenge)
}

/// Builds the fixed Select command.
pub fn select_apdu() -> (r: Vec<u8>)
    ensures
        r@ == spec_select_apdu(),
{
    let mut r: Vec<u8> = Vec::new();
    r.push(0x00);
    r.push(0xa4);
    r.push(0x04);
    r.push(0x00);
    r.push(0x07);
    r.push(0xa0);
    r.push(0x00);
    r.push(0x00);
    r.push(0x05);
    r.push(0x27);
    r.push(0x21);
    r.push(0x01);
    proof {
        assert(r@ =~= spec_select_apdu());
    }
    r
}

/// Builds the fixed List command.
pub fn list_apdu() -> (r: Vec<u8>)
    ensures
        r@ == spec_list_apdu(),
{
    let mut r: Vec<u8> = Vec::new();
    r.push(0x00);
    r.push(0xa1);
    r.push(0x00);
    r.push(0x00);
    proof {
        assert(r@ =~= spec_list_apdu());
    }
    r
}

/// Builds the fixed Remaining command.
pub fn remaining_apdu() -> (r: Vec<u8>)
    ensures
        r@ == spec_remaining_apdu(),
{
    let mut r: Vec<u8> = Vec::new();
    r.push(0x00);
    r.push(0xa5);
    r.push(0x00);
    r.push(0x00);
    proof {
        assert(r@ =~= spec_remaining_apdu());
    }
    r
}

/// Builds the Calculate command for one credential name and one challenge.
pub fn calculate_apdu(name: &[u8], challenge: u64) -> (r: Vec<u8>)
    requires
        name@.len() <= MAX_NAME_BYTES,
    ensures
        r@ == spec_calculate_apdu(name@, challenge),
{
    let mut r: Vec<u8> = Vec::new();
    r.push(0x00);
    r.push(0xa2);
    r.push(0x00);
    r.push(0x01);
    r.push((name.len() + 12) as u8);
    r.push(TAG_NAME);
    r.push(name.len() as u8);
    r.extend_from_slice(name);
    r.push(TAG_CHALLENGE);
    r.push(8);
    let mut challenge_bytes = u64_to_be_bytes(challenge);
    r.append(&mut challenge_bytes);
    proof {
        assert(r@ =~= spec_calculate_apdu(name@, challenge));
    }
    r
}

/// From a well-formed Calculate command the name bytes and the challenge can
/// be read back exactly: the length byte pins the layout, the name stands
/// between the two TLV headers, and the trailing 8 bytes decode to the
/// challenge.
pub proof fn lemma_calculate_apdu_roundtrip(name: Seq<u8>, challenge: u64)
    requires
        name.len() <= MAX_NAME_BYTES,
    ensures
        spec_calculate_apdu(name, challenge).len() == name.len() + 17,
        spec_calculate_apdu(name, challenge)[4] == name.len() + 12,
        spec_calculate_apdu(name, challenge)[5] == TAG_NAME,
        spec_calculate_apdu(name, challenge)[6] == name.len(),
        spec_calculate_apdu(name, challenge).subrange(7, 7 + name.len() as int) == name,
        spec_calculate_apdu(name, challenge)[7 + name.len() as int] == TAG_CHALLENGE,
        spec_calculate_apdu(name, challenge)[8 + name.len() as int] == 8,
        spec_u64_from_be_bytes(spec_calculate_apdu(name, challenge).skip(9 + name.len() as int))
            == challenge,
{
    let apdu = spec_calculate_apdu(name, challenge);
    assert(apdu.subrange(7, 7 + name.len() as int) =~= name);
    assert(apdu.skip(9 + name.len() as int) =~= spec_u64_to_be_bytes(challenge));
    lemma_u64_be_bytes_roundtrip(challenge);
}

} // verus!
