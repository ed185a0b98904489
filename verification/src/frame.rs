//! Frames on the wire: a length of four bytes, most significant byte first,
//! and then as many bytes of payload.

use vstd::prelude::*;

verus! {

/// The number that four bytes stand for, most significant byte first.
pub open spec fn be_length(prefix: Seq<u8>) -> int {
    prefix[0] as int * 16777216 + prefix[1] as int * 65536 + prefix[2] as int * 256
        + prefix[3] as int
}

/// The four bytes that stand for `len`, most significant byte first.
pub open spec fn spec_length_prefix(len: u32) -> Seq<u8> {
    seq![
        (len / 16777216) as u8,
        (len / 65536 % 256) as u8,
        (len / 256 % 256) as u8,
        (len % 256) as u8,
    ]
}

/// The four bytes that announce a payload of `len` bytes.
pub fn length_prefix(len: u32) -> (prefix: [u8; 4])
    ensures
        prefix@ == spec_length_prefix(len),
        be_length(prefix@) == len,
{
    let prefix: [u8; 4] = [
        (len / 16777216) as u8,
        (len / 65536 % 256) as u8,
        (len / 256 % 256) as u8,
        (len % 256) as u8,
    ];
    assert(prefix@ =~= spec_length_prefix(len));
    prefix
}

/// The length of the payload that the four bytes announce.
pub fn prefix_length(prefix: &[u8; 4]) -> (len: u32)
    ensures
        len == be_length(prefix@),
{
    let high: u32 = prefix[0] as u32 * 16777216 + prefix[1] as u32 * 65536;
    let low: u32 = prefix[2] as u32 * 256 + prefix[3] as u32;
    high + low
}

/// The frame of a payload: its length in four bytes, then the payload. A
/// payload too long for four bytes has no frame.
pub fn frame(payload: &Vec<u8>) -> (out: Option<Vec<u8>>)
    ensures
        match out {
            Some(framed) => payload@.len() <= u32::MAX && framed@ == spec_length_prefix(
                payload@.len() as u32,
            ) + payload@,
            None => payload@.len() > u32::MAX,
        },
{
    if payload.len() > 0xffff_ffff {
        return None;
    }
    let prefix = length_prefix(payload.len() as u32);
    let mut framed: Vec<u8> = Vec::new();
    let mut i: usize = 0;
    while i < 4
        invariant
            i <= 4,
            framed@ == prefix@.take(i as int),
        decreases 4 - i,
    {
        framed.push(prefix[i]);
        i = i + 1;
        assert(framed@ =~= prefix@.take(i as int));
    }
    assert(prefix@.take(4) =~= prefix@);
    let mut j: usize = 0;
    while j < payload.len()
        invariant
            j <= payload.len(),
            framed@ == prefix@ + payload@.take(j as int),
        decreases payload.len() - j,
    {
        framed.push(payload[j]);
        j = j + 1;
        assert(framed@ =~= prefix@ + payload@.take(j as int));
    }
    assert(payload@.take(j as int) =~= payload@);
    Some(framed)
}

/// The length that a prefix announces is the length it was made of.
pub proof fn law_length_round_trip(len: u32)
    ensures
        be_length(spec_length_prefix(len)) == len,
{
}

} // verus!
