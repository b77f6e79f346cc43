//! Index data handed to a builder, and its bytes as the device reads them.

use vstd::prelude::*;

verus! {

/// Indices of either width, or none.
#[derive(Debug)]
pub enum Indices {
    /// No indices.
    Absent,
    /// Two bytes per index.
    U16(Vec<u16>),
    /// Four bytes per index.
    U32(Vec<u32>),
}

impl From<Vec<u16>> for Indices {
    fn from(vec: Vec<u16>) -> (indices: Self) {
        Indices::U16(vec)
    }
}

impl vstd::std_specs::convert::FromSpecImpl<Vec<u16>> for Indices {
    open spec fn obeys_from_spec() -> bool {
        true
    }

    open spec fn from_spec(vec: Vec<u16>) -> Self {
        Indices::U16(vec)
    }
}

impl From<Vec<u32>> for Indices {
    fn from(vec: Vec<u32>) -> (indices: Self) {
        Indices::U32(vec)
    }
}

impl vstd::std_specs::convert::FromSpecImpl<Vec<u32>> for Indices {
    open spec fn obeys_from_spec() -> bool {
        true
    }

    open spec fn from_spec(vec: Vec<u32>) -> Self {
        Indices::U32(vec)
    }
}

/// The two bytes of `x`, low byte first.
pub open spec fn u16_low_first(x: u16) -> Seq<u8> {
    seq![(x & 0xff) as u8, (x >> 8) as u8]
}

/// The two bytes of `x`, high byte first.
pub open spec fn u16_high_first(x: u16) -> Seq<u8> {
    seq![(x >> 8) as u8, (x & 0xff) as u8]
}

/// The four bytes of `x`, low byte first.
pub open spec fn u32_low_first(x: u32) -> Seq<u8> {
    seq![
        (x & 0xff) as u8,
        ((x >> 8) & 0xff) as u8,
        ((x >> 16) & 0xff) as u8,
        (x >> 24) as u8,
    ]
}

/// The four bytes of `x`, high byte first.
pub open spec fn u32_high_first(x: u32) -> Seq<u8> {
    seq![
        (x >> 24) as u8,
        ((x >> 16) & 0xff) as u8,
        ((x >> 8) & 0xff) as u8,
        (x & 0xff) as u8,
    ]
}

/// `bytes` are the indices as they lie in memory, one after the other: each
/// index takes two bytes, in one of the two byte orders.
pub open spec fn holds_u16(bytes: Seq<u8>, indices: Seq<u16>) -> bool {
    &&& bytes.len() == 2 * indices.len()
    &&& forall|k: int|
        0 <= k < indices.len() ==> {
            let pair = bytes.subrange(2 * k, 2 * k + 2);
            pair == u16_low_first(#[trigger] indices[k]) || pair == u16_high_first(indices[k])
        }
}

/// `bytes` are the indices as they lie in memory, one after the other: each
/// index takes four bytes, in one of the two byte orders.
pub open spec fn holds_u32(bytes: Seq<u8>, indices: Seq<u32>) -> bool {
    &&& bytes.len() == 4 * indices.len()
    &&& forall|k: int|
        0 <= k < indices.len() ==> {
            let quad = bytes.subrange(4 * k, 4 * k + 4);
            quad == u32_low_first(#[trigger] indices[k]) || quad == u32_high_first(indices[k])
        }
}

/// `u16::to_ne_bytes`: the bytes of `x` as this machine keeps them in memory,
/// which is the low byte first or the high byte first.
#[verifier::external_body]
fn u16_in_memory(x: u16) -> (bytes: [u8; 2])
    ensures
        bytes@ == u16_low_first(x) || bytes@ == u16_high_first(x),
{
    x.to_ne_bytes()
}

/// `u32::to_ne_bytes`: the bytes of `x` as this machine keeps them in memory,
/// which is the low byte first or the high byte first.
#[verifier::external_body]
fn u32_in_memory(x: u32) -> (bytes: [u8; 4])
    ensures
        bytes@ == u32_low_first(x) || bytes@ == u32_high_first(x),
{
    x.to_ne_bytes()
}

/// The bytes of 16-bit indices as they lie in memory.
pub fn u16_bytes(indices: &Vec<u16>) -> (bytes: Vec<u8>)
    ensures
        holds_u16(bytes@, indices@),
{
    let n = indices.len();
    let mut bytes: Vec<u8> = Vec::new();
    let mut k: usize = 0;
    while k < n
        invariant
            n == indices@.len(),
            k <= n,
            holds_u16(bytes@, indices@.take(k as int)),
        decreases n - k,
    {
        let ghost before = bytes@;
        let pair = u16_in_memory(indices[k]);
        bytes.push(pair[0]);
        bytes.push(pair[1]);
        proof {
            let now = indices@.take(k + 1);
            assert(bytes@.subrange(2 * k, 2 * k + 2) == pair@);
            assert forall|j: int| 0 <= j < now.len() implies {
                let p = bytes@.subrange(2 * j, 2 * j + 2);
                p == u16_low_first(#[trigger] now[j]) || p == u16_high_first(now[j])
            } by {
                if j < k {
                    assert(bytes@.subrange(2 * j, 2 * j + 2) == before.subrange(2 * j, 2 * j + 2));
                    assert(indices@.take(k as int)[j] == now[j]);
                }
            }
        }
        k += 1;
    }
    assert(indices@.take(n as int) == indices@);
    bytes
}

/// The bytes of 32-bit indices as they lie in memory.
pub fn u32_bytes(indices: &Vec<u32>) -> (bytes: Vec<u8>)
    ensures
        holds_u32(bytes@, indices@),
{
    let n = indices.len();
    let mut bytes: Vec<u8> = Vec::new();
    let mut k: usize = 0;
    while k < n
        invariant
            n == indices@.len(),
            k <= n,
            holds_u32(bytes@, indices@.take(k as int)),
        decreases n - k,
    {
        let ghost before = bytes@;
        let quad = u32_in_memory(indices[k]);
        bytes.push(quad[0]);
        bytes.push(quad[1]);
        bytes.push(quad[2]);
        bytes.push(quad[3]);
        proof {
            let now = indices@.take(k + 1);
            assert(bytes@.subrange(4 * k, 4 * k + 4) == quad@);
            assert forall|j: int| 0 <= j < now.len() implies {
                let q = bytes@.subrange(4 * j, 4 * j + 4);
                q == u32_low_first(#[trigger] now[j]) || q == u32_high_first(now[j])
            } by {
                if j < k {
                    assert(bytes@.subrange(4 * j, 4 * j + 4) == before.subrange(4 * j, 4 * j + 4));
                    assert(indices@.take(k as int)[j] == now[j]);
                }
            }
        }
        k += 1;
    }
    assert(indices@.take(n as int) == indices@);
    bytes
}

} // verus!
