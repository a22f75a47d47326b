//! The scalar field of BLS12-381, modelled on the canonical
//! little-endian encoding of its elements.
use vstd::prelude::*;

verus! {

/// Two to the sixty-fourth.
pub open spec fn limb_base() -> nat {
    0x1_0000_0000 * 0x1_0000_0000
}

/// The prime order `r` of the scalar field (and of the groups G1 and G2).
pub open spec fn scalar_order() -> nat {
    0xffff_ffff_0000_0001 + limb_base() * (0x53bd_a402_fffe_5bfe + limb_base() * (
    0x3339_d808_09a1_d805 + limb_base() * 0x73ed_a753_299d_7d48))
}

/// The number that a little-endian byte string stands for.
pub open spec fn le_value(b: Seq<u8>) -> nat
    decreases b.len(),
{
    if b.len() == 0 {
        0
    } else {
        b[0] as nat + 256 * le_value(b.subrange(1, b.len() as int))
    }
}

/// A 32-byte string that encodes a field element canonically.
pub open spec fn is_canonical(b: Seq<u8>) -> bool {
    b.len() == 32 && le_value(b) < scalar_order()
}

/// A string of zero bytes stands for zero.
pub proof fn lemma_le_value_zeros(b: Seq<u8>)
    requires
        forall|i: int| 0 <= i < b.len() ==> b[i] == 0,
    ensures
        le_value(b) == 0,
    decreases b.len(),
{
    if b.len() > 0 {
        let rest = b.subrange(1, b.len() as int);
        assert forall|i: int| 0 <= i < rest.len() implies rest[i] == 0 by {
            assert(rest[i] == b[i + 1]);
        }
        lemma_le_value_zeros(rest);
    }
}

/// A one followed by zero bytes stands for one.
pub proof fn lemma_le_value_one(b: Seq<u8>)
    requires
        b.len() > 0,
        b[0] == 1,
        forall|i: int| 1 <= i < b.len() ==> b[i] == 0,
    ensures
        le_value(b) == 1,
{
    let rest = b.subrange(1, b.len() as int);
    assert forall|i: int| 0 <= i < rest.len() implies rest[i] == 0 by {
        assert(rest[i] == b[i + 1]);
    }
    lemma_le_value_zeros(rest);
}

/// The canonical encoding of zero.
pub fn zero_bytes() -> (r: [u8; 32])
    ensures
        le_value(r@) == 0,
        is_canonical(r@),
{
    let r = [0u8; 32];
    proof {
        lemma_le_value_zeros(r@);
    }
    r
}

/// The canonical encoding of one.
pub fn one_bytes() -> (r: [u8; 32])
    ensures
        le_value(r@) == 1,
        is_canonical(r@),
{
    let r: [u8; 32] = [
        1, 0, 0, 0, 0, 0, 0, 0, 0, 0, 0, 0, 0, 0, 0, 0,
        0, 0, 0, 0, 0, 0, 0, 0, 0, 0, 0, 0, 0, 0, 0, 0,
    ];
    proof {
        lemma_le_value_one(r@);
    }
    r
}

} // verus!
