//! 32-bit words as bytes, most significant byte first.

use vstd::prelude::*;

verus! {

/// The big-endian bytes of a 32-bit word.
#[verifier::opaque]
pub open spec fn be32(v: u32) -> Seq<u8> {
    seq![(v / 0x100_0000) as u8, (v / 0x1_0000 % 0x100) as u8, (v / 0x100 % 0x100) as u8, (v % 0x100) as u8]
}

/// A word takes four bytes.
pub broadcast proof fn be32_len(v: u32)
    ensures
        #[trigger] be32(v).len() == 4,
{
    reveal(be32);
}

/// The 32-bit word that four big-endian bytes spell.
#[verifier::opaque]
pub open spec fn from_be32(b: Seq<u8>) -> u32 {
    (b[0] * 0x100_0000 + b[1] * 0x1_0000 + b[2] * 0x100 + b[3]) as u32
}

} // verus!
