//! The multiplier of the FNV hashes.

use vstd::prelude::*;

verus! {

/// Multiplying by the FNV prime in 64 bits keeps numbers apart.
pub proof fn lemma_the_prime_keeps_apart(a: int, b: int)
    requires
        0 <= a < 0x1_0000_0000_0000_0000,
        0 <= b < 0x1_0000_0000_0000_0000,
        (a * 0x0000_0100_0000_01b3) % 0x1_0000_0000_0000_0000 == (b * 0x0000_0100_0000_01b3)
            % 0x1_0000_0000_0000_0000,
    ensures
        a == b,
{
    let m = 0x1_0000_0000_0000_0000int;
    let d = a - b;
    let e = (a * 0x0000_0100_0000_01b3) / m - (b * 0x0000_0100_0000_01b3) / m;
    assert(d * 0x0000_0100_0000_01b3 == 0x1_0000_0000_0000_0000 * e);
    // The prime times its inverse is one more than a multiple of the modulus.
    let f = e * 0xce965057aff6957b - d * 0xce9650590f;
    assert(d == 0x1_0000_0000_0000_0000 * f);
    assert(f == 0);
}

} // verus!
