//! Little-endian bytes.

use vstd::prelude::*;

verus! {

/// The last `n` base-256 digits of a number, the last digit first.
pub open spec fn le_bytes(x: nat, n: nat) -> Seq<u8>
    decreases n,
{
    if n == 0 {
        Seq::empty()
    } else {
        seq![(x % 256) as u8] + le_bytes(x / 256, (n - 1) as nat)
    }
}

/// The number with these base-256 digits, the last digit first.
pub open spec fn le_value(digits: Seq<u8>) -> nat
    decreases digits.len(),
{
    if digits.len() == 0 {
        0
    } else {
        digits[0] as nat + 256 * le_value(digits.skip(1))
    }
}

/// The eight little-endian bytes of an integer.
pub fn u64_le_bytes(x: u64) -> (r: Vec<u8>)
    ensures
        r@ == le_bytes(x as nat, 8),
{
    let mut bytes: Vec<u8> = Vec::new();
    let mut rest: u64 = x;
    let mut i: usize = 0;
    while i < 8
        invariant
            i <= 8,
            le_bytes(x as nat, 8) == bytes@ + le_bytes(rest as nat, (8 - i) as nat),
        decreases 8 - i,
    {
        let ghost before = bytes@;
        bytes.push((rest % 256) as u8);
        assert(before + le_bytes(rest as nat, (8 - i) as nat) =~= bytes@ + le_bytes(
            (rest / 256) as nat,
            (8 - i - 1) as nat,
        ));
        rest = rest / 256;
        i += 1;
    }
    assert(bytes@ + le_bytes(rest as nat, 0) =~= bytes@);
    bytes
}

} // verus!
