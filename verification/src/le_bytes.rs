//! Reading little-endian words out of the circuit's 32-byte output fields.
use vstd::prelude::*;

verus! {

/// The number that `bytes` spell in little-endian order.
pub open spec fn le_value(bytes: Seq<u8>) -> nat
    decreases bytes.len(),
{
    if bytes.len() == 0 {
        0
    } else {
        bytes[0] as nat + 256 * le_value(bytes.drop_first())
    }
}

/// 256 to the power `n`.
pub open spec fn byte_range(n: nat) -> nat
    decreases n,
{
    if n == 0 {
        1
    } else {
        256 * byte_range((n - 1) as nat)
    }
}

proof fn lemma_le_value_bound(bytes: Seq<u8>)
    ensures
        le_value(bytes) < byte_range(bytes.len()),
    decreases bytes.len(),
{
    if bytes.len() > 0 {
        lemma_le_value_bound(bytes.drop_first());
    }
}

/// `u64::from_le_bytes` of the first eight bytes of `field`.
pub fn u64_from_le_prefix(field: &[u8; 32]) -> (value: u64)
    ensures
        value == le_value(field@.subrange(0, 8)),
{
    assert(byte_range(7) == 0x100_0000_0000_0000) by {
        reveal_with_fuel(byte_range, 8);
    }
    let mut value: u64 = 0;
    let mut k: usize = 8;
    assert(field@.subrange(8, 8) =~= Seq::<u8>::empty());
    while k > 0
        invariant
            k <= 8,
            value as nat == le_value(field@.subrange(k as int, 8)),
            byte_range(7) == 0x100_0000_0000_0000,
        decreases k,
    {
        proof {
            lemma_le_value_bound(field@.subrange(k as int, 8));
            if k < 8 {
                lemma_byte_range_grows((8 - k) as nat, 7);
            }
            assert(field@.subrange(k - 1, 8).drop_first() =~= field@.subrange(k as int, 8));
        }
        value = value * 256 + field[k - 1] as u64;
        k = k - 1;
    }
    value
}

proof fn lemma_byte_range_grows(m: nat, n: nat)
    requires
        m <= n,
    ensures
        byte_range(m) <= byte_range(n),
    decreases n,
{
    if m < n {
        lemma_byte_range_grows(m, (n - 1) as nat);
    }
}

} // verus!
