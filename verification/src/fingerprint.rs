//! A 64-bit number drawn from the end of a byte sequence, for quick comparison.

use vstd::prelude::*;

verus! {

/// The number that `bytes` spell in little-endian order: the first byte counts
/// least.
pub open spec fn le_value(bytes: Seq<u8>) -> nat
    decreases bytes.len(),
{
    if bytes.len() == 0 {
        0
    } else {
        bytes[0] as nat + 256 * le_value(bytes.drop_first())
    }
}

/// The eight bytes that the fingerprint is read from: the last eight of
/// `bytes`, or all of them with zero bytes after them where there are fewer.
pub open spec fn window(bytes: Seq<u8>) -> Seq<u8> {
    if bytes.len() < 8 {
        bytes + Seq::new((8 - bytes.len()) as nat, |i: int| 0u8)
    } else {
        bytes.subrange(bytes.len() - 8, bytes.len() as int)
    }
}

/// The fingerprint of `bytes`: the little-endian value of its [`window`].
pub open spec fn fingerprint(bytes: Seq<u8>) -> nat {
    le_value(window(bytes))
}

/// 256 to the power `k`.
pub open spec fn pow256(k: nat) -> nat
    decreases k,
{
    if k == 0 {
        1
    } else {
        256 * pow256((k - 1) as nat)
    }
}

/// `k` bytes spell a number below 256 to the `k`.
pub proof fn lemma_le_value_below(bytes: Seq<u8>)
    ensures
        le_value(bytes) < pow256(bytes.len()),
    decreases bytes.len(),
{
    if bytes.len() > 0 {
        lemma_le_value_below(bytes.drop_first());
    }
}

/// Zero bytes after a sequence do not change the number it spells.
pub proof fn lemma_le_value_zeros(bytes: Seq<u8>, count: nat)
    ensures
        le_value(bytes + Seq::new(count, |i: int| 0u8)) == le_value(bytes),
    decreases bytes.len(), count,
{
    let tail = Seq::new(count, |i: int| 0u8);
    let whole = bytes + tail;
    if bytes.len() > 0 {
        lemma_le_value_zeros(bytes.drop_first(), count);
        assert(whole.drop_first() =~= bytes.drop_first() + tail);
    } else if count > 0 {
        lemma_le_value_zeros(bytes, (count - 1) as nat);
        assert(whole.drop_first() =~= bytes + Seq::new((count - 1) as nat, |i: int| 0u8));
    } else {
        assert(whole =~= bytes);
    }
}

/// Computes [`fingerprint`].
pub fn fingerprint_of(bytes: &[u8]) -> (value: u64)
    ensures
        value == fingerprint(bytes@),
{
    let len: usize = bytes.len();
    let start: usize = if len < 8 {
        0
    } else {
        len - 8
    };
    let mut value: u64 = 0;
    let mut i: usize = len;
    while i > start
        invariant
            start <= i <= len,
            len == bytes@.len(),
            len - start <= 8,
            value == le_value(bytes@.subrange(i as int, len as int)),
        decreases i,
    {
        let ghost upper = bytes@.subrange(i as int, len as int);
        i -= 1;
        let ghost taken = bytes@.subrange(i as int, len as int);
        proof {
            assert(taken.drop_first() =~= upper);
            lemma_le_value_below(upper);
            lemma_le_value_below(taken);
            assert(pow256(8) == 0x1_0000_0000_0000_0000 && pow256(taken.len()) <= pow256(8)) by {
                reveal_with_fuel(pow256, 9);
            }
        }
        value = value * 256 + bytes[i] as u64;
    }
    proof {
        let taken = bytes@.subrange(start as int, len as int);
        if len < 8 {
            assert(taken =~= bytes@);
            lemma_le_value_zeros(bytes@, (8 - len) as nat);
        }
    }
    value
}

} // verus!
