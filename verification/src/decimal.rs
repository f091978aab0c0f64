//! Decimal numbers as ASCII text: how a number is written into a field, and how
//! a field is read back.

use crate::hex::{digit_byte, digit_of};
use vstd::prelude::*;

verus! {

/// Ten to the power `k`.
pub open spec fn pow10(k: nat) -> nat
    decreases k,
{
    if k == 0 {
        1
    } else {
        10 * pow10((k - 1) as nat)
    }
}

/// The decimal text of `n`: no sign, no leading zero, `0` for zero.
pub open spec fn digits(n: nat) -> Seq<u8>
    decreases n,
{
    if n < 10 {
        seq![digit_byte(n as int)]
    } else {
        digits(n / 10).push(digit_byte((n % 10) as int))
    }
}

/// `count` times the digit zero.
pub open spec fn zeros(count: nat) -> Seq<u8> {
    Seq::new(count, |i: int| 48u8)
}

/// The decimal text of `n` in at least `width` digits, with zeros in front
/// where it has fewer. A number of more digits is written in full.
pub open spec fn padded(n: nat, width: nat) -> Seq<u8> {
    let text = digits(n);
    if text.len() < width {
        zeros((width - text.len()) as nat) + text
    } else {
        text
    }
}

/// The value of a run of decimal digits, the empty run counting as zero, or
/// `None` where a byte is no decimal digit.
pub open spec fn run_value(text: Seq<u8>) -> Option<nat>
    decreases text.len(),
{
    if text.len() == 0 {
        Some(0)
    } else {
        let last = text.last();
        match run_value(text.drop_last()) {
            Some(v) => if 48 <= last <= 57 {
                Some((10 * v + (last - 48)) as nat)
            } else {
                None
            },
            None => None,
        }
    }
}

/// The number that `text` spells: one or more decimal digits and nothing
/// else, neither a sign nor a blank.
pub open spec fn number(text: Seq<u8>) -> Option<nat> {
    if text.len() == 0 {
        None
    } else {
        run_value(text)
    }
}

/// A run of `k` digits is worth less than ten to the `k`.
pub proof fn lemma_run_value_below(text: Seq<u8>)
    ensures
        run_value(text) matches Some(v) ==> v < pow10(text.len()),
    decreases text.len(),
{
    if text.len() > 0 {
        lemma_run_value_below(text.drop_last());
    }
}

/// A number spelled in `k` bytes is less than ten to the `k`.
pub proof fn lemma_number_below(text: Seq<u8>)
    ensures
        number(text) matches Some(v) ==> v < pow10(text.len()),
{
    lemma_run_value_below(text);
}

/// A run has a value exactly where all its bytes are decimal digits.
pub proof fn lemma_run_value_digits(text: Seq<u8>)
    ensures
        run_value(text) is Some <==> forall|i: int|
            0 <= i < text.len() ==> 48 <= #[trigger] text[i] <= 57,
    decreases text.len(),
{
    if text.len() > 0 {
        let front = text.drop_last();
        lemma_run_value_digits(front);
        if run_value(text) is Some {
            assert forall|i: int| 0 <= i < text.len() implies 48 <= #[trigger] text[i] <= 57 by {
                if i < front.len() {
                    assert(text[i] == front[i]);
                }
            }
        } else if run_value(front) is Some {
            assert(!(48 <= text[text.len() - 1] <= 57));
        } else {
            let i = choose|i: int| 0 <= i < front.len() && !(48 <= #[trigger] front[i] <= 57);
            assert(text[i] == front[i]);
        }
    }
}

/// A text spells a number exactly where it is one or more decimal digits.
pub proof fn lemma_number_digits(text: Seq<u8>)
    ensures
        number(text) is Some <==> text.len() >= 1 && forall|i: int|
            0 <= i < text.len() ==> 48 <= #[trigger] text[i] <= 57,
{
    lemma_run_value_digits(text);
}

/// The powers of ten that the fields of a hash text and a checksum call for.
pub proof fn lemma_pow10()
    ensures
        pow10(1) == 10,
        pow10(2) == 100,
        pow10(4) == 10_000,
        pow10(10) == 10_000_000_000,
{
    reveal_with_fuel(pow10, 11);
}

/// A field of four bytes spells no number above 9999.
pub proof fn lemma_four_digits(text: Seq<u8>)
    requires
        text.len() == 4,
    ensures
        number(text) matches Some(v) ==> v <= 9999,
{
    lemma_number_below(text);
    lemma_pow10();
}

/// The value of a run is at least the value of each of its beginnings, and a
/// beginning of a run of digits is one.
pub proof fn lemma_run_value_grows(text: Seq<u8>, k: int)
    requires
        0 <= k <= text.len(),
        run_value(text) is Some,
    ensures
        run_value(text.take(k)) matches Some(v) && v <= run_value(text).unwrap(),
    decreases text.len(),
{
    if k == text.len() {
        assert(text.take(k) =~= text);
    } else {
        lemma_run_value_grows(text.drop_last(), k);
        assert(text.drop_last().take(k) =~= text.take(k));
    }
}

/// Decimal text is one digit or more, all of them decimal, and is worth the
/// number it was written for.
pub proof fn lemma_digits(n: nat)
    ensures
        digits(n).len() >= 1,
        forall|i: int| 0 <= i < digits(n).len() ==> 48 <= #[trigger] digits(n)[i] <= 57,
        run_value(digits(n)) == Some(n),
    decreases n,
{
    let text = digits(n);
    if n < 10 {
        assert(text.drop_last() =~= Seq::<u8>::empty());
        assert(text.last() == 48 + n);
        assert(run_value(text.drop_last()) == Some(0nat));
    } else {
        lemma_digits(n / 10);
        assert(text.drop_last() =~= digits(n / 10));
        assert(text.last() == 48 + n % 10);
        assert(run_value(text.drop_last()) == Some(n / 10));
    }
}

/// A number below ten to the `k` is written in at most `k` digits.
pub proof fn lemma_digits_len(n: nat, k: nat)
    requires
        k >= 1,
        n < pow10(k),
    ensures
        digits(n).len() <= k,
    decreases k,
{
    if n >= 10 {
        lemma_pow10();
        lemma_digits_len(n / 10, (k - 1) as nat);
    }
}

/// Zeros in front of a run do not change its value.
pub proof fn lemma_run_value_zeros(count: nat, text: Seq<u8>)
    ensures
        run_value(zeros(count) + text) == run_value(text),
    decreases text.len(), count,
{
    let whole = zeros(count) + text;
    if text.len() > 0 {
        lemma_run_value_zeros(count, text.drop_last());
        assert(whole.drop_last() =~= zeros(count) + text.drop_last());
    } else if count > 0 {
        lemma_run_value_zeros((count - 1) as nat, text);
        assert(whole.drop_last() =~= zeros((count - 1) as nat) + text);
    } else {
        assert(whole =~= text);
    }
}

/// A padded number is at least `width` digits long, all of them decimal, and
/// reads back as the number.
pub proof fn lemma_padded(n: nat, width: nat)
    ensures
        padded(n, width).len() >= width,
        padded(n, width).len() >= 1,
        n < pow10(width) && width >= 1 ==> padded(n, width).len() == width,
        forall|i: int|
            0 <= i < padded(n, width).len() ==> 48 <= #[trigger] padded(n, width)[i] <= 57,
        number(padded(n, width)) == Some(n),
{
    lemma_digits(n);
    if n < pow10(width) && width >= 1 {
        lemma_digits_len(n, width);
    }
    if digits(n).len() < width {
        lemma_run_value_zeros((width - digits(n).len()) as nat, digits(n));
    }
}

/// Appends the decimal text of `n` to `out`.
pub fn push_digits(n: u64, out: &mut Vec<u8>)
    ensures
        final(out)@ == old(out)@ + digits(n as nat),
    decreases n,
{
    if n >= 10 {
        push_digits(n / 10, out);
    }
    out.push(digit_of((n % 10) as u8));
    assert(out@ =~= old(out)@ + digits(n as nat));
}

/// Appends the decimal text of `n` in at least `width` digits to `out`.
pub fn push_padded(n: u64, width: usize, out: &mut Vec<u8>)
    ensures
        final(out)@ == old(out)@ + padded(n as nat, width as nat),
{
    let mut text: Vec<u8> = Vec::new();
    push_digits(n, &mut text);
    assert(text@ =~= digits(n as nat));
    let ghost before = out@;
    let mut count: usize = text.len();
    while count < width
        invariant
            text@.len() <= count,
            count <= width || count == text@.len(),
            out@ == before + zeros((count - text@.len()) as nat),
        decreases width - count,
    {
        out.push(48u8);
        count += 1;
        assert(out@ =~= before + zeros((count - text@.len()) as nat));
    }
    let mut i: usize = 0;
    let ghost padding = out@;
    while i < text.len()
        invariant
            i <= text@.len(),
            out@ == padding + text@.take(i as int),
        decreases text@.len() - i,
    {
        out.push(text[i]);
        i += 1;
        assert(out@ =~= padding + text@.take(i as int));
    }
    assert(text@.take(i as int) =~= text@);
    assert(out@ =~= before + padded(n as nat, width as nat));
}

/// Reads the number that `text` spells, where it fits a `usize`.
pub fn number_of(text: &[u8]) -> (value: Option<usize>)
    ensures
        match value {
            Some(v) => number(text@) == Some(v as nat),
            None => number(text@) matches Some(n) ==> n > usize::MAX,
        },
{
    if text.len() == 0 {
        return None;
    }
    let mut value: usize = 0;
    let mut i: usize = 0;
    while i < text.len()
        invariant
            i <= text@.len(),
            run_value(text@.take(i as int)) == Some(value as nat),
        decreases text@.len() - i,
    {
        let byte = text[i];
        let ghost next = text@.take(i + 1);
        assert(next.drop_last() =~= text@.take(i as int));
        assert(next.last() == byte);
        let grown = if 48 <= byte && byte <= 57 {
            match value.checked_mul(10) {
                Some(tens) => tens.checked_add((byte - 48) as usize),
                None => None,
            }
        } else {
            None
        };
        match grown {
            Some(v) => {
                value = v;
            },
            None => {
                proof {
                    if run_value(text@) is Some {
                        lemma_run_value_grows(text@, i + 1);
                    }
                }
                return None;
            },
        }
        i += 1;
    }
    assert(text@.take(i as int) =~= text@);
    Some(value)
}

} // verus!
