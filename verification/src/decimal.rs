//! Decimal rendering of byte offsets, used to spell the inclusive range of
//! a chunk request, and its agreement with the digit reading that size
//! discovery uses.

use vstd::prelude::*;

use crate::WINDOW;
use crate::headers::all_digits;
use crate::headers::dec_val;
use crate::headers::is_digit;

verus! {

/// The base-10 text of a non-negative number, most significant digit first,
/// with no sign and no leading zero (a lone zero for zero).
pub open spec fn dec_repr(n: int) -> Seq<u8>
    decreases n,
{
    if n < 10 {
        seq![(48 + n) as u8]
    } else {
        dec_repr(n / 10).push((48 + n % 10) as u8)
    }
}

/// Rendering and reading agree: the decimal text of `n` is all digits and
/// reads back as `n`.
pub proof fn lemma_decimal_round_trip(n: int)
    requires
        0 <= n,
    ensures
        all_digits(dec_repr(n)),
        dec_val(dec_repr(n)) == n,
    decreases n,
{
    if n < 10 {
        let r = dec_repr(n);
        assert(r.drop_last() =~= Seq::<u8>::empty());
        assert(dec_val(Seq::<u8>::empty()) == 0);
        assert(dec_val(r) == ((48 + n) as u8) - 48);
    } else {
        lemma_decimal_round_trip(n / 10);
        vstd::arithmetic::div_mod::lemma_fundamental_div_mod(n, 10);
        let r = dec_repr(n);
        assert(r.drop_last() =~= dec_repr(n / 10));
        assert(r.last() == (48 + n % 10) as u8);
        assert(dec_val(r) == (n / 10) * 10 + n % 10);
        assert forall|i: int| 0 <= i < r.len() implies is_digit(#[trigger] r[i]) by {
            if i < r.len() - 1 {
                assert(r[i] == dec_repr(n / 10)[i]);
            }
        }
    }
}

/// The part of the number not yet emitted while rendering: nothing once it
/// has shrunk to zero.
pub open spec fn dec_prefix(m: int) -> Seq<u8> {
    if m == 0 {
        Seq::empty()
    } else {
        dec_repr(m)
    }
}

/// Renders `n` in base 10, exactly as `dec_repr` spells it.
pub fn decimal_of(n: usize) -> (r: Vec<u8>)
    ensures
        r@ == dec_repr(n as int),
{
    if n == 0 {
        let r: Vec<u8> = vec![48u8];
        assert(r@ =~= dec_repr(0));
        return r;
    }
    let mut digits_rev: Vec<u8> = Vec::new();
    let ghost mut suffix: Seq<u8> = Seq::empty();
    proof {
        assert(dec_prefix(n as int) + suffix =~= dec_repr(n as int));
    }
    let mut m = n;
    while m > 0
        invariant
            dec_repr(n as int) == dec_prefix(m as int) + suffix,
            digits_rev@.len() == suffix.len(),
            forall|i: int| 0 <= i < suffix.len() ==> #[trigger] suffix[i] == digits_rev@[suffix.len() - 1 - i],
        decreases m,
    {
        let d: u8 = (m % 10) as u8 + 48;
        let m2 = m / 10;
        proof {
            if m < 10 {
                assert(dec_repr(m as int) =~= Seq::<u8>::empty().push(d));
            }
            assert(dec_repr(m as int) == dec_prefix(m2 as int).push(d));
            assert(dec_prefix(m as int) + suffix =~= dec_prefix(m2 as int) + (seq![d] + suffix));
        }
        digits_rev.push(d);
        proof {
            let old_suffix = suffix;
            suffix = seq![d] + old_suffix;
            assert forall|i: int| 0 <= i < suffix.len() implies #[trigger] suffix[i] == digits_rev@[suffix.len() - 1 - i] by {
                if i > 0 {
                    assert(suffix[i] == old_suffix[i - 1]);
                    assert(old_suffix[i - 1] == digits_rev@[old_suffix.len() - 1 - (i - 1)]);
                }
            }
        }
        m = m2;
    }
    proof {
        assert(Seq::<u8>::empty() + suffix =~= suffix);
    }
    let mut out: Vec<u8> = Vec::new();
    let count = digits_rev.len();
    let mut k: usize = 0;
    while k < count
        invariant
            k <= count,
            count == digits_rev@.len(),
            count == suffix.len(),
            dec_repr(n as int) == suffix,
            forall|i: int| 0 <= i < suffix.len() ==> #[trigger] suffix[i] == digits_rev@[suffix.len() - 1 - i],
            out@ == suffix.take(k as int),
        decreases count - k,
    {
        out.push(digits_rev[count - 1 - k]);
        proof {
            assert(suffix.take(k as int + 1) =~= suffix.take(k as int).push(suffix[k as int]));
        }
        k = k + 1;
    }
    proof {
        assert(suffix.take(count as int) =~= suffix);
    }
    out
}

/// The text of the `Range` value issued at `position`: the decimal start, a
/// hyphen, the decimal end of one inclusive window, exactly the window that
/// `chunk_range` computes.
pub fn range_text(position: usize) -> (r: Vec<u8>)
    requires
        position + WINDOW - 1 <= usize::MAX,
    ensures
        r@ == dec_repr(position as int) + seq![45u8] + dec_repr(position + WINDOW - 1),
{
    let (start, end) = crate::chunk_range(position);
    let mut r = decimal_of(start);
    r.push(45u8);
    let mut tail = decimal_of(end);
    r.append(&mut tail);
    proof {
        assert(r@ =~= dec_repr(position as int) + seq![45u8] + dec_repr(position + WINDOW - 1));
    }
    r
}

} // verus!
