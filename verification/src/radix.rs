//! Numbers written as digits in a radix, most significant digit first, and why
//! such a writing is the only one of its number with its leading zeros.

use vstd::prelude::*;

verus! {

/// Every digit is a digit of the radix.
pub open spec fn digits_below(digits: Seq<int>, radix: int) -> bool {
    forall|i: int| 0 <= i < digits.len() ==> 0 <= #[trigger] digits[i] < radix
}

/// The number that the digits write, most significant digit first.
pub open spec fn radix_value(digits: Seq<int>, radix: int) -> int
    decreases digits.len(),
{
    if digits.len() == 0 {
        0
    } else {
        radix_value(digits.drop_last(), radix) * radix + digits.last()
    }
}

/// How many zero digits stand before the first digit that is not zero.
pub open spec fn leading_zeros(digits: Seq<int>) -> nat
    decreases digits.len(),
{
    if digits.len() == 0 || digits[0] != 0 {
        0
    } else {
        1 + leading_zeros(digits.drop_first())
    }
}

/// No number written in digits is negative, and one whose first digit is not
/// zero is not zero.
pub proof fn lemma_value_bounds(digits: Seq<int>, radix: int)
    requires
        radix >= 2,
        digits_below(digits, radix),
    ensures
        radix_value(digits, radix) >= 0,
        digits.len() > 0 && digits[0] != 0 ==> radix_value(digits, radix) >= 1,
    decreases digits.len(),
{
    if digits.len() > 0 {
        let init = digits.drop_last();
        assert(digits_below(init, radix)) by {
            assert forall|i: int| 0 <= i < init.len() implies 0 <= #[trigger] init[i] < radix by {
                assert(init[i] == digits[i]);
            }
        }
        lemma_value_bounds(init, radix);
        let v = radix_value(init, radix);
        assert(v * radix >= 0) by (nonlinear_arith)
            requires
                v >= 0,
                radix >= 2,
        ;
        assert(0 <= digits.last() < radix);
        if digits[0] != 0 {
            if init.len() > 0 {
                assert(init[0] == digits[0]);
                assert(v * radix >= 1) by (nonlinear_arith)
                    requires
                        v >= 1,
                        radix >= 2,
                ;
            } else {
                assert(digits.last() == digits[0]);
            }
        }
    }
}

/// Fewer digits write a smaller number than more digits that begin with a
/// digit other than zero.
pub proof fn lemma_shorter_is_smaller(short: Seq<int>, long: Seq<int>, radix: int)
    requires
        radix >= 2,
        digits_below(short, radix),
        digits_below(long, radix),
        short.len() < long.len(),
        long[0] != 0,
    ensures
        radix_value(short, radix) < radix_value(long, radix),
    decreases long.len(),
{
    lemma_value_bounds(short, radix);
    lemma_value_bounds(long, radix);
    if short.len() > 0 {
        let s = short.drop_last();
        let l = long.drop_last();
        assert(digits_below(s, radix)) by {
            assert forall|i: int| 0 <= i < s.len() implies 0 <= #[trigger] s[i] < radix by {
                assert(s[i] == short[i]);
            }
        }
        assert(digits_below(l, radix)) by {
            assert forall|i: int| 0 <= i < l.len() implies 0 <= #[trigger] l[i] < radix by {
                assert(l[i] == long[i]);
            }
        }
        assert(l[0] == long[0]);
        lemma_shorter_is_smaller(s, l, radix);
        let vs = radix_value(s, radix);
        let vl = radix_value(l, radix);
        assert(vs * radix + radix <= vl * radix) by (nonlinear_arith)
            requires
                vs + 1 <= vl,
                radix >= 2,
        ;
        assert(0 <= short.last() < radix);
        assert(0 <= long.last() < radix);
    }
}

/// Two writings of one number in the same count of digits are the same
/// writing.
pub proof fn lemma_same_length_unique(a: Seq<int>, b: Seq<int>, radix: int)
    requires
        radix >= 2,
        digits_below(a, radix),
        digits_below(b, radix),
        a.len() == b.len(),
        radix_value(a, radix) == radix_value(b, radix),
    ensures
        a == b,
    decreases a.len(),
{
    if a.len() > 0 {
        let ia = a.drop_last();
        let ib = b.drop_last();
        assert(digits_below(ia, radix)) by {
            assert forall|i: int| 0 <= i < ia.len() implies 0 <= #[trigger] ia[i] < radix by {
                assert(ia[i] == a[i]);
            }
        }
        assert(digits_below(ib, radix)) by {
            assert forall|i: int| 0 <= i < ib.len() implies 0 <= #[trigger] ib[i] < radix by {
                assert(ib[i] == b[i]);
            }
        }
        let va = radix_value(ia, radix);
        let vb = radix_value(ib, radix);
        let la = a.last();
        let lb = b.last();
        assert(0 <= la < radix && 0 <= lb < radix);
        assert(va == vb && la == lb) by (nonlinear_arith)
            requires
                va * radix + la == vb * radix + lb,
                0 <= la < radix,
                0 <= lb < radix,
        ;
        lemma_same_length_unique(ia, ib, radix);
        assert(a =~= ia.push(la));
        assert(b =~= ib.push(lb));
    } else {
        assert(a =~= b);
    }
}

/// A zero in front does not change the number.
pub proof fn lemma_leading_zero_value(digits: Seq<int>, radix: int)
    requires
        digits.len() > 0,
        digits[0] == 0,
    ensures
        radix_value(digits, radix) == radix_value(digits.drop_first(), radix),
    decreases digits.len(),
{
    let rest = digits.drop_first();
    let init = digits.drop_last();
    if digits.len() == 1 {
        assert(init.len() == 0);
        assert(rest.len() == 0);
        assert(radix_value(init, radix) == 0);
    } else {
        assert(init[0] == 0);
        lemma_leading_zero_value(init, radix);
        assert(init.drop_first() =~= rest.drop_last());
        assert(rest.last() == digits.last());
    }
}

/// The leading zeros are zeros, and what follows them, if anything, is not.
pub proof fn lemma_leading_zeros_shape(digits: Seq<int>)
    ensures
        leading_zeros(digits) <= digits.len(),
        forall|i: int| 0 <= i < leading_zeros(digits) ==> #[trigger] digits[i] == 0,
        leading_zeros(digits) < digits.len() ==> digits[leading_zeros(digits) as int] != 0,
    decreases digits.len(),
{
    if digits.len() > 0 && digits[0] == 0 {
        let rest = digits.drop_first();
        lemma_leading_zeros_shape(rest);
        let k = leading_zeros(rest);
        assert forall|i: int| 0 <= i < leading_zeros(digits) implies #[trigger] digits[i] == 0 by {
            if i > 0 {
                assert(digits[i] == rest[i - 1]);
            }
        }
        if k < rest.len() {
            assert(digits[k as int + 1] == rest[k as int]);
        }
    }
}

/// The number is that of the digits after the leading zeros.
pub proof fn lemma_stripped_value(digits: Seq<int>, radix: int)
    ensures
        radix_value(digits.skip(leading_zeros(digits) as int), radix) == radix_value(
            digits,
            radix,
        ),
    decreases digits.len(),
{
    if digits.len() > 0 && digits[0] == 0 {
        let rest = digits.drop_first();
        lemma_leading_zero_value(digits, radix);
        lemma_stripped_value(rest, radix);
        lemma_leading_zeros_shape(rest);
        assert(digits.skip(leading_zeros(digits) as int) =~= rest.skip(
            leading_zeros(rest) as int,
        ));
    } else {
        assert(digits.skip(0) =~= digits);
    }
}

/// A number with its count of leading zeros has one writing only.
pub proof fn lemma_radix_unique(a: Seq<int>, b: Seq<int>, radix: int)
    requires
        radix >= 2,
        digits_below(a, radix),
        digits_below(b, radix),
        leading_zeros(a) == leading_zeros(b),
        radix_value(a, radix) == radix_value(b, radix),
    ensures
        a == b,
{
    let k = leading_zeros(a) as int;
    lemma_leading_zeros_shape(a);
    lemma_leading_zeros_shape(b);
    lemma_stripped_value(a, radix);
    lemma_stripped_value(b, radix);
    let sa = a.skip(k);
    let sb = b.skip(k);
    assert(digits_below(sa, radix)) by {
        assert forall|i: int| 0 <= i < sa.len() implies 0 <= #[trigger] sa[i] < radix by {
            assert(sa[i] == a[i + k]);
        }
    }
    assert(digits_below(sb, radix)) by {
        assert forall|i: int| 0 <= i < sb.len() implies 0 <= #[trigger] sb[i] < radix by {
            assert(sb[i] == b[i + k]);
        }
    }
    if sa.len() < sb.len() {
        assert(sb[0] == b[k]);
        lemma_shorter_is_smaller(sa, sb, radix);
    } else if sb.len() < sa.len() {
        assert(sa[0] == a[k]);
        lemma_shorter_is_smaller(sb, sa, radix);
    }
    lemma_same_length_unique(sa, sb, radix);
    assert(a.len() == b.len());
    assert forall|i: int| 0 <= i < a.len() implies a[i] == b[i] by {
        if i >= k {
            assert(a[i] == sa[i - k]);
            assert(b[i] == sb[i - k]);
        }
    }
    assert(a =~= b);
}

/// The digits of a number in a radix, without zeros in front; none for zero.
pub open spec fn digits_of(number: nat, radix: nat) -> Seq<int>
    decreases number,
{
    if number == 0 || radix < 2 {
        Seq::empty()
    } else {
        proof {
            assert(number / radix < number) by (nonlinear_arith)
                requires
                    number > 0,
                    radix >= 2,
            ;
        }
        digits_of(number / radix, radix).push((number % radix) as int)
    }
}

/// The digits of a number write that number, are digits of the radix, and
/// begin with a digit other than zero.
pub proof fn lemma_digits_of(number: nat, radix: nat)
    requires
        radix >= 2,
    ensures
        digits_below(digits_of(number, radix), radix as int),
        radix_value(digits_of(number, radix), radix as int) == number,
        number > 0 ==> digits_of(number, radix).len() > 0 && digits_of(number, radix)[0] != 0,
        number == 0 ==> digits_of(number, radix).len() == 0,
    decreases number,
{
    if number > 0 {
        let q = number / radix;
        let r = number % radix;
        assert(q < number && number == q * radix + r && 0 <= r < radix) by (nonlinear_arith)
            requires
                q == number / radix,
                r == number % radix,
                radix >= 2,
                number > 0,
        ;
        lemma_digits_of(q, radix);
        let init = digits_of(q, radix);
        let digits = digits_of(number, radix);
        assert(digits == init.push(r as int));
        assert(digits.drop_last() =~= init);
        assert(digits.last() == r);
        assert forall|i: int| 0 <= i < digits.len() implies 0 <= #[trigger] digits[i] < radix by {
            if i < init.len() {
                assert(digits[i] == init[i]);
            }
        }
        if q > 0 {
            assert(digits[0] == init[0]);
        } else {
            assert(r != 0);
        }
    }
}

/// Zeros in front of digits that begin with no zero are their leading
/// zeros, and leave their number as it is.
pub proof fn lemma_padded(zeros: nat, digits: Seq<int>, radix: int)
    requires
        digits.len() > 0 ==> digits[0] != 0,
    ensures
        leading_zeros(Seq::new(zeros, |i: int| 0int) + digits) == zeros,
        radix_value(Seq::new(zeros, |i: int| 0int) + digits, radix) == radix_value(
            digits,
            radix,
        ),
    decreases zeros,
{
    let padded = Seq::new(zeros, |i: int| 0int) + digits;
    if zeros == 0 {
        assert(padded =~= digits);
    } else {
        let fewer = (zeros - 1) as nat;
        lemma_padded(fewer, digits, radix);
        assert(padded[0] == 0);
        assert(padded.drop_first() =~= Seq::new(fewer, |i: int| 0int) + digits);
        lemma_leading_zero_value(padded, radix);
    }
}

} // verus!
