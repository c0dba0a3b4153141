//! Positional numerals: numbers as digit strings, most significant digit first.
use vstd::prelude::*;

verus! {

/// The number that a digit string stands for.
pub open spec fn number(digits: Seq<nat>, base: nat) -> nat
    decreases digits.len(),
{
    if digits.len() == 0 {
        0
    } else {
        number(digits.drop_last(), base) * base + digits.last()
    }
}

/// The digits of a number, without leading zeros. Zero has no digits.
pub open spec fn numeral(n: nat, base: nat) -> Seq<nat>
    decreases n,
{
    if n == 0 || base < 2 {
        Seq::empty()
    } else {
        proof {
            lemma_quotient_smaller(n, base);
        }
        numeral(n / base, base).push(n % base)
    }
}

/// Whether every element is a digit of the base.
pub open spec fn are_digits(digits: Seq<nat>, base: nat) -> bool {
    forall|i: int| 0 <= i < digits.len() ==> #[trigger] digits[i] < base
}

/// How many elements at the front of a sequence equal `x`.
pub open spec fn leading<A>(s: Seq<A>, x: A) -> nat
    decreases s.len(),
{
    if s.len() > 0 && s[0] == x {
        1 + leading(s.skip(1), x)
    } else {
        0
    }
}

/// `n` copies of `x`.
pub open spec fn copies<A>(n: nat, x: A) -> Seq<A> {
    Seq::new(n, |i: int| x)
}

/// Division by a base of at least two makes a positive number smaller.
pub proof fn lemma_quotient_smaller(n: nat, base: nat)
    requires
        n > 0,
        base >= 2,
    ensures
        n / base < n,
{
    assert(n / base < n) by (nonlinear_arith)
        requires
            n > 0,
            base >= 2,
    ;
}

/// Reading the digits of a number gives the number back.
pub proof fn lemma_number_of_numeral(n: nat, base: nat)
    requires
        base >= 2,
    ensures
        number(numeral(n, base), base) == n,
        are_digits(numeral(n, base), base),
        numeral(n, base).len() > 0 ==> numeral(n, base)[0] != 0,
    decreases n,
{
    if n > 0 {
        lemma_quotient_smaller(n, base);
        lemma_number_of_numeral(n / base, base);
        let rest = numeral(n / base, base);
        assert(numeral(n, base).drop_last() =~= rest);
        vstd::arithmetic::div_mod::lemma_fundamental_div_mod(n as int, base as int);
        assert(base * (n / base) == (n / base) * base) by (nonlinear_arith);
        assert(n % base < base) by (nonlinear_arith)
            requires
                base >= 2,
        ;
        if n / base == 0 {
            assert(rest =~= Seq::<nat>::empty());
            assert((n / base) * base == 0) by (nonlinear_arith)
                requires
                    n / base == 0,
            ;
        } else {
            lemma_quotient_smaller(n / base, base);
            assert(rest.len() > 0);
        }
    }
}

/// Digits that do not start with zero are the digits of their number.
pub proof fn lemma_numeral_of_number(digits: Seq<nat>, base: nat)
    requires
        base >= 2,
        are_digits(digits, base),
        digits.len() > 0 ==> digits[0] != 0,
    ensures
        numeral(number(digits, base), base) == digits,
        digits.len() > 0 ==> number(digits, base) > 0,
    decreases digits.len(),
{
    if digits.len() > 0 {
        let rest = digits.drop_last();
        assert forall|i: int| 0 <= i < rest.len() implies #[trigger] rest[i] < base by {
            assert(digits[i] < base);
        }
        lemma_numeral_of_number(rest, base);
        let n = number(digits, base);
        let q = number(rest, base);
        let r = digits.last();
        assert(r < base);
        assert(q * base == base * q) by (nonlinear_arith);
        vstd::arithmetic::div_mod::lemma_fundamental_div_mod_converse(
            n as int,
            base as int,
            q as int,
            r as int,
        );
        if rest.len() > 0 {
            assert(q * base > 0) by (nonlinear_arith)
                requires
                    q > 0,
                    base >= 2,
            ;
        } else {
            assert(digits[0] == r);
        }
        assert(n > 0);
        assert(numeral(n, base) =~= rest.push(r));
        assert(rest.push(r) =~= digits);
    } else {
        assert(numeral(0, base) =~= digits);
    }
}

/// Leading zeros do not change a number.
pub proof fn lemma_leading_zeros(k: nat, digits: Seq<nat>, base: nat)
    ensures
        number(copies(k, 0) + digits, base) == number(digits, base),
    decreases k + digits.len(),
{
    let all = copies(k, 0nat) + digits;
    if digits.len() > 0 {
        assert(all.drop_last() =~= copies(k, 0nat) + digits.drop_last());
        lemma_leading_zeros(k, digits.drop_last(), base);
    } else if k > 0 {
        assert(all.drop_last() =~= copies((k - 1) as nat, 0nat) + digits);
        lemma_leading_zeros((k - 1) as nat, digits, base);
        assert(0 * base == 0);
    }
}

/// A sequence is its leading run of `x`, followed by something that does not
/// start with `x`.
pub proof fn lemma_leading<A>(s: Seq<A>, x: A)
    ensures
        leading(s, x) <= s.len(),
        s == copies(leading(s, x), x) + s.skip(leading(s, x) as int),
        leading(s, x) < s.len() ==> s[leading(s, x) as int] != x,
    decreases s.len(),
{
    if s.len() > 0 && s[0] == x {
        lemma_leading(s.skip(1), x);
        let k = leading(s.skip(1), x);
        let t = copies(k + 1, x) + s.skip((k + 1) as int);
        assert forall|i: int| 0 <= i < s.len() implies s[i] == t[i] by {
            if 1 <= i <= k {
                assert(s.skip(1)[i - 1] == (copies(k, x) + s.skip(1).skip(k as int))[i - 1]);
            }
        }
        assert(s =~= t);
    } else {
        assert(s =~= copies(0, x) + s.skip(0));
    }
}

/// A run of `x` in front of something that does not start with `x` is the
/// leading run.
pub proof fn lemma_leading_run<A>(k: nat, s: Seq<A>, x: A)
    requires
        s.len() > 0 ==> s[0] != x,
    ensures
        leading(copies(k, x) + s, x) == k,
    decreases k,
{
    let all = copies(k, x) + s;
    if k > 0 {
        assert(all.skip(1) =~= copies((k - 1) as nat, x) + s);
        lemma_leading_run((k - 1) as nat, s, x);
    } else {
        assert(all =~= s);
    }
}

} // verus!
