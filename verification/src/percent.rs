use vstd::prelude::*;
use vstd::arithmetic::div_mod::{lemma_fundamental_div_mod, lemma_fundamental_div_mod_converse_div};
use vstd::arithmetic::mul::{
    lemma_mul_is_associative, lemma_mul_is_commutative, lemma_mul_is_distributive_add_other_way,
    lemma_mul_nonnegative,
};

use crate::HUNDRED_PERCENT;

verus! {

/// `percent` of `amount`, on the scale where [`HUNDRED_PERCENT`] is 100%, rounded down.
pub open spec fn percent_of(amount: nat, percent: nat) -> nat {
    amount * percent / (HUNDRED_PERCENT as nat)
}

/// A percentage is the share of the amount, rounded down, on the scale where 100% is one
/// hundred million: multiplied back by that scale it is at most `amount * percent`, and less
/// than the scale below it. So 100% of an amount is the amount.
pub proof fn law_percent_of_rounds_down(amount: nat, percent: nat)
    ensures
        percent_of(amount, percent) * 100_000_000 <= amount * percent,
        amount * percent < (percent_of(amount, percent) + 1) * 100_000_000,
        percent_of(amount, 100_000_000) == amount,
{
    lemma_fundamental_div_mod((amount * percent) as int, 100_000_000);
    lemma_fundamental_div_mod_converse_div((amount * 100_000_000) as int, 100_000_000, amount as int, 0);
}

proof fn lemma_percent_split(a: nat, p: nat, q: nat, r: nat, s: nat, t: nat)
    requires
        a == q * (HUNDRED_PERCENT as nat) + r,
        r * p == s * (HUNDRED_PERCENT as nat) + t,
        t < HUNDRED_PERCENT,
    ensures
        percent_of(a, p) == q * p + s,
{
    let h = HUNDRED_PERCENT as int;
    assert(a * p == (q * h + r) * p);
    assert((q * h + r) * p == (q * h) * p + r * p) by {
        lemma_mul_is_distributive_add_other_way(p as int, (q * h) as int, r as int);
    }
    assert((q * h) * p == (q * p) * h) by {
        lemma_mul_is_associative(q as int, h, p as int);
        lemma_mul_is_associative(q as int, p as int, h);
        lemma_mul_is_commutative(h, p as int);
    }
    assert(a * p == (q * p + s) * h + t) by {
        lemma_mul_is_distributive_add_other_way(h, (q * p) as int, s as int);
    }
    lemma_fundamental_div_mod_converse_div((a * p) as int, h, (q * p + s) as int, t as int);
}

/// `percent` of `amount` on the scale where [`HUNDRED_PERCENT`] is 100%, rounded down;
/// `None` when that value does not fit in a `u128`.
pub fn checked_percent_of(amount: u128, percent: u64) -> (r: Option<u128>)
    ensures
        match r {
            Some(v) => v == percent_of(amount as nat, percent as nat),
            None => percent_of(amount as nat, percent as nat) > u128::MAX,
        },
{
    let h: u128 = HUNDRED_PERCENT as u128;
    let q: u128 = amount / h;
    let r: u128 = amount % h;
    let p: u128 = percent as u128;
    assert(r * p < 100_000_000 * 0x1_0000_0000_0000_0000) by (nonlinear_arith)
        requires
            r < 100_000_000,
            p < 0x1_0000_0000_0000_0000,
    ;
    let rp: u128 = r * p;
    let s: u128 = rp / h;
    let t: u128 = rp % h;
    proof {
        lemma_fundamental_div_mod(amount as int, h as int);
        lemma_fundamental_div_mod(rp as int, h as int);
        assert(amount as nat == (q as nat) * (HUNDRED_PERCENT as nat) + (r as nat));
        assert((r as nat) * (p as nat) == (s as nat) * (HUNDRED_PERCENT as nat) + (t as nat));
        lemma_percent_split(amount as nat, percent as nat, q as nat, r as nat, s as nat, t as nat);
        lemma_mul_nonnegative(q as int, p as int);
    }
    match q.checked_mul(p) {
        Some(qp) => {
            match qp.checked_add(s) {
                Some(v) => Some(v),
                None => None,
            }
        },
        None => None,
    }
}

} // verus!
