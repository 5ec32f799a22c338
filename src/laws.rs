//! Laws that relate the operations of `FastDiv` to one another.
use crate::FastDiv;
use vstd::arithmetic::div_mod::lemma_fundamental_div_mod;
use vstd::prelude::*;

verus! {

/// Quotient times divisor plus remainder gives back the dividend: with
/// `p` the factor of `d`, `a.fast_div(p) * d + a.fast_mod(p, d) == a`.
pub proof fn reconstruction<T: FastDiv>(a: T, d: T, p: T::PrecomputedDiv)
    requires
        1 < d.value(),
        T::divisor(p) == d.value(),
    ensures
        (a.value() / T::divisor(p)) * d.value() + a.value() % d.value() == a.value(),
{
    lemma_fundamental_div_mod(a.value(), d.value());
    assert((a.value() / d.value()) * d.value() == d.value() * (a.value() / d.value())) by (
    nonlinear_arith);
}

/// A zero dividend gives quotient 0 and remainder 0, and is a multiple of
/// every divisor.
pub proof fn zero_dividend<T: FastDiv>(a: T, d: T, p: T::PrecomputedDiv)
    requires
        a.value() == 0,
        1 < d.value(),
        T::divisor(p) == d.value(),
    ensures
        a.value() / T::divisor(p) == 0,
        a.value() % d.value() == 0,
        (a.value() % T::divisor(p) == 0),
{
}

} // verus!
