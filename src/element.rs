//! The numeric element abstraction that matrices are built from.
use rand::rngs::StdRng;
use vstd::prelude::*;

verus! {

/// The seeded generator from `rand` that random construction and example
/// sampling draw from.
#[verifier::external_type_specification]
#[verifier::external_body]
pub struct ExStdRng(StdRng);

/// A scalar that matrix entries are made of.
///
/// Each operation is described by a specification function of its arguments
/// alone: an implementation must be deterministic, returning the same value
/// for the same arguments. No algebraic law (associativity, an identity) is
/// assumed; results that need one state it as a precondition.
///
/// Generic code sees every specification function as abstract. The default
/// bodies exist only so that a type outside verified code can implement the
/// trait with its executable methods alone; a verified implementation
/// overrides them, since each default is one fixed unknown value (an
/// implementation keeping them would describe constant operations).
pub trait Real: Sized + Copy {
    /// The additive zero.
    open spec fn zero_spec() -> Self {
        arbitrary()
    }

    /// The multiplicative one.
    open spec fn one_spec() -> Self {
        arbitrary()
    }

    /// `a + b`.
    open spec fn add_spec(a: Self, b: Self) -> Self {
        arbitrary()
    }

    /// `a - b`.
    open spec fn sub_spec(a: Self, b: Self) -> Self {
        arbitrary()
    }

    /// `a * b`.
    open spec fn mul_spec(a: Self, b: Self) -> Self {
        arbitrary()
    }

    /// `a / b`; a zero divisor yields whatever the type's division yields.
    open spec fn div_spec(a: Self, b: Self) -> Self {
        arbitrary()
    }

    /// The logistic function `1 / (1 + e^-x)`.
    open spec fn logistic_spec(x: Self) -> Self {
        arbitrary()
    }

    /// `x` lies in `[-1, 1)`.
    open spec fn in_unit_range(x: Self) -> bool {
        arbitrary()
    }

    fn zero() -> (r: Self)
        ensures
            r == Self::zero_spec(),
    ;

    fn one() -> (r: Self)
        ensures
            r == Self::one_spec(),
    ;

    fn plus(&self, other: &Self) -> (r: Self)
        ensures
            r == Self::add_spec(*self, *other),
    ;

    fn minus(&self, other: &Self) -> (r: Self)
        ensures
            r == Self::sub_spec(*self, *other),
    ;

    fn times(&self, other: &Self) -> (r: Self)
        ensures
            r == Self::mul_spec(*self, *other),
    ;

    fn divided_by(&self, other: &Self) -> (r: Self)
        ensures
            r == Self::div_spec(*self, *other),
    ;

    fn logistic(&self) -> (r: Self)
        ensures
            r == Self::logistic_spec(*self),
    ;

    /// A value drawn uniformly from `[-1, 1)`. Which value comes out depends
    /// on the generator's state; only its range is promised.
    fn sample_symmetric(rng: &mut StdRng) -> (r: Self)
        ensures
            Self::in_unit_range(r),
    ;
}

} // verus!
