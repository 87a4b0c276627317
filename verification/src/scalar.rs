//! The capability that the pipeline needs of a representation of the real
//! numbers, with the random number generator that weights are drawn from and
//! the noise generator that the world is made of.

use noise::OpenSimplex;
use rand::rngs::ThreadRng;
use vstd::prelude::*;

verus! {

/// The thread-local random number generator of `rand`, opaque to the
/// verifier: it is only created here and handed to [`Scalar::sample_inclusive`].
#[verifier::external_type_specification]
#[verifier::external_body]
pub struct ExThreadRng(ThreadRng);

/// Calls `rand::thread_rng`, which hands out the generator of the current
/// thread. Nothing is claimed of the generator.
#[verifier::external_body]
pub(crate) fn thread_rng() -> ThreadRng {
    rand::thread_rng()
}

/// The OpenSimplex noise generator of `noise`, opaque to the verifier: it is
/// only created here and handed to [`Scalar::noise_at`].
#[verifier::external_type_specification]
#[verifier::external_body]
pub struct ExOpenSimplex(OpenSimplex);

/// The seed that a noise generator was made with.
pub uninterp spec fn seed_of(noise: OpenSimplex) -> u32;

/// Calls `OpenSimplex::new`, which makes a noise generator from a seed and
/// keeps the seed in it.
#[verifier::external_body]
pub(crate) fn open_simplex(seed: u32) -> (noise: OpenSimplex)
    ensures
        seed_of(noise) == seed,
{
    OpenSimplex::new(seed)
}

/// A representation of the real numbers: the arithmetic, the order and the
/// transcendental operations that the networks, the motion of the agents and
/// the generation of the world are computed with.
///
/// Nothing is promised of what an operation computes, and an implementation
/// owes nothing but to return. What this crate states of scalar values it
/// states through the names that [`ScalarSpec`] gives to the results of these
/// operations, for a representation in which each operation is a function
/// of its operands (see [`deterministic`]).
pub trait Scalar: Copy {
    /// `num / den` as a scalar.
    fn from_ratio(num: i32, den: i32) -> Self
        requires
            den != 0,
    ;

    /// `n` as a scalar.
    fn from_count(n: usize) -> Self;

    /// The whole part of `self` as a count: the greatest natural number that
    /// is not above it.
    fn floor_to_count(self) -> usize;

    /// A full turn in radians, 2π.
    fn tau() -> Self;

    /// `self + rhs`.
    fn plus(self, rhs: Self) -> Self;

    /// `self - rhs`.
    fn minus(self, rhs: Self) -> Self;

    /// `self * rhs`.
    fn times(self, rhs: Self) -> Self;

    /// `self / rhs`.
    fn over(self, rhs: Self) -> Self;

    /// `-self`.
    fn negated(self) -> Self;

    /// `e` to the power of `self`.
    fn exp(self) -> Self;

    /// The cosine of `self`, an angle in radians.
    fn cos(self) -> Self;

    /// The sine of `self`, an angle in radians.
    fn sin(self) -> Self;

    /// The value of the noise field of `noise` at the point `(x, y)`.
    fn noise_at(noise: &OpenSimplex, x: Self, y: Self) -> Self;

    /// `self < rhs`.
    fn lt(self, rhs: Self) -> bool;

    /// `self >= rhs`.
    fn ge(self, rhs: Self) -> bool;

    /// A value drawn uniformly from `low ..= high` with `rng`.
    fn sample_inclusive(rng: &mut ThreadRng, low: Self, high: Self) -> Self;
}

/// Names for what the operations of a [`Scalar`] return. Each name stands for
/// a value that the operation can return on the given operands; where the
/// operation is a function of its operands, that is the value it returns.
pub trait ScalarSpec: Scalar {
    /// What [`Scalar::from_ratio`] returns.
    spec fn ratio(num: i32, den: i32) -> Self;

    /// What [`Scalar::from_count`] returns.
    spec fn count(n: usize) -> Self;

    /// What [`Scalar::floor_to_count`] returns.
    spec fn whole(self) -> usize;

    /// What [`Scalar::tau`] returns.
    spec fn full_turn() -> Self;

    /// What [`Scalar::plus`] returns.
    spec fn sum(self, rhs: Self) -> Self;

    /// What [`Scalar::minus`] returns.
    spec fn difference(self, rhs: Self) -> Self;

    /// What [`Scalar::times`] returns.
    spec fn product(self, rhs: Self) -> Self;

    /// What [`Scalar::over`] returns.
    spec fn quotient(self, rhs: Self) -> Self;

    /// What [`Scalar::negated`] returns.
    spec fn negation(self) -> Self;

    /// What [`Scalar::exp`] returns.
    spec fn exponential(self) -> Self;

    /// What [`Scalar::cos`] returns.
    spec fn cosine(self) -> Self;

    /// What [`Scalar::sin`] returns.
    spec fn sine(self) -> Self;

    /// What [`Scalar::noise_at`] returns.
    spec fn noise_value(noise: OpenSimplex, x: Self, y: Self) -> Self;

    /// What [`Scalar::lt`] returns.
    spec fn below(self, rhs: Self) -> bool;

    /// What [`Scalar::ge`] returns.
    spec fn not_below(self, rhs: Self) -> bool;
}

impl<T: Scalar> ScalarSpec for T {
    open spec fn ratio(num: i32, den: i32) -> Self {
        choose|r: T| #[trigger] call_ensures(T::from_ratio, (num, den), r)
    }

    open spec fn count(n: usize) -> Self {
        choose|r: T| #[trigger] call_ensures(T::from_count, (n,), r)
    }

    open spec fn whole(self) -> usize {
        choose|r: usize| #[trigger] call_ensures(T::floor_to_count, (self,), r)
    }

    open spec fn full_turn() -> Self {
        choose|r: T| #[trigger] call_ensures(T::tau, (), r)
    }

    open spec fn sum(self, rhs: Self) -> Self {
        choose|r: T| #[trigger] call_ensures(T::plus, (self, rhs), r)
    }

    open spec fn difference(self, rhs: Self) -> Self {
        choose|r: T| #[trigger] call_ensures(T::minus, (self, rhs), r)
    }

    open spec fn product(self, rhs: Self) -> Self {
        choose|r: T| #[trigger] call_ensures(T::times, (self, rhs), r)
    }

    open spec fn quotient(self, rhs: Self) -> Self {
        choose|r: T| #[trigger] call_ensures(T::over, (self, rhs), r)
    }

    open spec fn negation(self) -> Self {
        choose|r: T| #[trigger] call_ensures(T::negated, (self,), r)
    }

    open spec fn exponential(self) -> Self {
        choose|r: T| #[trigger] call_ensures(T::exp, (self,), r)
    }

    open spec fn cosine(self) -> Self {
        choose|r: T| #[trigger] call_ensures(T::cos, (self,), r)
    }

    open spec fn sine(self) -> Self {
        choose|r: T| #[trigger] call_ensures(T::sin, (self,), r)
    }

    open spec fn noise_value(noise: OpenSimplex, x: Self, y: Self) -> Self {
        choose|r: T| #[trigger] call_ensures(T::noise_at, (&noise, x, y), r)
    }

    open spec fn below(self, rhs: Self) -> bool {
        choose|r: bool| #[trigger] call_ensures(T::lt, (self, rhs), r)
    }

    open spec fn not_below(self, rhs: Self) -> bool {
        choose|r: bool| #[trigger] call_ensures(T::ge, (self, rhs), r)
    }
}

/// Whether every operation of the representation, but the drawing of random
/// values, is a function of its operands: whether the same operands always
/// give the same result.
pub open spec fn deterministic<T: Scalar>() -> bool {
    &&& forall|num: i32, den: i32, r1: T, r2: T|
        #[trigger] call_ensures(T::from_ratio, (num, den), r1) && #[trigger] call_ensures(
            T::from_ratio,
            (num, den),
            r2,
        ) ==> r1 == r2
    &&& forall|n: usize, r1: T, r2: T|
        #[trigger] call_ensures(T::from_count, (n,), r1) && #[trigger] call_ensures(
            T::from_count,
            (n,),
            r2,
        ) ==> r1 == r2
    &&& forall|a: T, r1: usize, r2: usize|
        #[trigger] call_ensures(T::floor_to_count, (a,), r1) && #[trigger] call_ensures(
            T::floor_to_count,
            (a,),
            r2,
        ) ==> r1 == r2
    &&& forall|r1: T, r2: T|
        #[trigger] call_ensures(T::tau, (), r1) && #[trigger] call_ensures(T::tau, (), r2) ==> r1
            == r2
    &&& forall|a: T, b: T, r1: T, r2: T|
        #[trigger] call_ensures(T::plus, (a, b), r1) && #[trigger] call_ensures(
            T::plus,
            (a, b),
            r2,
        ) ==> r1 == r2
    &&& forall|a: T, b: T, r1: T, r2: T|
        #[trigger] call_ensures(T::minus, (a, b), r1) && #[trigger] call_ensures(
            T::minus,
            (a, b),
            r2,
        ) ==> r1 == r2
    &&& forall|a: T, b: T, r1: T, r2: T|
        #[trigger] call_ensures(T::times, (a, b), r1) && #[trigger] call_ensures(
            T::times,
            (a, b),
            r2,
        ) ==> r1 == r2
    &&& forall|a: T, b: T, r1: T, r2: T|
        #[trigger] call_ensures(T::over, (a, b), r1) && #[trigger] call_ensures(
            T::over,
            (a, b),
            r2,
        ) ==> r1 == r2
    &&& forall|a: T, r1: T, r2: T|
        #[trigger] call_ensures(T::negated, (a,), r1) && #[trigger] call_ensures(
            T::negated,
            (a,),
            r2,
        ) ==> r1 == r2
    &&& forall|a: T, r1: T, r2: T|
        #[trigger] call_ensures(T::exp, (a,), r1) && #[trigger] call_ensures(T::exp, (a,), r2)
            ==> r1 == r2
    &&& forall|a: T, r1: T, r2: T|
        #[trigger] call_ensures(T::cos, (a,), r1) && #[trigger] call_ensures(T::cos, (a,), r2)
            ==> r1 == r2
    &&& forall|a: T, r1: T, r2: T|
        #[trigger] call_ensures(T::sin, (a,), r1) && #[trigger] call_ensures(T::sin, (a,), r2)
            ==> r1 == r2
    &&& forall|noise: OpenSimplex, x: T, y: T, r1: T, r2: T|
        #[trigger] call_ensures(T::noise_at, (&noise, x, y), r1) && #[trigger] call_ensures(
            T::noise_at,
            (&noise, x, y),
            r2,
        ) ==> r1 == r2
    &&& forall|a: T, b: T, r1: bool, r2: bool|
        #[trigger] call_ensures(T::lt, (a, b), r1) && #[trigger] call_ensures(T::lt, (a, b), r2)
            ==> r1 == r2
    &&& forall|a: T, b: T, r1: bool, r2: bool|
        #[trigger] call_ensures(T::ge, (a, b), r1) && #[trigger] call_ensures(T::ge, (a, b), r2)
            ==> r1 == r2
}

/// Whether `value` reads the scalars as real numbers in such a way that the
/// arithmetic and the order of the representation are those of the real
/// numbers, without rounding. The laws of this crate that speak of ranges
/// hold of such a representation; of one that rounds they say nothing.
pub open spec fn exact<T: Scalar>(value: spec_fn(T) -> real) -> bool {
    &&& forall|num: i32, den: i32|
        den != 0 ==> value(#[trigger] T::ratio(num, den)) == num as real / den as real
    &&& forall|n: usize| value(#[trigger] T::count(n)) == n as real
    &&& value(T::full_turn()) > 0real
    &&& forall|a: T, b: T| value(#[trigger] a.sum(b)) == value(a) + value(b)
    &&& forall|a: T, b: T| value(#[trigger] a.difference(b)) == value(a) - value(b)
    &&& forall|a: T, b: T| value(#[trigger] a.product(b)) == value(a) * value(b)
    &&& forall|a: T, b: T| #[trigger] a.below(b) == (value(a) < value(b))
    &&& forall|a: T, b: T| #[trigger] a.not_below(b) == (value(a) >= value(b))
}

} // verus!
