use vstd::prelude::*;

verus! {

/// Abstract arithmetic for the convection engine.
///
/// Each executable operation is pinned to a specification-level counterpart,
/// so the engine's contracts can state the exact value of every cell that a
/// sweep produces, for whatever scalar the caller instantiates. The
/// operations are total: an implementation decides for itself what division
/// by zero or an out-of-range result yields, and the engine's contracts
/// simply propagate that choice.
pub trait CfdScalar: Sized + Copy {
    /// The additive identity.
    spec fn zero_spec() -> Self;

    /// The multiplicative identity.
    spec fn one_spec() -> Self;

    /// The value of `a + b`.
    spec fn add_spec(a: Self, b: Self) -> Self;

    /// The value of `a - b`.
    spec fn sub_spec(a: Self, b: Self) -> Self;

    /// The value of `a * b`.
    spec fn mul_spec(a: Self, b: Self) -> Self;

    /// The value of `a / b`.
    spec fn div_spec(a: Self, b: Self) -> Self;

    /// The value of `-a`.
    spec fn neg_spec(a: Self) -> Self;

    /// Whether `a` is strictly positive.
    spec fn is_pos_spec(a: Self) -> bool;

    /// The scalar standing for the natural number `n`.
    spec fn from_usize_spec(n: usize) -> Self;

    fn zero() -> (r: Self)
        ensures
            r == Self::zero_spec(),
    ;

    fn one() -> (r: Self)
        ensures
            r == Self::one_spec(),
    ;

    fn add(a: Self, b: Self) -> (r: Self)
        ensures
            r == Self::add_spec(a, b),
    ;

    fn sub(a: Self, b: Self) -> (r: Self)
        ensures
            r == Self::sub_spec(a, b),
    ;

    fn mul(a: Self, b: Self) -> (r: Self)
        ensures
            r == Self::mul_spec(a, b),
    ;

    fn div(a: Self, b: Self) -> (r: Self)
        ensures
            r == Self::div_spec(a, b),
    ;

    fn neg(a: Self) -> (r: Self)
        ensures
            r == Self::neg_spec(a),
    ;

    fn is_pos(a: Self) -> (r: bool)
        ensures
            r == Self::is_pos_spec(a),
    ;

    fn from_usize(n: usize) -> (r: Self)
        ensures
            r == Self::from_usize_spec(n),
    ;
}

/// The facts about zero that make a scalar inert: combining zeros yields
/// zero, and zero absorbs any factor, dividend or negation. A scalar that
/// obeys them supports the stationarity law: a state with no vorticity and
/// no buoyancy develops neither.
pub open spec fn zero_arith_laws<T: CfdScalar>() -> bool {
    &&& T::add_spec(T::zero_spec(), T::zero_spec()) == T::zero_spec()
    &&& T::sub_spec(T::zero_spec(), T::zero_spec()) == T::zero_spec()
    &&& T::neg_spec(T::zero_spec()) == T::zero_spec()
    &&& forall|a: T| T::mul_spec(T::zero_spec(), a) == T::zero_spec()
    &&& forall|a: T| T::mul_spec(a, T::zero_spec()) == T::zero_spec()
    &&& forall|a: T| T::div_spec(T::zero_spec(), a) == T::zero_spec()
}

} // verus!
