use vstd::prelude::*;

verus! {

/// A type with an additive identity.
pub trait Zero: Sized {
    fn zero() -> Self;
}

/// A type with a multiplicative identity.
pub trait One: Sized {
    fn one() -> Self;
}

/// What multiplying two types gives: the type of the product, if the
/// product exists, and whether the two operands may be exchanged.
#[derive(Debug, PartialEq, Eq)]
pub struct MulTraits<Types> {
    pub result: Option<Types>,
    pub commutative: bool,
}

/// The types of an algebra.
///
/// The spec functions are the algebra's rules; each executable method
/// computes the rule of the same meaning. An implementation vouches for
/// that: what this crate proves of an expression, it proves from these
/// rules.
pub trait PolyTypes: Sized {
    /// The type of `self + rhs`, where that sum exists.
    spec fn sum(self, rhs: Self) -> Option<Self>;

    /// The type of `self * rhs`, where that product exists, and whether
    /// the operands commute.
    spec fn product(self, rhs: Self) -> MulTraits<Self>;

    /// The type of `-self`.
    spec fn negation(self) -> Self;

    fn combine_add(&self, rhs: &Self) -> (r: Option<Self>)
        ensures
            r == self.sum(*rhs),
    ;

    fn combine_mul(&self, rhs: &Self) -> (r: MulTraits<Self>)
        ensures
            r == self.product(*rhs),
    ;

    fn negate(&self) -> (r: Self)
        ensures
            r == self.negation(),
    ;

    fn same(&self, other: &Self) -> (r: bool)
        ensures
            r == (*self == *other),
    ;

    fn duplicate(&self) -> (r: Self)
        ensures
            r == *self,
    ;
}

/// The values of an algebra over the types `Types`.
///
/// The spec functions are the algebra's rules, the proof functions the
/// laws that the rules obey, and each executable method computes the
/// rule of the same meaning. An implementation vouches for all three.
/// Neither sums nor products need to exist for all operands, and neither
/// needs to commute. Raising to a power by squaring rests on the
/// associativity of the product, and that a finalized value has the
/// finalized type rests on the laws about types.
pub trait PolyValues<Types: PolyTypes>: Sized {
    /// The type of a value.
    spec fn kind(self) -> Types;

    /// `self + rhs`, where that sum exists.
    spec fn sum(self, rhs: Self) -> Option<Self>;

    /// `self * rhs`, where that product exists.
    spec fn product(self, rhs: Self) -> Option<Self>;

    /// `-self`.
    spec fn negation(self) -> Self;

    /// The additive identity of a type, where it has one.
    spec fn zero_of(expected_type: Types) -> Option<Self>;

    /// The multiplicative identity of a type, where it has one.
    spec fn one_of(expected_type: Types) -> Option<Self>;

    /// A sum of values has the sum of their types.
    proof fn sum_keeps_types(a: Self, b: Self)
        ensures
            a.sum(b) matches Some(c) ==> a.kind().sum(b.kind()) == Some(c.kind()),
    ;

    /// A product of values has the product of their types.
    proof fn product_keeps_types(a: Self, b: Self)
        ensures
            a.product(b) matches Some(c) ==> a.kind().product(b.kind()).result == Some(c.kind()),
    ;

    /// An identity has the type it was asked for.
    proof fn identities_keep_types(expected_type: Types)
        ensures
            Self::zero_of(expected_type) matches Some(z) ==> z.kind() == expected_type,
            Self::one_of(expected_type) matches Some(o) ==> o.kind() == expected_type,
    ;

    /// Multiplication is associative, also in whether the product exists.
    proof fn product_associative(a: Self, b: Self, c: Self)
        ensures
            (match a.product(b) {
                Some(ab) => ab.product(c),
                None => None,
            }) == (match b.product(c) {
                Some(bc) => a.product(bc),
                None => None,
            }),
    ;

    fn as_type(&self) -> (r: Types)
        ensures
            r == self.kind(),
    ;

    fn combine_add(&self, rhs: &Self) -> (r: Option<Self>)
        ensures
            r == self.sum(*rhs),
    ;

    fn combine_mul(&self, rhs: &Self) -> (r: Option<Self>)
        ensures
            r == self.product(*rhs),
    ;

    fn negate(&self) -> (r: Self)
        ensures
            r == self.negation(),
    ;

    fn zero_with_type(expected_type: Types) -> (r: Option<Self>)
        ensures
            r == Self::zero_of(expected_type),
    ;

    fn one_with_type(expected_type: Types) -> (r: Option<Self>)
        ensures
            r == Self::one_of(expected_type),
    ;

    fn duplicate(&self) -> (r: Self)
        ensures
            r == *self,
    ;
}

} // verus!
