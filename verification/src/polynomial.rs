use crate::error::{BuilderError, FinalizeError};
use crate::factor::{
    type_outcome, value_outcome, Factor, Finalizable, SubPoly, Substitutiable, Value, Variable,
};
use crate::model::{substitute_terms, sum_type, sum_value, FactorModel, TermModel};
use crate::symbol::Symbol;
use crate::term::{Term, TermBuilder};
use crate::traits::{PolyTypes, PolyValues};
use vstd::prelude::*;
use vstd::std_specs::convert::FromSpecImpl;

verus! {

/// A sum of terms, from left to right: the expression that callers
/// build, substitute into and finalize.
#[derive(Debug)]
pub struct Polynomial<Values, Types> {
    poly: SubPoly<Values, Types>,
}

/// What a builder holds, with one more term.
pub open spec fn with_term<Values, Types>(
    builder: Result<Seq<TermModel<Values, Types>>, BuilderError>,
    term: Result<TermModel<Values, Types>, BuilderError>,
) -> Result<Seq<TermModel<Values, Types>>, BuilderError> {
    match (builder, term) {
        (Err(first), _) => Err(first),
        (Ok(_), Err(first)) => Err(first),
        (Ok(so_far), Ok(next)) => Ok(so_far.push(next)),
    }
}

/// The polynomial of one term that is `coefficient` alone.
pub open spec fn constant<Values, Types>(coefficient: Values) -> Seq<TermModel<Values, Types>> {
    seq![TermModel { coefficient, monomial: Seq::empty() }]
}

impl<Values, Types> Polynomial<Values, Types> {
    /// The terms of the polynomial, from left to right.
    pub closed spec fn view(self) -> Seq<TermModel<Values, Types>> {
        self.poly@
    }

}

impl<Values, Types> From<Polynomial<Values, Types>> for SubPoly<Values, Types> {
    /// The polynomial as a nested sum.
    fn from(polynomial: Polynomial<Values, Types>) -> (r: Self)
        ensures
            r@ == polynomial@,
    {
        polynomial.poly
    }
}

impl<Values, Types> FromSpecImpl<Polynomial<Values, Types>> for SubPoly<Values, Types> {
    open spec fn obeys_from_spec() -> bool {
        true
    }

    closed spec fn from_spec(polynomial: Polynomial<Values, Types>) -> Self {
        polynomial.poly
    }
}

impl<Types: PolyTypes, Values: PolyValues<Types>> Polynomial<Values, Types> {
    pub fn builder() -> (r: PolynomialBuilder<Values, Types>)
        ensures
            r@ == Ok::<Seq<TermModel<Values, Types>>, BuilderError>(Seq::empty()),
    {
        PolynomialBuilder::new()
    }

    /// The additive identity of `coefficient_type` as a polynomial, where
    /// the algebra has one.
    pub fn zero(coefficient_type: Types) -> (r: Result<Self, BuilderError>)
        ensures
            match Values::zero_of(coefficient_type) {
                Some(identity) => r is Ok && r->Ok_0@ == constant::<Values, Types>(identity),
                None => r is Err && r->Err_0 == BuilderError::CoefficientError,
            },
    {
        match Values::zero_with_type(coefficient_type) {
            Some(identity) => {
                let built = Self::builder().term_builder(identity).build().build();
                assert(Seq::<TermModel<Values, Types>>::empty().push(
                    TermModel { coefficient: identity, monomial: Seq::empty() },
                ) =~= constant::<Values, Types>(identity));
                built
            },
            None => Err(BuilderError::CoefficientError),
        }
    }

    /// The multiplicative identity of `coefficient_type` as a polynomial,
    /// where the algebra has one.
    pub fn one(coefficient_type: Types) -> (r: Result<Self, BuilderError>)
        ensures
            match Values::one_of(coefficient_type) {
                Some(identity) => r is Ok && r->Ok_0@ == constant::<Values, Types>(identity),
                None => r is Err && r->Err_0 == BuilderError::CoefficientError,
            },
    {
        match Values::one_with_type(coefficient_type) {
            Some(identity) => {
                let built = Self::builder().term_builder(identity).build().build();
                assert(Seq::<TermModel<Values, Types>>::empty().push(
                    TermModel { coefficient: identity, monomial: Seq::empty() },
                ) =~= constant::<Values, Types>(identity));
                built
            },
            None => Err(BuilderError::CoefficientError),
        }
    }

    /// The polynomial with `value` in the place of every occurrence of
    /// the symbol `to`.
    pub fn substitute_value(self, to: Symbol<Types>, value: Values) -> (r: Self)
        ensures
            r@ == substitute_terms(self@, to.id(), FactorModel::Value(value)),
    {
        self.substitute(to, Factor::Value(Value::new(value)))
    }

    /// The polynomial with `symbol` in the place of every occurrence of
    /// the symbol `to`.
    pub fn substitute_variable(self, to: Symbol<Types>, symbol: Symbol<Types>) -> (r: Self)
        ensures
            r@ == substitute_terms(self@, to.id(), FactorModel::Variable(symbol)),
    {
        self.substitute(to, Factor::Variable(Variable::new(symbol)))
    }

    /// The polynomial with `polynomial`, as a nested sum, in the place of
    /// every occurrence of the symbol `to`.
    pub fn substitute_polynomial(self, to: Symbol<Types>, polynomial: Polynomial<Values, Types>) -> (r:
        Self)
        ensures
            r@ == substitute_terms(self@, to.id(), FactorModel::SubPoly(polynomial@)),
    {
        self.substitute(to, Factor::SubPoly(SubPoly::from(polynomial)))
    }

    /// The type of the polynomial: that of the sum of its terms from left
    /// to right.
    pub fn as_type(&self) -> (r: Result<Types, FinalizeError>)
        ensures
            r == type_outcome(sum_type(self@, self@.len())),
    {
        self.poly.finalize_type()
    }

    /// The value of the polynomial: the sum of its terms from left to
    /// right, for a polynomial that has a type.
    pub fn as_value(self) -> (r: Result<Values, FinalizeError>)
        ensures
            r == value_outcome(sum_type(self@, self@.len()), sum_value(self@, self@.len())),
    {
        self.poly.finalize_value()
    }
}

impl<Types: PolyTypes, Values: PolyValues<Types>> Substitutiable<Values, Types> for Polynomial<
    Values,
    Types,
> {
    type Output = Self;

    open spec fn gives(self, to: Symbol<Types>, factor: Factor<Values, Types>, output: Self) -> bool {
        output@ == substitute_terms(self@, to.id(), factor@)
    }

    fn substitute(self, to: Symbol<Types>, factor: Factor<Values, Types>) -> (r: Self) {
        Polynomial { poly: self.poly.substitute(to, factor) }
    }
}

impl<Types: PolyTypes, Values: PolyValues<Types>> Finalizable<Values, Types> for Polynomial<
    Values,
    Types,
> {
    open spec fn found_type(&self) -> Option<Types> {
        sum_type(self@, self@.len())
    }

    open spec fn finalized_value(&self) -> Result<Values, FinalizeError> {
        value_outcome(sum_type(self@, self@.len()), sum_value(self@, self@.len()))
    }

    fn finalize_type(&self) -> (r: Result<Types, FinalizeError>) {
        self.poly.finalize_type()
    }

    fn finalize_value(self) -> (r: Result<Values, FinalizeError>) {
        self.poly.finalize_value()
    }
}

impl<Types: PolyTypes, Values: PolyValues<Types>> Clone for Polynomial<Values, Types> {
    fn clone(&self) -> (r: Self)
        ensures
            r@ == self@,
    {
        Polynomial { poly: self.poly.clone() }
    }
}

/// Builds a polynomial term by term. The first term that failed is what
/// the polynomial becomes.
pub struct PolynomialBuilder<Values, Types> {
    parts: Vec<Term<Values, Types>>,
    failure: Option<BuilderError>,
}

impl<Values, Types> PolynomialBuilder<Values, Types> {
    /// The terms so far, or the first failure among them.
    pub closed spec fn view(self) -> Result<Seq<TermModel<Values, Types>>, BuilderError> {
        match self.failure {
            Some(first) => Err(first),
            None => Ok(self.parts@.map_values(|term: Term<Values, Types>| term@)),
        }
    }

    pub fn new() -> (r: Self)
        ensures
            r@ == Ok::<Seq<TermModel<Values, Types>>, BuilderError>(Seq::empty()),
    {
        let r = PolynomialBuilder { parts: Vec::new(), failure: None };
        assert(r.parts@.map_values(|term: Term<Values, Types>| term@) =~= Seq::<
            TermModel<Values, Types>,
        >::empty());
        r
    }

    /// Begins a term with this coefficient.
    pub fn term_builder(self, coefficient: Values) -> (r: TermBuilder<Values, Types>)
        ensures
            r.parent() == self@,
            r.term() == Ok::<TermModel<Values, Types>, BuilderError>(
                TermModel { coefficient, monomial: Seq::empty() },
            ),
    {
        TermBuilder::new(self, coefficient)
    }

    /// Adds a term, or records the failure.
    pub fn maybe_term(self, term: Result<Term<Values, Types>, BuilderError>) -> (r: Self)
        ensures
            r@ == with_term(
                self@,
                match term {
                    Ok(next) => Ok(next@),
                    Err(first) => Err(first),
                },
            ),
    {
        let mut r = self;
        if r.failure.is_none() {
            match term {
                Ok(next) => {
                    let ghost before = r.parts@;
                    r.parts.push(next);
                    assert(r.parts@.map_values(|term: Term<Values, Types>| term@)
                        =~= before.map_values(|term: Term<Values, Types>| term@).push(next@));
                },
                Err(first) => {
                    r.failure = Some(first);
                },
            }
        }
        r
    }

    /// Adds a term.
    pub fn term(self, term: Term<Values, Types>) -> (r: Self)
        ensures
            r@ == with_term(self@, Ok(term@)),
    {
        self.maybe_term(Ok(term))
    }

    /// The polynomial of the terms that were added, or the first failure
    /// among them.
    pub fn build(self) -> (r: Result<Polynomial<Values, Types>, BuilderError>)
        ensures
            match self@ {
                Ok(terms) => r is Ok && r->Ok_0@ == terms,
                Err(first) => r is Err && r->Err_0 == first,
            },
    {
        match self.failure {
            Some(first) => Err(first),
            None => Ok(Polynomial { poly: SubPoly::new(self.parts) }),
        }
    }
}

} // verus!
