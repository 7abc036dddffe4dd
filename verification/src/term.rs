use crate::error::{BuilderError, FinalizeError};
use crate::factor::{
    type_result, value_outcome, value_result, Factor, Finalizable, SubPoly, Substitutiable, Value,
    Variable,
};
use crate::model::{
    monomial_type, monomial_value, power_type, power_value, repeated_product, substitute_factor,
    substitute_monomial, substitute_term, term_type, term_value, FactorModel, PowerModel,
    TermModel,
};
use crate::polynomial::{with_term, Polynomial, PolynomialBuilder};
use crate::symbol::Symbol;
use crate::traits::{PolyTypes, PolyValues};
use std::ops::Neg;
use vstd::prelude::*;
use vstd::std_specs::ops::NegSpecImpl;

verus! {

/// A coefficient multiplied with a monomial: the factors, each raised
/// to a power, that follow it from left to right.
#[derive(Debug)]
pub struct Term<Values, Types> {
    pub(crate) coefficient: Values,
    pub(crate) monomial: Vec<MonomialFactor<Values, Types>>,
}

#[derive(Debug)]
pub(crate) struct MonomialFactor<Values, Types> {
    pub(crate) factor: Factor<Values, Types>,
    pub(crate) power: u64,
}

impl<Values, Types> MonomialFactor<Values, Types> {
    pub(crate) closed spec fn view(self) -> PowerModel<Values, Types>
        decreases self,
    {
        PowerModel { factor: self.factor.view(), power: self.power }
    }
}

impl<Values, Types> Term<Values, Types> {
    /// The term as a mathematical value.
    pub closed spec fn view(self) -> TermModel<Values, Types>
        decreases self,
    {
        TermModel {
            coefficient: self.coefficient,
            monomial: Seq::new(
                self.monomial.len() as nat,
                |i: int|
                    if 0 <= i < self.monomial.len() {
                        self.monomial[i].view()
                    } else {
                        arbitrary()
                    },
            ),
        }
    }
}

/// Once the product of the first powers has no type, no longer product
/// has one.
pub proof fn lemma_monomial_type_stays_none<Types: PolyTypes, Values: PolyValues<Types>>(
    monomial: Seq<PowerModel<Values, Types>>,
    short: nat,
    long: nat,
)
    requires
        1 <= short <= long,
        monomial_type(monomial, short) is None,
    ensures
        monomial_type(monomial, long) is None,
    decreases long,
{
    if short < long {
        lemma_monomial_type_stays_none(monomial, short, (long - 1) as nat);
    }
}

/// Once the product of the first powers has no value, no longer product
/// has one.
pub proof fn lemma_monomial_value_stays_none<Types: PolyTypes, Values: PolyValues<Types>>(
    monomial: Seq<PowerModel<Values, Types>>,
    short: nat,
    long: nat,
)
    requires
        1 <= short <= long,
        monomial_value(monomial, short) is None,
    ensures
        monomial_value(monomial, long) is None,
    decreases long,
{
    if short < long {
        lemma_monomial_value_stays_none(monomial, short, (long - 1) as nat);
    }
}

/// Once a power of `base` does not exist, no higher power does.
pub proof fn lemma_repeated_product_stays_none<Types: PolyTypes, Values: PolyValues<Types>>(
    base: Values,
    low: nat,
    high: nat,
)
    requires
        low <= high,
        repeated_product::<Types, Values>(base, low) is None,
    ensures
        repeated_product::<Types, Values>(base, high) is None,
    decreases high,
{
    if low < high {
        lemma_repeated_product_stays_none::<Types, Values>(base, low, (high - 1) as nat);
    }
}

/// The product of two values that may be absent.
pub open spec fn product_of<Types: PolyTypes, Values: PolyValues<Types>>(
    left: Option<Values>,
    right: Option<Values>,
) -> Option<Values> {
    match (left, right) {
        (Some(a), Some(b)) => a.product(b),
        _ => None,
    }
}

/// Powers of one base multiply by adding their exponents.
pub proof fn lemma_repeated_product_adds<Types: PolyTypes, Values: PolyValues<Types>>(
    base: Values,
    first: nat,
    second: nat,
)
    requires
        first >= 1,
        second >= 1,
    ensures
        product_of::<Types, Values>(
            repeated_product::<Types, Values>(base, first),
            repeated_product::<Types, Values>(base, second),
        ) == repeated_product::<Types, Values>(base, first + second),
    decreases second,
{
    if second > 1 {
        let below = (second - 1) as nat;
        lemma_repeated_product_adds::<Types, Values>(base, first, below);
        match (
            repeated_product::<Types, Values>(base, first),
            repeated_product::<Types, Values>(base, below),
        ) {
            (Some(a), Some(b)) => {
                Values::product_associative(a, b, base);
            },
            _ => {},
        }
    }
}

/// `base` raised to `power`, by squaring: the number of multiplications
/// grows with the number of binary digits of `power`. The result is that
/// of multiplying `base` `power - 1` times with itself.
pub fn raise<Types: PolyTypes, Values: PolyValues<Types>>(base: &Values, power: u64) -> (r: Option<
    Values,
>)
    requires
        power >= 1,
    ensures
        r == repeated_product::<Types, Values>(*base, power as nat),
{
    let mut square = base.duplicate();
    let mut rest: u64 = power;
    let mut result: Option<Values> = None;
    let ghost mut done: nat = 0;
    let ghost mut width: nat = 1;
    while rest > 0
        invariant
            width >= 1,
            done + rest * width == power,
            repeated_product::<Types, Values>(*base, width) == Some(square),
            done == 0 ==> result is None,
            done > 0 ==> result is Some && result == repeated_product::<Types, Values>(*base, done),
        decreases rest,
    {
        let ghost before = rest;
        if rest % 2 == 1 {
            proof {
                assert(done + width <= power) by (nonlinear_arith)
                    requires
                        done + rest * width == power,
                        rest >= 1,
                        width >= 1,
                ;
                if done > 0 {
                    lemma_repeated_product_adds::<Types, Values>(*base, done, width);
                }
            }
            result = match result {
                None => Some(square.duplicate()),
                Some(partial) => match partial.combine_mul(&square) {
                    Some(longer) => Some(longer),
                    None => {
                        proof {
                            lemma_repeated_product_stays_none::<Types, Values>(
                                *base,
                                done + width,
                                power as nat,
                            );
                        }
                        return None;
                    },
                },
            };
            proof {
                let earlier = done;
                done = done + width;
                assert(done + (before - 1) * width == power) by (nonlinear_arith)
                    requires
                        earlier + before * width == power,
                        done == earlier + width,
                ;
            }
        }
        rest = rest / 2;
        if rest > 0 {
            proof {
                assert(done + rest * (2 * width) == power && 2 * width <= power) by (nonlinear_arith)
                    requires
                        before % 2 == 1 ==> done + (before - 1) * width == power,
                        before % 2 == 0 ==> done + before * width == power,
                        rest == before / 2,
                        rest > 0,
                        width >= 1,
                ;
                lemma_repeated_product_adds::<Types, Values>(*base, width, width);
            }
            square = match square.combine_mul(&square) {
                Some(doubled) => doubled,
                None => {
                    proof {
                        lemma_repeated_product_stays_none::<Types, Values>(
                            *base,
                            2 * width,
                            power as nat,
                        );
                    }
                    return None;
                },
            };
            proof {
                width = 2 * width;
            }
        } else {
            proof {
                assert(done == power) by (nonlinear_arith)
                    requires
                        before % 2 == 1 ==> done + (before - 1) * width == power,
                        before % 2 == 0 ==> done + before * width == power,
                        rest == before / 2,
                        rest == 0,
                        before >= 1,
                ;
            }
        }
    }
    result
}

impl<Types: PolyTypes, Values: PolyValues<Types>> MonomialFactor<Values, Types> {
    pub(crate) fn type_of(&self) -> (r: Option<Types>)
        ensures
            r == power_type(self@),
        decreases self, 0nat,
    {
        let own = match self.factor.type_of() {
            Some(own) => own,
            None => {
                return None;
            },
        };
        if self.power == 1 {
            return Some(own);
        }
        match own.combine_mul(&own).result {
            Some(squared) => if squared.same(&own) {
                Some(squared)
            } else {
                None
            },
            None => None,
        }
    }

    pub(crate) fn value_of(&self) -> (r: Option<Values>)
        ensures
            r == power_value(self@),
        decreases self, 0nat,
    {
        if self.power == 0 {
            return match self.type_of() {
                Some(own) => Values::one_with_type(own),
                None => None,
            };
        }
        match self.factor.value_of() {
            Some(base) => raise::<Types, Values>(&base, self.power),
            None => None,
        }
    }
}

impl<Types: PolyTypes, Values: PolyValues<Types>> Term<Values, Types> {
    pub(crate) fn monomial_type_of(&self) -> (r: Option<Types>)
        ensures
            r == monomial_type(self@.monomial, self@.monomial.len()),
        decreases self, 0nat,
    {
        let n = self.monomial.len();
        if n == 0 {
            return None;
        }
        let mut acc = match self.monomial[0].type_of() {
            Some(first) => first,
            None => {
                proof {
                    lemma_monomial_type_stays_none(self@.monomial, 1, n as nat);
                }
                return None;
            },
        };
        let mut i: usize = 1;
        while i < n
            invariant
                1 <= i <= n,
                n == self.monomial.len(),
                n == self@.monomial.len(),
                monomial_type(self@.monomial, i as nat) == Some(acc),
            decreases n - i,
        {
            let next = self.monomial[i].type_of();
            let joined = match next {
                Some(right) => acc.combine_mul(&right).result,
                None => None,
            };
            match joined {
                Some(total) => {
                    acc = total;
                },
                None => {
                    proof {
                        lemma_monomial_type_stays_none(self@.monomial, (i + 1) as nat, n as nat);
                    }
                    return None;
                },
            }
            i += 1;
        }
        Some(acc)
    }

    pub(crate) fn type_of(&self) -> (r: Option<Types>)
        ensures
            r == term_type(self@),
        decreases self, 1nat,
    {
        let own = self.coefficient.as_type();
        if self.monomial.len() == 0 {
            return Some(own);
        }
        match self.monomial_type_of() {
            Some(right) => own.combine_mul(&right).result,
            None => None,
        }
    }

    pub(crate) fn monomial_value_of(&self) -> (r: Option<Values>)
        ensures
            r == monomial_value(self@.monomial, self@.monomial.len()),
        decreases self, 0nat,
    {
        let n = self.monomial.len();
        if n == 0 {
            return None;
        }
        let mut acc = match self.monomial[0].value_of() {
            Some(first) => first,
            None => {
                proof {
                    lemma_monomial_value_stays_none(self@.monomial, 1, n as nat);
                }
                return None;
            },
        };
        let mut i: usize = 1;
        while i < n
            invariant
                1 <= i <= n,
                n == self.monomial.len(),
                n == self@.monomial.len(),
                monomial_value(self@.monomial, i as nat) == Some(acc),
            decreases n - i,
        {
            let next = self.monomial[i].value_of();
            let joined = match next {
                Some(right) => acc.combine_mul(&right),
                None => None,
            };
            match joined {
                Some(total) => {
                    acc = total;
                },
                None => {
                    proof {
                        lemma_monomial_value_stays_none(self@.monomial, (i + 1) as nat, n as nat);
                    }
                    return None;
                },
            }
            i += 1;
        }
        Some(acc)
    }

    pub(crate) fn value_of(&self) -> (r: Option<Values>)
        ensures
            r == term_value(self@),
        decreases self, 1nat,
    {
        if self.monomial.len() == 0 {
            return Some(self.coefficient.duplicate());
        }
        match self.monomial_value_of() {
            Some(right) => self.coefficient.combine_mul(&right),
            None => None,
        }
    }
}

impl<Types: PolyTypes, Values: PolyValues<Types>> MonomialFactor<Values, Types> {
    pub(crate) fn duplicate(&self) -> (r: Self)
        ensures
            r@ == self@,
        decreases self, 0nat,
    {
        MonomialFactor { factor: self.factor.duplicate(), power: self.power }
    }

    pub(crate) fn substituted(&self, to: &Symbol<Types>, factor: &Factor<Values, Types>) -> (r:
        Self)
        ensures
            r@ == (PowerModel {
                factor: substitute_factor(self@.factor, to.id(), factor@),
                power: self@.power,
            }),
        decreases self, 0nat,
    {
        MonomialFactor { factor: self.factor.substituted(to, factor), power: self.power }
    }
}

impl<Types: PolyTypes, Values: PolyValues<Types>> Term<Values, Types> {
    pub(crate) fn duplicate(&self) -> (r: Self)
        ensures
            r@ == self@,
        decreases self, 1nat,
    {
        let mut monomial: Vec<MonomialFactor<Values, Types>> = Vec::new();
        let mut i: usize = 0;
        while i < self.monomial.len()
            invariant
                i <= self.monomial.len(),
                monomial.len() == i,
                forall|j: int|
                    0 <= j < i ==> (#[trigger] monomial[j]).view() == self.monomial[j].view(),
            decreases self.monomial.len() - i,
        {
            monomial.push(self.monomial[i].duplicate());
            i += 1;
        }
        let r = Term { coefficient: self.coefficient.duplicate(), monomial };
        assert(r@.monomial =~= self@.monomial);
        r
    }

    pub(crate) fn substituted(&self, to: &Symbol<Types>, factor: &Factor<Values, Types>) -> (r:
        Self)
        ensures
            r@ == substitute_term(self@, to.id(), factor@),
        decreases self, 1nat,
    {
        let mut monomial: Vec<MonomialFactor<Values, Types>> = Vec::new();
        let mut i: usize = 0;
        while i < self.monomial.len()
            invariant
                i <= self.monomial.len(),
                monomial.len() == i,
                forall|j: int|
                    0 <= j < i ==> (#[trigger] monomial[j]).view() == (PowerModel {
                        factor: substitute_factor(self.monomial[j].view().factor, to.id(), factor@),
                        power: self.monomial[j].view().power,
                    }),
            decreases self.monomial.len() - i,
        {
            monomial.push(self.monomial[i].substituted(to, factor));
            i += 1;
        }
        let r = Term { coefficient: self.coefficient.duplicate(), monomial };
        assert(r@.monomial =~= substitute_monomial(self@.monomial, to.id(), factor@));
        r
    }
}

impl<Types: PolyTypes, Values: PolyValues<Types>> Substitutiable<Values, Types> for Term<
    Values,
    Types,
> {
    type Output = Self;

    open spec fn gives(self, to: Symbol<Types>, factor: Factor<Values, Types>, output: Self) -> bool {
        output@ == substitute_term(self@, to.id(), factor@)
    }

    fn substitute(self, to: Symbol<Types>, factor: Factor<Values, Types>) -> (r: Self) {
        self.substituted(&to, &factor)
    }
}

impl<Types: PolyTypes, Values: PolyValues<Types>> Finalizable<Values, Types> for Term<
    Values,
    Types,
> {
    open spec fn found_type(&self) -> Option<Types> {
        term_type(self@)
    }

    open spec fn finalized_value(&self) -> Result<Values, FinalizeError> {
        value_outcome(term_type(self@), term_value(self@))
    }

    fn finalize_type(&self) -> (r: Result<Types, FinalizeError>) {
        type_result(self.type_of())
    }

    fn finalize_value(self) -> (r: Result<Values, FinalizeError>) {
        match self.type_of() {
            Some(_) => value_result(self.value_of()),
            None => Err(FinalizeError::NoTypeToFinalize),
        }
    }
}

impl<Types: PolyTypes, Values: PolyValues<Types>> Clone for Term<Values, Types> {
    fn clone(&self) -> (r: Self)
        ensures
            r@ == self@,
    {
        self.duplicate()
    }
}

impl<Types: PolyTypes, Values: PolyValues<Types>> Neg for Term<Values, Types> {
    type Output = Self;

    /// The term with its coefficient negated.
    fn neg(self) -> (r: Self)
        ensures
            r@ == (TermModel {
                coefficient: self@.coefficient.negation(),
                monomial: self@.monomial,
            }),
    {
        let r = Term { coefficient: self.coefficient.negate(), monomial: self.monomial };
        assert(r@.monomial =~= self@.monomial);
        r
    }
}

impl<Types: PolyTypes, Values: PolyValues<Types>> NegSpecImpl for Term<Values, Types> {
    open spec fn obeys_neg_spec() -> bool {
        true
    }

    open spec fn neg_req(self) -> bool {
        true
    }

    closed spec fn neg_spec(self) -> Self {
        Term { coefficient: self.coefficient.negation(), monomial: self.monomial }
    }
}

impl<Types: PolyTypes, Values: PolyValues<Types>> Substitutiable<
    Values,
    Types,
> for MonomialFactor<Values, Types> {
    type Output = Self;

    closed spec fn gives(self, to: Symbol<Types>, factor: Factor<Values, Types>, output: Self) -> bool {
        output@ == (PowerModel {
            factor: substitute_factor(self@.factor, to.id(), factor@),
            power: self@.power,
        })
    }

    fn substitute(self, to: Symbol<Types>, factor: Factor<Values, Types>) -> (r: Self) {
        self.substituted(&to, &factor)
    }
}

impl<Types: PolyTypes, Values: PolyValues<Types>> Finalizable<Values, Types> for MonomialFactor<
    Values,
    Types,
> {
    closed spec fn found_type(&self) -> Option<Types> {
        power_type(self@)
    }

    closed spec fn finalized_value(&self) -> Result<Values, FinalizeError> {
        value_outcome(power_type(self@), power_value(self@))
    }

    fn finalize_type(&self) -> (r: Result<Types, FinalizeError>) {
        type_result(self.type_of())
    }

    fn finalize_value(self) -> (r: Result<Values, FinalizeError>) {
        match self.type_of() {
            Some(_) => value_result(self.value_of()),
            None => Err(FinalizeError::NoTypeToFinalize),
        }
    }
}

/// The term that a builder has so far, with one more factor.
pub open spec fn with_factor<Values, Types>(
    term: Result<TermModel<Values, Types>, BuilderError>,
    factor: Result<FactorModel<Values, Types>, BuilderError>,
    power: u64,
) -> Result<TermModel<Values, Types>, BuilderError> {
    match (term, factor) {
        (Err(first), _) => Err(first),
        (Ok(_), Err(first)) => Err(first),
        (Ok(so_far), Ok(next)) => Ok(
            TermModel {
                coefficient: so_far.coefficient,
                monomial: so_far.monomial.push(PowerModel { factor: next, power }),
            },
        ),
    }
}

/// Builds one term of a polynomial: a coefficient, then factors from
/// left to right. The first factor that failed is what the term becomes.
pub struct TermBuilder<Values, Types> {
    parent: PolynomialBuilder<Values, Types>,
    coefficient: Values,
    factors: Vec<MonomialFactor<Values, Types>>,
    failure: Option<BuilderError>,
}

impl<Values, Types> TermBuilder<Values, Types> {
    /// What the polynomial's builder held when this term was begun.
    pub closed spec fn parent(self) -> Result<Seq<TermModel<Values, Types>>, BuilderError> {
        self.parent@
    }

    /// The term so far, or the first failure among its factors.
    pub closed spec fn term(self) -> Result<TermModel<Values, Types>, BuilderError> {
        match self.failure {
            Some(first) => Err(first),
            None => Ok(
                TermModel {
                    coefficient: self.coefficient,
                    monomial: self.factors@.map_values(
                        |entry: MonomialFactor<Values, Types>| entry@,
                    ),
                },
            ),
        }
    }

    pub fn new(parent: PolynomialBuilder<Values, Types>, coefficient: Values) -> (r: Self)
        ensures
            r.parent() == parent@,
            r.term() == Ok::<TermModel<Values, Types>, BuilderError>(
                TermModel { coefficient, monomial: Seq::empty() },
            ),
    {
        let r = TermBuilder { parent, coefficient, factors: Vec::new(), failure: None };
        assert(r.factors@.map_values(|entry: MonomialFactor<Values, Types>| entry@)
            =~= Seq::<PowerModel<Values, Types>>::empty());
        r
    }

    fn maybe_factor(self, factor: Result<Factor<Values, Types>, BuilderError>, power: u64) -> (r:
        Self)
        ensures
            r.parent() == self.parent(),
            r.term() == with_factor(
                self.term(),
                match factor {
                    Ok(next) => Ok(next@),
                    Err(first) => Err(first),
                },
                power,
            ),
    {
        let mut r = self;
        if r.failure.is_none() {
            match factor {
                Ok(next) => {
                    let ghost before = r.factors@;
                    r.factors.push(MonomialFactor { factor: next, power });
                    assert(r.factors@.map_values(|entry: MonomialFactor<Values, Types>| entry@)
                        =~= before.map_values(|entry: MonomialFactor<Values, Types>| entry@).push(
                        PowerModel { factor: next@, power },
                    ));
                },
                Err(first) => {
                    r.failure = Some(first);
                },
            }
        }
        r
    }

    /// Adds a value raised to `power`, or records the failure.
    pub fn maybe_value(self, value: Result<Values, BuilderError>, power: u64) -> (r: Self)
        ensures
            r.parent() == self.parent(),
            r.term() == with_factor(
                self.term(),
                match value {
                    Ok(next) => Ok(FactorModel::Value(next)),
                    Err(first) => Err(first),
                },
                power,
            ),
    {
        let factor = match value {
            Ok(next) => Ok(Factor::Value(Value::new(next))),
            Err(first) => Err(first),
        };
        self.maybe_factor(factor, power)
    }

    /// Adds a value raised to `power`.
    pub fn value(self, value: Values, power: u64) -> (r: Self)
        ensures
            r.parent() == self.parent(),
            r.term() == with_factor(self.term(), Ok(FactorModel::Value(value)), power),
    {
        self.maybe_value(Ok(value), power)
    }

    /// Adds a symbol raised to `power`, or records the failure.
    pub fn maybe_variable(self, symbol: Result<Symbol<Types>, BuilderError>, power: u64) -> (r:
        Self)
        ensures
            r.parent() == self.parent(),
            r.term() == with_factor(
                self.term(),
                match symbol {
                    Ok(next) => Ok(FactorModel::Variable(next)),
                    Err(first) => Err(first),
                },
                power,
            ),
    {
        let factor = match symbol {
            Ok(next) => Ok(Factor::Variable(Variable::new(next))),
            Err(first) => Err(first),
        };
        self.maybe_factor(factor, power)
    }

    /// Adds a symbol raised to `power`.
    pub fn variable(self, symbol: Symbol<Types>, power: u64) -> (r: Self)
        ensures
            r.parent() == self.parent(),
            r.term() == with_factor(self.term(), Ok(FactorModel::Variable(symbol)), power),
    {
        self.maybe_variable(Ok(symbol), power)
    }

    /// Adds a nested polynomial raised to `power`, or records the
    /// failure.
    pub fn maybe_polynomial(
        self,
        polynomial: Result<Polynomial<Values, Types>, BuilderError>,
        power: u64,
    ) -> (r: Self)
        ensures
            r.parent() == self.parent(),
            r.term() == with_factor(
                self.term(),
                match polynomial {
                    Ok(next) => Ok(FactorModel::SubPoly(next@)),
                    Err(first) => Err(first),
                },
                power,
            ),
    {
        let factor = match polynomial {
            Ok(next) => Ok(Factor::SubPoly(SubPoly::from(next))),
            Err(first) => Err(first),
        };
        self.maybe_factor(factor, power)
    }

    /// Adds a nested polynomial raised to `power`.
    pub fn polynomial(self, polynomial: Polynomial<Values, Types>, power: u64) -> (r: Self)
        ensures
            r.parent() == self.parent(),
            r.term() == with_factor(self.term(), Ok(FactorModel::SubPoly(polynomial@)), power),
    {
        self.maybe_polynomial(Ok(polynomial), power)
    }

    /// Hands the term, or its failure, to the polynomial's builder.
    pub fn build(self) -> (r: PolynomialBuilder<Values, Types>)
        ensures
            r@ == with_term(self.parent(), self.term()),
    {
        let term = match self.failure {
            Some(first) => Err(first),
            None => {
                let built = Term { coefficient: self.coefficient, monomial: self.factors };
                assert(built@.monomial =~= self.term()->Ok_0.monomial);
                Ok(built)
            },
        };
        self.parent.maybe_term(term)
    }
}

} // verus!
