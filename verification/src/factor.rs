use crate::error::FinalizeError;
use crate::model::{
    factor_type, factor_value, substitute_factor, substitute_term, substitute_terms, sum_type,
    sum_value, FactorModel, TermModel,
};
use crate::symbol::Symbol;
use crate::term::Term;
use crate::traits::{PolyTypes, PolyValues};
use std::marker::PhantomData;
use vstd::prelude::*;

verus! {

/// What finalizing a type returns for a tree of type `found`.
pub open spec fn type_outcome<Types>(found: Option<Types>) -> Result<Types, FinalizeError> {
    match found {
        Some(own) => Ok(own),
        None => Err(FinalizeError::NoTypeToFinalize),
    }
}

/// What finalizing a value returns for a tree of type `found` and value
/// `computed`: a tree without a type has no value either.
pub open spec fn value_outcome<Values, Types>(
    found: Option<Types>,
    computed: Option<Values>,
) -> Result<Values, FinalizeError> {
    match (found, computed) {
        (None, _) => Err(FinalizeError::NoTypeToFinalize),
        (Some(_), None) => Err(FinalizeError::NoValueToFinalize),
        (Some(_), Some(value)) => Ok(value),
    }
}

/// What finalizing the value of a factor returns: a symbol alone has no
/// value, whatever it is declared with; a value and a nested sum have
/// what their type and value give.
pub open spec fn factor_outcome<Types: PolyTypes, Values: PolyValues<Types>>(
    factor: FactorModel<Values, Types>,
) -> Result<Values, FinalizeError> {
    match factor {
        FactorModel::Variable(_) => Err(FinalizeError::NoValueToFinalize),
        _ => value_outcome(factor_type(factor), factor_value(factor)),
    }
}

/// A concrete value, a symbol, or a nested sum: the unit that
/// substitution replaces and finalization reduces.
#[derive(Debug)]
pub enum Factor<Values, Types> {
    Value(Value<Values, Types>),
    Variable(Variable<Types>),
    SubPoly(SubPoly<Values, Types>),
}

/// A concrete value of the algebra.
#[derive(Debug)]
pub struct Value<Values, Types> {
    pub(crate) value: Values,
    pub(crate) _marker: PhantomData<Types>,
}

/// A reference to a symbol that nothing was substituted for yet.
#[derive(Debug)]
pub struct Variable<Types> {
    pub(crate) symbol: Symbol<Types>,
}

/// A sum of terms, from left to right.
#[derive(Debug)]
pub struct SubPoly<Values, Types> {
    pub(crate) parts: Vec<Term<Values, Types>>,
}

impl<Values, Types> Value<Values, Types> {
    /// The value held.
    pub closed spec fn view(self) -> Values {
        self.value
    }

    pub fn new(value: Values) -> (r: Self)
        ensures
            r@ == value,
    {
        Value { value, _marker: PhantomData }
    }
}

impl<Types> Variable<Types> {
    /// The symbol referred to.
    pub closed spec fn view(self) -> Symbol<Types> {
        self.symbol
    }

    pub fn new(symbol: Symbol<Types>) -> (r: Self)
        ensures
            r@ == symbol,
    {
        Variable { symbol }
    }
}

impl<Values, Types> SubPoly<Values, Types> {
    /// The terms of the sum, from left to right.
    pub closed spec fn view(self) -> Seq<TermModel<Values, Types>>
        decreases self,
    {
        Seq::new(
            self.parts.len() as nat,
            |i: int|
                if 0 <= i < self.parts.len() {
                    self.parts[i].view()
                } else {
                    arbitrary()
                },
        )
    }

    pub fn new(parts: Vec<Term<Values, Types>>) -> (r: Self)
        ensures
            r@ == parts@.map_values(|term: Term<Values, Types>| term@),
    {
        let r = SubPoly { parts };
        assert(r@ =~= parts@.map_values(|term: Term<Values, Types>| term@));
        r
    }
}

impl<Values, Types> Factor<Values, Types> {
    /// The factor as a mathematical value.
    pub open spec fn view(self) -> FactorModel<Values, Types>
        decreases self,
    {
        match self {
            Factor::Value(value) => FactorModel::Value(value.view()),
            Factor::Variable(variable) => FactorModel::Variable(variable.view()),
            Factor::SubPoly(sub_poly) => FactorModel::SubPoly(sub_poly.view()),
        }
    }
}

/// Once the sum of the first terms has no type, no longer sum has one.
pub proof fn lemma_sum_type_stays_none<Types: PolyTypes, Values: PolyValues<Types>>(
    terms: Seq<TermModel<Values, Types>>,
    short: nat,
    long: nat,
)
    requires
        1 <= short <= long,
        sum_type(terms, short) is None,
    ensures
        sum_type(terms, long) is None,
    decreases long,
{
    if short < long {
        lemma_sum_type_stays_none(terms, short, (long - 1) as nat);
    }
}

/// Once the sum of the first terms has no value, no longer sum has one.
pub proof fn lemma_sum_value_stays_none<Types: PolyTypes, Values: PolyValues<Types>>(
    terms: Seq<TermModel<Values, Types>>,
    short: nat,
    long: nat,
)
    requires
        1 <= short <= long,
        sum_value(terms, short) is None,
    ensures
        sum_value(terms, long) is None,
    decreases long,
{
    if short < long {
        lemma_sum_value_stays_none(terms, short, (long - 1) as nat);
    }
}

impl<Types: PolyTypes, Values: PolyValues<Types>> SubPoly<Values, Types> {
    pub(crate) fn type_of(&self) -> (r: Option<Types>)
        ensures
            r == sum_type(self@, self@.len()),
        decreases self, 1nat,
    {
        let n = self.parts.len();
        if n == 0 {
            return None;
        }
        let mut acc = match self.parts[0].type_of() {
            Some(first) => first,
            None => {
                proof {
                    lemma_sum_type_stays_none(self@, 1, n as nat);
                }
                return None;
            },
        };
        let mut i: usize = 1;
        while i < n
            invariant
                1 <= i <= n,
                n == self.parts.len(),
                n == self@.len(),
                sum_type(self@, i as nat) == Some(acc),
            decreases n - i,
        {
            let next = self.parts[i].type_of();
            let joined = match next {
                Some(right) => acc.combine_add(&right),
                None => None,
            };
            match joined {
                Some(total) => {
                    acc = total;
                },
                None => {
                    proof {
                        lemma_sum_type_stays_none(self@, (i + 1) as nat, n as nat);
                    }
                    return None;
                },
            }
            i += 1;
        }
        Some(acc)
    }

    pub(crate) fn value_of(&self) -> (r: Option<Values>)
        ensures
            r == sum_value(self@, self@.len()),
        decreases self, 1nat,
    {
        let n = self.parts.len();
        if n == 0 {
            return None;
        }
        let mut acc = match self.parts[0].value_of() {
            Some(first) => first,
            None => {
                proof {
                    lemma_sum_value_stays_none(self@, 1, n as nat);
                }
                return None;
            },
        };
        let mut i: usize = 1;
        while i < n
            invariant
                1 <= i <= n,
                n == self.parts.len(),
                n == self@.len(),
                sum_value(self@, i as nat) == Some(acc),
            decreases n - i,
        {
            let next = self.parts[i].value_of();
            let joined = match next {
                Some(right) => acc.combine_add(&right),
                None => None,
            };
            match joined {
                Some(total) => {
                    acc = total;
                },
                None => {
                    proof {
                        lemma_sum_value_stays_none(self@, (i + 1) as nat, n as nat);
                    }
                    return None;
                },
            }
            i += 1;
        }
        Some(acc)
    }
}

impl<Types: PolyTypes, Values: PolyValues<Types>> Factor<Values, Types> {
    pub(crate) fn type_of(&self) -> (r: Option<Types>)
        ensures
            r == factor_type(self@),
        decreases self, 0nat,
    {
        match self {
            Factor::Value(value) => Some(value.value.as_type()),
            Factor::Variable(variable) => match variable.symbol.associated_type() {
                Some(declared) => Some(declared.duplicate()),
                None => None,
            },
            Factor::SubPoly(sub_poly) => sub_poly.type_of(),
        }
    }

    pub(crate) fn value_of(&self) -> (r: Option<Values>)
        ensures
            r == factor_value(self@),
        decreases self, 0nat,
    {
        match self {
            Factor::Value(value) => Some(value.value.duplicate()),
            Factor::Variable(_) => None,
            Factor::SubPoly(sub_poly) => sub_poly.value_of(),
        }
    }
}

impl<Types: PolyTypes, Values: PolyValues<Types>> SubPoly<Values, Types> {
    pub(crate) fn duplicate(&self) -> (r: Self)
        ensures
            r@ == self@,
        decreases self, 1nat,
    {
        let mut parts: Vec<Term<Values, Types>> = Vec::new();
        let mut i: usize = 0;
        while i < self.parts.len()
            invariant
                i <= self.parts.len(),
                parts.len() == i,
                forall|j: int| 0 <= j < i ==> (#[trigger] parts[j]).view() == self.parts[j].view(),
            decreases self.parts.len() - i,
        {
            parts.push(self.parts[i].duplicate());
            i += 1;
        }
        let r = SubPoly { parts };
        assert(r@ =~= self@);
        r
    }

    pub(crate) fn substituted(&self, to: &Symbol<Types>, factor: &Factor<Values, Types>) -> (r:
        Self)
        ensures
            r@ == substitute_terms(self@, to.id(), factor@),
        decreases self, 1nat,
    {
        let mut parts: Vec<Term<Values, Types>> = Vec::new();
        let mut i: usize = 0;
        while i < self.parts.len()
            invariant
                i <= self.parts.len(),
                parts.len() == i,
                forall|j: int|
                    0 <= j < i ==> (#[trigger] parts[j]).view() == substitute_term(
                        self.parts[j].view(),
                        to.id(),
                        factor@,
                    ),
            decreases self.parts.len() - i,
        {
            parts.push(self.parts[i].substituted(to, factor));
            i += 1;
        }
        let r = SubPoly { parts };
        assert(r@ =~= substitute_terms(self@, to.id(), factor@));
        r
    }
}

impl<Types: PolyTypes, Values: PolyValues<Types>> Factor<Values, Types> {
    pub(crate) fn duplicate(&self) -> (r: Self)
        ensures
            r@ == self@,
        decreases self, 0nat,
    {
        match self {
            Factor::Value(value) => Factor::Value(Value::new(value.value.duplicate())),
            Factor::Variable(variable) => Factor::Variable(Variable::new(variable.symbol.clone())),
            Factor::SubPoly(sub_poly) => Factor::SubPoly(sub_poly.duplicate()),
        }
    }

    pub(crate) fn substituted(&self, to: &Symbol<Types>, factor: &Factor<Values, Types>) -> (r:
        Self)
        ensures
            r@ == substitute_factor(self@, to.id(), factor@),
        decreases self, 0nat,
    {
        match self {
            Factor::Value(value) => Factor::Value(Value::new(value.value.duplicate())),
            Factor::Variable(variable) => if variable.symbol == *to {
                factor.duplicate()
            } else {
                Factor::Variable(Variable::new(variable.symbol.clone()))
            },
            Factor::SubPoly(sub_poly) => Factor::SubPoly(sub_poly.substituted(to, factor)),
        }
    }
}

/// What can stand as a factor of a term.
pub trait Factorable<Values, Types>: Substitutiable<Values, Types> + Finalizable<Values, Types> {
    /// The factor that `self` stands for.
    spec fn factor_model(self) -> FactorModel<Values, Types>;

    fn as_factor(self) -> (r: Factor<Values, Types>)
        ensures
            r@ == self.factor_model(),
    ;
}

/// What a symbol can be replaced in.
pub trait Substitutiable<Values, Types>: Sized {
    type Output;

    /// Whether `output` is `self` with `factor` in the place of every
    /// occurrence of the symbol `to`.
    spec fn gives(self, to: Symbol<Types>, factor: Factor<Values, Types>, output: Self::Output) -> bool;

    fn substitute(self, to: Symbol<Types>, factor: Factor<Values, Types>) -> (r: Self::Output)
        ensures
            self.gives(to, factor, r),
    ;
}

/// What can be reduced to its type and to its value.
pub trait Finalizable<Values, Types>: Sized {
    /// The type of `self`, where it has one.
    spec fn found_type(&self) -> Option<Types>;

    /// What finalizing the value of `self` gives.
    spec fn finalized_value(&self) -> Result<Values, FinalizeError>;

    fn finalize_type(&self) -> (r: Result<Types, FinalizeError>)
        ensures
            r == type_outcome(self.found_type()),
    ;

    fn finalize_value(self) -> (r: Result<Values, FinalizeError>)
        ensures
            r == self.finalized_value(),
    ;
}

/// The type, as the result of finalizing.
pub(crate) fn type_result<Types>(found: Option<Types>) -> (r: Result<Types, FinalizeError>)
    ensures
        r == type_outcome(found),
{
    match found {
        Some(own) => Ok(own),
        None => Err(FinalizeError::NoTypeToFinalize),
    }
}

/// The value, as the result of finalizing a tree that has a type.
pub(crate) fn value_result<Values>(computed: Option<Values>) -> (r: Result<Values, FinalizeError>)
    ensures
        r == match computed {
            Some(value) => Ok::<Values, FinalizeError>(value),
            None => Err(FinalizeError::NoValueToFinalize),
        },
{
    match computed {
        Some(value) => Ok(value),
        None => Err(FinalizeError::NoValueToFinalize),
    }
}

impl<Types: PolyTypes, Values: PolyValues<Types>> Factorable<Values, Types> for Factor<
    Values,
    Types,
> {
    open spec fn factor_model(self) -> FactorModel<Values, Types> {
        self@
    }

    fn as_factor(self) -> (r: Factor<Values, Types>) {
        self
    }
}

impl<Types: PolyTypes, Values: PolyValues<Types>> Substitutiable<Values, Types> for Factor<
    Values,
    Types,
> {
    type Output = Self;

    open spec fn gives(self, to: Symbol<Types>, factor: Factor<Values, Types>, output: Self) -> bool {
        output@ == substitute_factor(self@, to.id(), factor@)
    }

    fn substitute(self, to: Symbol<Types>, factor: Factor<Values, Types>) -> (r: Self) {
        self.substituted(&to, &factor)
    }
}

impl<Types: PolyTypes, Values: PolyValues<Types>> Finalizable<Values, Types> for Factor<
    Values,
    Types,
> {
    open spec fn found_type(&self) -> Option<Types> {
        factor_type(self@)
    }

    open spec fn finalized_value(&self) -> Result<Values, FinalizeError> {
        factor_outcome(self@)
    }

    fn finalize_type(&self) -> (r: Result<Types, FinalizeError>) {
        type_result(self.type_of())
    }

    fn finalize_value(self) -> (r: Result<Values, FinalizeError>) {
        match self {
            Factor::Variable(_) => Err(FinalizeError::NoValueToFinalize),
            _ => match self.type_of() {
                Some(_) => value_result(self.value_of()),
                None => Err(FinalizeError::NoTypeToFinalize),
            },
        }
    }
}

impl<Types: PolyTypes, Values: PolyValues<Types>> Clone for Factor<Values, Types> {
    fn clone(&self) -> (r: Self)
        ensures
            r@ == self@,
    {
        self.duplicate()
    }
}

impl<Types: PolyTypes, Values: PolyValues<Types>> Factorable<Values, Types> for Value<
    Values,
    Types,
> {
    open spec fn factor_model(self) -> FactorModel<Values, Types> {
        FactorModel::Value(self@)
    }

    fn as_factor(self) -> (r: Factor<Values, Types>) {
        Factor::Value(self)
    }
}

impl<Types: PolyTypes, Values: PolyValues<Types>> Substitutiable<Values, Types> for Value<
    Values,
    Types,
> {
    type Output = Factor<Values, Types>;

    open spec fn gives(
        self,
        to: Symbol<Types>,
        factor: Factor<Values, Types>,
        output: Factor<Values, Types>,
    ) -> bool {
        output@ == FactorModel::<Values, Types>::Value(self@)
    }

    fn substitute(self, to: Symbol<Types>, factor: Factor<Values, Types>) -> (r: Factor<
        Values,
        Types,
    >) {
        self.as_factor()
    }
}

impl<Types: PolyTypes, Values: PolyValues<Types>> Finalizable<Values, Types> for Value<
    Values,
    Types,
> {
    open spec fn found_type(&self) -> Option<Types> {
        Some(self@.kind())
    }

    open spec fn finalized_value(&self) -> Result<Values, FinalizeError> {
        Ok(self@)
    }

    fn finalize_type(&self) -> (r: Result<Types, FinalizeError>) {
        Ok(self.value.as_type())
    }

    fn finalize_value(self) -> (r: Result<Values, FinalizeError>) {
        Ok(self.value)
    }
}

impl<Types: PolyTypes, Values: PolyValues<Types>> Clone for Value<Values, Types> {
    fn clone(&self) -> (r: Self)
        ensures
            r@ == self@,
    {
        Value::new(self.value.duplicate())
    }
}

impl<Types: PolyTypes, Values: PolyValues<Types>> Factorable<Values, Types> for Variable<Types> {
    open spec fn factor_model(self) -> FactorModel<Values, Types> {
        FactorModel::Variable(self@)
    }

    fn as_factor(self) -> (r: Factor<Values, Types>) {
        Factor::Variable(self)
    }
}

impl<Types: PolyTypes, Values: PolyValues<Types>> Substitutiable<Values, Types> for Variable<
    Types,
> {
    type Output = Factor<Values, Types>;

    open spec fn gives(
        self,
        to: Symbol<Types>,
        factor: Factor<Values, Types>,
        output: Factor<Values, Types>,
    ) -> bool {
        output@ == if self@.id() == to.id() {
            factor@
        } else {
            FactorModel::Variable(self@)
        }
    }

    fn substitute(self, to: Symbol<Types>, factor: Factor<Values, Types>) -> (r: Factor<
        Values,
        Types,
    >) {
        if self.symbol == to {
            factor
        } else {
            Factor::Variable(self)
        }
    }
}

impl<Types: PolyTypes, Values: PolyValues<Types>> Finalizable<Values, Types> for Variable<Types> {
    open spec fn found_type(&self) -> Option<Types> {
        self@.info().associated_type
    }

    open spec fn finalized_value(&self) -> Result<Values, FinalizeError> {
        Err(FinalizeError::NoValueToFinalize)
    }

    fn finalize_type(&self) -> (r: Result<Types, FinalizeError>) {
        match self.symbol.associated_type() {
            Some(declared) => Ok(declared.duplicate()),
            None => Err(FinalizeError::NoTypeToFinalize),
        }
    }

    fn finalize_value(self) -> (r: Result<Values, FinalizeError>) {
        Err(FinalizeError::NoValueToFinalize)
    }
}

impl<Types: PolyTypes> Clone for Variable<Types> {
    fn clone(&self) -> (r: Self)
        ensures
            r@ == self@,
    {
        Variable::new(self.symbol.clone())
    }
}

impl<Types: PolyTypes, Values: PolyValues<Types>> Factorable<Values, Types> for SubPoly<
    Values,
    Types,
> {
    open spec fn factor_model(self) -> FactorModel<Values, Types> {
        FactorModel::SubPoly(self@)
    }

    fn as_factor(self) -> (r: Factor<Values, Types>) {
        Factor::SubPoly(self)
    }
}

impl<Types: PolyTypes, Values: PolyValues<Types>> Substitutiable<Values, Types> for SubPoly<
    Values,
    Types,
> {
    type Output = Self;

    open spec fn gives(self, to: Symbol<Types>, factor: Factor<Values, Types>, output: Self) -> bool {
        output@ == substitute_terms(self@, to.id(), factor@)
    }

    fn substitute(self, to: Symbol<Types>, factor: Factor<Values, Types>) -> (r: Self) {
        self.substituted(&to, &factor)
    }
}

impl<Types: PolyTypes, Values: PolyValues<Types>> Finalizable<Values, Types> for SubPoly<
    Values,
    Types,
> {
    open spec fn found_type(&self) -> Option<Types> {
        sum_type(self@, self@.len())
    }

    open spec fn finalized_value(&self) -> Result<Values, FinalizeError> {
        value_outcome(sum_type(self@, self@.len()), sum_value(self@, self@.len()))
    }

    fn finalize_type(&self) -> (r: Result<Types, FinalizeError>) {
        type_result(self.type_of())
    }

    fn finalize_value(self) -> (r: Result<Values, FinalizeError>) {
        match self.type_of() {
            Some(_) => value_result(self.value_of()),
            None => Err(FinalizeError::NoTypeToFinalize),
        }
    }
}

impl<Types: PolyTypes, Values: PolyValues<Types>> Clone for SubPoly<Values, Types> {
    fn clone(&self) -> (r: Self)
        ensures
            r@ == self@,
    {
        self.duplicate()
    }
}

} // verus!
