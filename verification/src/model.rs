use crate::symbol::{Symbol, SymbolId};
use crate::traits::{PolyTypes, PolyValues};
use vstd::prelude::*;

verus! {

/// A factor as a mathematical value: a concrete value, a symbol, or a
/// nested sum of terms.
pub enum FactorModel<Values, Types> {
    Value(Values),
    Variable(Symbol<Types>),
    SubPoly(Seq<TermModel<Values, Types>>),
}

/// A factor raised to a power.
pub struct PowerModel<Values, Types> {
    pub factor: FactorModel<Values, Types>,
    pub power: u64,
}

/// A term as a mathematical value: its coefficient and, from left to
/// right, the powers that it is multiplied with.
pub struct TermModel<Values, Types> {
    pub coefficient: Values,
    pub monomial: Seq<PowerModel<Values, Types>>,
}

/// `base` multiplied `power - 1` times with itself from the left, for a
/// power of at least one.
pub open spec fn repeated_product<Types: PolyTypes, Values: PolyValues<Types>>(
    base: Values,
    power: nat,
) -> Option<Values>
    decreases power,
{
    if power <= 1 {
        Some(base)
    } else {
        match repeated_product::<Types, Values>(base, (power - 1) as nat) {
            Some(below) => below.product(base),
            None => None,
        }
    }
}

/// The type of a factor: that of a value, the declared type of a symbol,
/// or the type of a nested sum.
pub open spec fn factor_type<Types: PolyTypes, Values: PolyValues<Types>>(
    factor: FactorModel<Values, Types>,
) -> Option<Types>
    decreases factor, 0nat,
{
    match factor {
        FactorModel::Value(value) => Some(value.kind()),
        FactorModel::Variable(symbol) => symbol.info().associated_type,
        FactorModel::SubPoly(terms) => sum_type(terms, terms.len()),
    }
}

/// The type of a factor raised to a power. Power one is the factor's own
/// type; any other power asks that the type multiplied with itself gives
/// itself.
pub open spec fn power_type<Types: PolyTypes, Values: PolyValues<Types>>(
    entry: PowerModel<Values, Types>,
) -> Option<Types>
    decreases entry, 0nat,
{
    match factor_type(entry.factor) {
        Some(own) => if entry.power == 1 || own.product(own).result == Some(own) {
            Some(own)
        } else {
            None
        },
        None => None,
    }
}

/// The type of the product of the first `count` powers, multiplied from
/// left to right; `None` for no power at all.
pub open spec fn monomial_type<Types: PolyTypes, Values: PolyValues<Types>>(
    monomial: Seq<PowerModel<Values, Types>>,
    count: nat,
) -> Option<Types>
    decreases monomial, count,
{
    if count == 0 || count > monomial.len() {
        None
    } else if count == 1 {
        power_type(monomial[0])
    } else {
        match (monomial_type(monomial, (count - 1) as nat), power_type(monomial[count - 1])) {
            (Some(left), Some(right)) => left.product(right).result,
            _ => None,
        }
    }
}

/// The type of a term: that of its coefficient multiplied with that of
/// its monomial, or that of the coefficient alone where the monomial is
/// empty.
pub open spec fn term_type<Types: PolyTypes, Values: PolyValues<Types>>(
    term: TermModel<Values, Types>,
) -> Option<Types>
    decreases term, 0nat,
{
    if term.monomial.len() == 0 {
        Some(term.coefficient.kind())
    } else {
        match monomial_type(term.monomial, term.monomial.len()) {
            Some(right) => term.coefficient.kind().product(right).result,
            None => None,
        }
    }
}

/// The type of the sum of the first `count` terms, added from left to
/// right; `None` for no term at all.
pub open spec fn sum_type<Types: PolyTypes, Values: PolyValues<Types>>(
    terms: Seq<TermModel<Values, Types>>,
    count: nat,
) -> Option<Types>
    decreases terms, count,
{
    if count == 0 || count > terms.len() {
        None
    } else if count == 1 {
        term_type(terms[0])
    } else {
        match (sum_type(terms, (count - 1) as nat), term_type(terms[count - 1])) {
            (Some(left), Some(right)) => left.sum(right),
            _ => None,
        }
    }
}

/// The value of a factor: a concrete value is its own, a symbol has
/// none, a nested sum has the sum of its terms.
pub open spec fn factor_value<Types: PolyTypes, Values: PolyValues<Types>>(
    factor: FactorModel<Values, Types>,
) -> Option<Values>
    decreases factor, 0nat,
{
    match factor {
        FactorModel::Value(value) => Some(value),
        FactorModel::Variable(_) => None,
        FactorModel::SubPoly(terms) => sum_value(terms, terms.len()),
    }
}

/// The value of a factor raised to a power. Power one is the factor's
/// own value, power zero the multiplicative identity of the power's
/// type, and a higher power the repeated product.
pub open spec fn power_value<Types: PolyTypes, Values: PolyValues<Types>>(
    entry: PowerModel<Values, Types>,
) -> Option<Values>
    decreases entry, 0nat,
{
    if entry.power == 0 {
        match power_type(entry) {
            Some(own) => Values::one_of(own),
            None => None,
        }
    } else {
        match factor_value(entry.factor) {
            Some(base) => repeated_product::<Types, Values>(base, entry.power as nat),
            None => None,
        }
    }
}

/// The product of the first `count` powers, multiplied from left to
/// right; `None` for no power at all.
pub open spec fn monomial_value<Types: PolyTypes, Values: PolyValues<Types>>(
    monomial: Seq<PowerModel<Values, Types>>,
    count: nat,
) -> Option<Values>
    decreases monomial, count,
{
    if count == 0 || count > monomial.len() {
        None
    } else if count == 1 {
        power_value(monomial[0])
    } else {
        match (monomial_value(monomial, (count - 1) as nat), power_value(monomial[count - 1])) {
            (Some(left), Some(right)) => left.product(right),
            _ => None,
        }
    }
}

/// The value of a term: its coefficient multiplied with its monomial, or
/// the coefficient alone where the monomial is empty.
pub open spec fn term_value<Types: PolyTypes, Values: PolyValues<Types>>(
    term: TermModel<Values, Types>,
) -> Option<Values>
    decreases term, 0nat,
{
    if term.monomial.len() == 0 {
        Some(term.coefficient)
    } else {
        match monomial_value(term.monomial, term.monomial.len()) {
            Some(right) => term.coefficient.product(right),
            None => None,
        }
    }
}

/// The sum of the first `count` terms, added from left to right; `None`
/// for no term at all.
pub open spec fn sum_value<Types: PolyTypes, Values: PolyValues<Types>>(
    terms: Seq<TermModel<Values, Types>>,
    count: nat,
) -> Option<Values>
    decreases terms, count,
{
    if count == 0 || count > terms.len() {
        None
    } else if count == 1 {
        term_value(terms[0])
    } else {
        match (sum_value(terms, (count - 1) as nat), term_value(terms[count - 1])) {
            (Some(left), Some(right)) => left.sum(right),
            _ => None,
        }
    }
}

/// `factor` with `replacement` in the place of every occurrence of the
/// symbol `target`.
pub open spec fn substitute_factor<Values, Types>(
    factor: FactorModel<Values, Types>,
    target: SymbolId,
    replacement: FactorModel<Values, Types>,
) -> FactorModel<Values, Types>
    decreases factor,
{
    match factor {
        FactorModel::Value(_) => factor,
        FactorModel::Variable(symbol) => if symbol.id() == target {
            replacement
        } else {
            factor
        },
        FactorModel::SubPoly(terms) => FactorModel::SubPoly(
            substitute_terms(terms, target, replacement),
        ),
    }
}

/// `monomial` with the substitution made in each of its factors.
pub open spec fn substitute_monomial<Values, Types>(
    monomial: Seq<PowerModel<Values, Types>>,
    target: SymbolId,
    replacement: FactorModel<Values, Types>,
) -> Seq<PowerModel<Values, Types>>
    decreases monomial,
{
    Seq::new(
        monomial.len(),
        |i: int|
            if 0 <= i < monomial.len() {
                PowerModel {
                    factor: substitute_factor(monomial[i].factor, target, replacement),
                    power: monomial[i].power,
                }
            } else {
                monomial[i]
            },
    )
}

/// `term` with the substitution made in each factor of its monomial.
pub open spec fn substitute_term<Values, Types>(
    term: TermModel<Values, Types>,
    target: SymbolId,
    replacement: FactorModel<Values, Types>,
) -> TermModel<Values, Types>
    decreases term,
{
    TermModel {
        coefficient: term.coefficient,
        monomial: substitute_monomial(term.monomial, target, replacement),
    }
}

/// `terms` with the substitution made in each term.
pub open spec fn substitute_terms<Values, Types>(
    terms: Seq<TermModel<Values, Types>>,
    target: SymbolId,
    replacement: FactorModel<Values, Types>,
) -> Seq<TermModel<Values, Types>>
    decreases terms,
{
    Seq::new(
        terms.len(),
        |i: int|
            if 0 <= i < terms.len() {
                substitute_term(terms[i], target, replacement)
            } else {
                terms[i]
            },
    )
}

/// Whether the symbol `target` occurs in `factor`.
pub open spec fn factor_mentions<Values, Types>(
    factor: FactorModel<Values, Types>,
    target: SymbolId,
) -> bool
    decreases factor,
{
    match factor {
        FactorModel::Value(_) => false,
        FactorModel::Variable(symbol) => symbol.id() == target,
        FactorModel::SubPoly(terms) => terms_mention(terms, target),
    }
}

/// Whether the symbol `target` occurs in a factor of `term`.
pub open spec fn term_mentions<Values, Types>(
    term: TermModel<Values, Types>,
    target: SymbolId,
) -> bool
    decreases term,
{
    exists|i: int|
        0 <= i < term.monomial.len() && factor_mentions((#[trigger] term.monomial[i]).factor, target)
}

/// Whether the symbol `target` occurs in one of `terms`.
pub open spec fn terms_mention<Values, Types>(
    terms: Seq<TermModel<Values, Types>>,
    target: SymbolId,
) -> bool
    decreases terms,
{
    exists|i: int| 0 <= i < terms.len() && term_mentions(#[trigger] terms[i], target)
}

/// Whether every occurrence of the symbol `target` in `factor` is
/// declared with the type `declared`.
pub open spec fn factor_declares<Values, Types>(
    factor: FactorModel<Values, Types>,
    target: SymbolId,
    declared: Option<Types>,
) -> bool
    decreases factor,
{
    match factor {
        FactorModel::Value(_) => true,
        FactorModel::Variable(symbol) => symbol.id() == target ==> symbol.info().associated_type
            == declared,
        FactorModel::SubPoly(terms) => terms_declare(terms, target, declared),
    }
}

/// Whether every occurrence of the symbol `target` in `monomial` is
/// declared with the type `declared`.
pub open spec fn monomial_declares<Values, Types>(
    monomial: Seq<PowerModel<Values, Types>>,
    target: SymbolId,
    declared: Option<Types>,
) -> bool
    decreases monomial,
{
    forall|i: int|
        0 <= i < monomial.len() ==> factor_declares((#[trigger] monomial[i]).factor, target, declared)
}

/// Whether every occurrence of the symbol `target` in `terms` is
/// declared with the type `declared`.
pub open spec fn terms_declare<Values, Types>(
    terms: Seq<TermModel<Values, Types>>,
    target: SymbolId,
    declared: Option<Types>,
) -> bool
    decreases terms,
{
    forall|i: int|
        0 <= i < terms.len() ==> monomial_declares((#[trigger] terms[i]).monomial, target, declared)
}

} // verus!
