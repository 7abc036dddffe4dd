use crate::error::FinalizeError;
use crate::factor::{type_outcome, value_outcome};
use crate::model::{
    factor_declares, monomial_declares, terms_declare, factor_mentions, factor_type, factor_value, monomial_type, monomial_value, power_type,
    power_value, repeated_product, substitute_factor, substitute_monomial, substitute_term,
    substitute_terms, sum_type, sum_value, term_mentions, term_type, term_value, terms_mention,
    FactorModel, PowerModel, TermModel,
};
use crate::symbol::SymbolId;
use crate::traits::{PolyTypes, PolyValues};
use vstd::prelude::*;

verus! {

/// A factor in which the target symbol does not occur is what it was
/// after the substitution.
pub proof fn lemma_substitution_keeps_factor<Values, Types>(
    factor: FactorModel<Values, Types>,
    target: SymbolId,
    replacement: FactorModel<Values, Types>,
)
    requires
        !factor_mentions(factor, target),
    ensures
        substitute_factor(factor, target, replacement) == factor,
    decreases factor,
{
    match factor {
        FactorModel::SubPoly(terms) => {
            lemma_substitution_keeps_terms(terms, target, replacement);
        },
        _ => {},
    }
}

/// A term in which the target symbol does not occur is what it was after
/// the substitution.
pub proof fn lemma_substitution_keeps_term<Values, Types>(
    term: TermModel<Values, Types>,
    target: SymbolId,
    replacement: FactorModel<Values, Types>,
)
    requires
        !term_mentions(term, target),
    ensures
        substitute_term(term, target, replacement) == term,
    decreases term,
{
    let after = substitute_monomial(term.monomial, target, replacement);
    assert forall|i: int| 0 <= i < term.monomial.len() implies after[i] == term.monomial[i] by {
        assert(!factor_mentions(term.monomial[i].factor, target));
        lemma_substitution_keeps_factor(term.monomial[i].factor, target, replacement);
    }
    assert(after =~= term.monomial);
}

/// Terms in which the target symbol does not occur are what they were
/// after the substitution.
pub proof fn lemma_substitution_keeps_terms<Values, Types>(
    terms: Seq<TermModel<Values, Types>>,
    target: SymbolId,
    replacement: FactorModel<Values, Types>,
)
    requires
        !terms_mention(terms, target),
    ensures
        substitute_terms(terms, target, replacement) == terms,
    decreases terms,
{
    let after = substitute_terms(terms, target, replacement);
    assert forall|i: int| 0 <= i < terms.len() implies after[i] == terms[i] by {
        assert(!term_mentions(terms[i], target));
        lemma_substitution_keeps_term(terms[i], target, replacement);
    }
    assert(after =~= terms);
}

/// Whether a symbol occurs after a substitution, from where it occurred
/// before: `kept` in the tree, `met` the target in the tree, `brought`
/// in the replacement.
pub open spec fn occurs_after(same: bool, kept: bool, met: bool, brought: bool) -> bool {
    (!same && kept) || (met && brought)
}

/// A symbol occurs in a factor after a substitution exactly where it
/// occurred before and was not the target, or where the target occurred
/// and the replacement brought the symbol in.
pub proof fn lemma_substitution_occurrences_factor<Values, Types>(
    factor: FactorModel<Values, Types>,
    target: SymbolId,
    replacement: FactorModel<Values, Types>,
    symbol: SymbolId,
)
    ensures
        factor_mentions(substitute_factor(factor, target, replacement), symbol) == occurs_after(
            symbol == target,
            factor_mentions(factor, symbol),
            factor_mentions(factor, target),
            factor_mentions(replacement, symbol),
        ),
    decreases factor,
{
    match factor {
        FactorModel::SubPoly(terms) => {
            lemma_substitution_occurrences_terms(terms, target, replacement, symbol);
        },
        _ => {},
    }
}

/// A symbol occurs in a term after a substitution exactly where it
/// occurred before and was not the target, or where the target occurred
/// and the replacement brought the symbol in.
pub proof fn lemma_substitution_occurrences_term<Values, Types>(
    term: TermModel<Values, Types>,
    target: SymbolId,
    replacement: FactorModel<Values, Types>,
    symbol: SymbolId,
)
    ensures
        term_mentions(substitute_term(term, target, replacement), symbol) == occurs_after(
            symbol == target,
            term_mentions(term, symbol),
            term_mentions(term, target),
            factor_mentions(replacement, symbol),
        ),
    decreases term,
{
    let after = substitute_term(term, target, replacement);
    assert forall|i: int| 0 <= i < term.monomial.len() implies factor_mentions(
        after.monomial[i].factor,
        symbol,
    ) == occurs_after(
        symbol == target,
        factor_mentions(term.monomial[i].factor, symbol),
        factor_mentions(term.monomial[i].factor, target),
        factor_mentions(replacement, symbol),
    ) by {
        lemma_substitution_occurrences_factor(term.monomial[i].factor, target, replacement, symbol);
    }
    if term_mentions(after, symbol) {
        let i = choose|i: int|
            0 <= i < after.monomial.len() && factor_mentions(
                (#[trigger] after.monomial[i]).factor,
                symbol,
            );
        assert(factor_mentions(term.monomial[i].factor, symbol) || factor_mentions(
            term.monomial[i].factor,
            target,
        ));
    }
    if symbol != target && term_mentions(term, symbol) {
        let i = choose|i: int|
            0 <= i < term.monomial.len() && factor_mentions(
                (#[trigger] term.monomial[i]).factor,
                symbol,
            );
        assert(factor_mentions(after.monomial[i].factor, symbol));
    }
    if term_mentions(term, target) && factor_mentions(replacement, symbol) {
        let i = choose|i: int|
            0 <= i < term.monomial.len() && factor_mentions(
                (#[trigger] term.monomial[i]).factor,
                target,
            );
        assert(factor_mentions(after.monomial[i].factor, symbol));
    }
}

/// A symbol occurs in a sum after a substitution exactly where it
/// occurred before and was not the target, or where the target occurred
/// and the replacement brought the symbol in. So the target is gone
/// unless the replacement brings it back, and whatever the replacement
/// holds stands wherever the target stood.
pub proof fn lemma_substitution_occurrences_terms<Values, Types>(
    terms: Seq<TermModel<Values, Types>>,
    target: SymbolId,
    replacement: FactorModel<Values, Types>,
    symbol: SymbolId,
)
    ensures
        terms_mention(substitute_terms(terms, target, replacement), symbol) == occurs_after(
            symbol == target,
            terms_mention(terms, symbol),
            terms_mention(terms, target),
            factor_mentions(replacement, symbol),
        ),
    decreases terms,
{
    let after = substitute_terms(terms, target, replacement);
    assert forall|i: int| 0 <= i < terms.len() implies term_mentions(after[i], symbol)
        == occurs_after(
        symbol == target,
        term_mentions(terms[i], symbol),
        term_mentions(terms[i], target),
        factor_mentions(replacement, symbol),
    ) by {
        lemma_substitution_occurrences_term(terms[i], target, replacement, symbol);
    }
    if terms_mention(after, symbol) {
        let i = choose|i: int| 0 <= i < after.len() && term_mentions(#[trigger] after[i], symbol);
        assert(term_mentions(terms[i], symbol) || term_mentions(terms[i], target));
    }
    if symbol != target && terms_mention(terms, symbol) {
        let i = choose|i: int| 0 <= i < terms.len() && term_mentions(#[trigger] terms[i], symbol);
        assert(term_mentions(after[i], symbol));
    }
    if terms_mention(terms, target) && factor_mentions(replacement, symbol) {
        let i = choose|i: int| 0 <= i < terms.len() && term_mentions(#[trigger] terms[i], target);
        assert(term_mentions(after[i], symbol));
    }
}

/// After a substitution by a replacement in which the target symbol does
/// not occur, the symbol occurs nowhere in the sum.
pub proof fn lemma_substitution_clears_terms<Values, Types>(
    terms: Seq<TermModel<Values, Types>>,
    target: SymbolId,
    replacement: FactorModel<Values, Types>,
)
    requires
        !factor_mentions(replacement, target),
    ensures
        !terms_mention(substitute_terms(terms, target, replacement), target),
{
    lemma_substitution_occurrences_terms(terms, target, replacement, target);
}

/// A factor keeps its type under a substitution whose replacement has
/// the type that every occurrence of the target is declared with.
pub proof fn lemma_substitution_keeps_factor_type<Types: PolyTypes, Values: PolyValues<Types>>(
    factor: FactorModel<Values, Types>,
    target: SymbolId,
    replacement: FactorModel<Values, Types>,
)
    requires
        factor_declares(factor, target, factor_type(replacement)),
    ensures
        factor_type(substitute_factor(factor, target, replacement)) == factor_type(factor),
    decreases factor, 0nat,
{
    match factor {
        FactorModel::SubPoly(terms) => {
            lemma_substitution_keeps_sum_type(terms, target, replacement, terms.len());
        },
        _ => {},
    }
}

/// A product of powers keeps its type under a substitution whose
/// replacement has the type that every occurrence of the target is
/// declared with.
pub proof fn lemma_substitution_keeps_monomial_type<Types: PolyTypes, Values: PolyValues<Types>>(
    monomial: Seq<PowerModel<Values, Types>>,
    target: SymbolId,
    replacement: FactorModel<Values, Types>,
    count: nat,
)
    requires
        monomial_declares(monomial, target, factor_type(replacement)),
    ensures
        monomial_type(substitute_monomial(monomial, target, replacement), count) == monomial_type(
            monomial,
            count,
        ),
    decreases monomial, count,
{
    if 1 <= count <= monomial.len() {
        if count > 1 {
            lemma_substitution_keeps_monomial_type(
                monomial,
                target,
                replacement,
                (count - 1) as nat,
            );
        }
        let last = monomial[count - 1];
        let after = substitute_monomial(monomial, target, replacement);
        assert(factor_declares(last.factor, target, factor_type(replacement)));
        lemma_substitution_keeps_factor_type(last.factor, target, replacement);
        assert(after[count - 1] == PowerModel {
            factor: substitute_factor(last.factor, target, replacement),
            power: last.power,
        });
        assert(power_type(after[count - 1]) == power_type(last));
    }
}

/// A sum of terms keeps its type under a substitution whose replacement
/// has the type that every occurrence of the target is declared with:
/// like for like, the type that was finalized before is finalized after.
pub proof fn lemma_substitution_keeps_sum_type<Types: PolyTypes, Values: PolyValues<Types>>(
    terms: Seq<TermModel<Values, Types>>,
    target: SymbolId,
    replacement: FactorModel<Values, Types>,
    count: nat,
)
    requires
        terms_declare(terms, target, factor_type(replacement)),
    ensures
        sum_type(substitute_terms(terms, target, replacement), count) == sum_type(terms, count),
    decreases terms, count,
{
    if 1 <= count <= terms.len() {
        if count > 1 {
            lemma_substitution_keeps_sum_type(terms, target, replacement, (count - 1) as nat);
        }
        let term = terms[count - 1];
        let after = substitute_terms(terms, target, replacement);
        assert(monomial_declares(term.monomial, target, factor_type(replacement)));
        lemma_substitution_keeps_monomial_type(
            term.monomial,
            target,
            replacement,
            term.monomial.len(),
        );
        assert(after[count - 1] == substitute_term(term, target, replacement));
        assert(term_type(after[count - 1]) == term_type(term));
    }
}

/// A power of a value of a type that is closed under multiplication has
/// that type.
pub proof fn lemma_repeated_product_typed<Types: PolyTypes, Values: PolyValues<Types>>(
    base: Values,
    power: nat,
)
    requires
        power == 1 || base.kind().product(base.kind()).result == Some(base.kind()),
    ensures
        repeated_product::<Types, Values>(base, power) matches Some(raised) ==> raised.kind()
            == base.kind(),
    decreases power,
{
    if power > 1 {
        let below = (power - 1) as nat;
        lemma_repeated_product_typed::<Types, Values>(base, below);
        match repeated_product::<Types, Values>(base, below) {
            Some(lower) => {
                Values::product_keeps_types(lower, base);
            },
            None => {},
        }
    }
}

/// A factor that has a type and a value has a value of that type.
pub proof fn lemma_factor_value_typed<Types: PolyTypes, Values: PolyValues<Types>>(
    factor: FactorModel<Values, Types>,
)
    requires
        factor_type(factor) is Some,
        factor_value(factor) is Some,
    ensures
        factor_value(factor)->Some_0.kind() == factor_type(factor)->Some_0,
    decreases factor, 0nat,
{
    match factor {
        FactorModel::SubPoly(terms) => {
            lemma_sum_value_typed(terms, terms.len());
        },
        _ => {},
    }
}

/// A power that has a type and a value has a value of that type.
pub proof fn lemma_power_value_typed<Types: PolyTypes, Values: PolyValues<Types>>(
    entry: PowerModel<Values, Types>,
)
    requires
        power_type(entry) is Some,
        power_value(entry) is Some,
    ensures
        power_value(entry)->Some_0.kind() == power_type(entry)->Some_0,
    decreases entry, 0nat,
{
    if entry.power == 0 {
        Values::identities_keep_types(power_type(entry)->Some_0);
    } else {
        lemma_factor_value_typed(entry.factor);
        lemma_repeated_product_typed::<Types, Values>(
            factor_value(entry.factor)->Some_0,
            entry.power as nat,
        );
    }
}

/// A product of powers that has a type and a value has a value of that
/// type.
pub proof fn lemma_monomial_value_typed<Types: PolyTypes, Values: PolyValues<Types>>(
    monomial: Seq<PowerModel<Values, Types>>,
    count: nat,
)
    requires
        monomial_type(monomial, count) is Some,
        monomial_value(monomial, count) is Some,
    ensures
        monomial_value(monomial, count)->Some_0.kind() == monomial_type(monomial, count)->Some_0,
    decreases monomial, count,
{
    if count == 1 {
        lemma_power_value_typed(monomial[0]);
    } else {
        let below = (count - 1) as nat;
        lemma_monomial_value_typed(monomial, below);
        lemma_power_value_typed(monomial[count - 1]);
        Values::product_keeps_types(
            monomial_value(monomial, below)->Some_0,
            power_value(monomial[count - 1])->Some_0,
        );
    }
}

/// A term that has a type and a value has a value of that type.
pub proof fn lemma_term_value_typed<Types: PolyTypes, Values: PolyValues<Types>>(
    term: TermModel<Values, Types>,
)
    requires
        term_type(term) is Some,
        term_value(term) is Some,
    ensures
        term_value(term)->Some_0.kind() == term_type(term)->Some_0,
    decreases term, 0nat,
{
    if term.monomial.len() > 0 {
        lemma_monomial_value_typed(term.monomial, term.monomial.len());
        Values::product_keeps_types(
            term.coefficient,
            monomial_value(term.monomial, term.monomial.len())->Some_0,
        );
    }
}

/// A sum of terms that has a type and a value has a value of that type.
pub proof fn lemma_sum_value_typed<Types: PolyTypes, Values: PolyValues<Types>>(
    terms: Seq<TermModel<Values, Types>>,
    count: nat,
)
    requires
        sum_type(terms, count) is Some,
        sum_value(terms, count) is Some,
    ensures
        sum_value(terms, count)->Some_0.kind() == sum_type(terms, count)->Some_0,
    decreases terms, count,
{
    if count == 1 {
        lemma_term_value_typed(terms[0]);
    } else {
        let below = (count - 1) as nat;
        lemma_sum_value_typed(terms, below);
        lemma_term_value_typed(terms[count - 1]);
        Values::sum_keeps_types(
            sum_value(terms, below)->Some_0,
            term_value(terms[count - 1])->Some_0,
        );
    }
}

/// Finalizing a value succeeds only where finalizing the type does, and
/// the value then has that type.
pub proof fn lemma_finalized_value_has_finalized_type<Types: PolyTypes, Values: PolyValues<Types>>(
    terms: Seq<TermModel<Values, Types>>,
    value: Values,
)
    requires
        value_outcome(sum_type(terms, terms.len()), sum_value(terms, terms.len())) == Ok::<
            Values,
            FinalizeError,
        >(value),
    ensures
        type_outcome(sum_type(terms, terms.len())) == Ok::<Types, FinalizeError>(value.kind()),
{
    lemma_sum_value_typed(terms, terms.len());
}

/// Where the sum of the first terms cannot be added to the next term,
/// the whole sum has no type: finalizing the type fails, and finalizing
/// the value fails for want of a type, whatever the values are.
pub proof fn lemma_unaddable_types_fail<Types: PolyTypes, Values: PolyValues<Types>>(
    terms: Seq<TermModel<Values, Types>>,
    count: nat,
)
    requires
        1 <= count < terms.len(),
        sum_type(terms, count) matches Some(left) && term_type(terms[count as int]) matches Some(
            right,
        ) && left.sum(right) is None,
    ensures
        type_outcome(sum_type(terms, terms.len())) == Err::<Types, FinalizeError>(
            FinalizeError::NoTypeToFinalize,
        ),
        value_outcome(sum_type(terms, terms.len()), sum_value(terms, terms.len())) == Err::<
            Values,
            FinalizeError,
        >(FinalizeError::NoTypeToFinalize),
{
    assert(sum_type(terms, count + 1) is None);
    crate::factor::lemma_sum_type_stays_none(terms, count + 1, terms.len());
}

/// Two values as the factors of a term are multiplied in the order in
/// which they stand, and the coefficient from the left.
pub proof fn lemma_factors_multiply_in_order<Types: PolyTypes, Values: PolyValues<Types>>(
    coefficient: Values,
    first: Values,
    second: Values,
)
    ensures
        term_value(
            TermModel::<Values, Types> {
                coefficient,
                monomial: seq![
                    PowerModel { factor: FactorModel::Value(first), power: 1 },
                    PowerModel { factor: FactorModel::Value(second), power: 1 },
                ],
            },
        ) == match first.product(second) {
            Some(both) => coefficient.product(both),
            None => None,
        },
{
    let monomial = seq![
        PowerModel::<Values, Types> { factor: FactorModel::Value(first), power: 1 },
        PowerModel::<Values, Types> { factor: FactorModel::Value(second), power: 1 },
    ];
    assert(monomial.len() == 2);
    assert(monomial_value(monomial, 1) == power_value(monomial[0]));
    assert(repeated_product::<Types, Values>(first, 1) == Some(first));
    assert(repeated_product::<Types, Values>(second, 1) == Some(second));
    assert(monomial_value(monomial, 2) == first.product(second));
}

/// Two terms are added in the order in which they stand.
pub proof fn lemma_terms_add_in_order<Types: PolyTypes, Values: PolyValues<Types>>(
    first: TermModel<Values, Types>,
    second: TermModel<Values, Types>,
)
    ensures
        sum_value(seq![first, second], 2) == match (term_value(first), term_value(second)) {
            (Some(left), Some(right)) => left.sum(right),
            _ => None,
        },
        sum_type(seq![first, second], 2) == match (term_type(first), term_type(second)) {
            (Some(left), Some(right)) => left.sum(right),
            _ => None,
        },
{
    let terms = seq![first, second];
    assert(sum_value(terms, 1) == term_value(terms[0]));
    assert(sum_type(terms, 1) == term_type(terms[0]));
}

} // verus!
