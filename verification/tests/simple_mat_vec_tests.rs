use poly_gnom::error::{BuilderError, FinalizeError};
use poly_gnom::factor::{Factor, Factorable, Finalizable, SubPoly, Substitutiable, Value, Variable};
use poly_gnom::polynomial::{Polynomial, PolynomialBuilder};
use poly_gnom::symbol::{SymbolInfo, SymbolsProvider};
use poly_gnom::term::raise;
use poly_gnom::traits::{MulTraits, One, PolyTypes, PolyValues, Zero};

type Int = i64;

#[derive(PartialEq, Eq, Clone, Copy, Debug)]
enum Types {
    Scalar,
    Vector,
    Matrix,
}

impl PolyTypes for Types {
    fn sum(self, rhs: Self) -> Option<Self> {
        if self == rhs {
            Some(self)
        } else {
            None
        }
    }

    fn product(self, rhs: Self) -> MulTraits<Self> {
        let (result, commutative) = match (self, rhs) {
            (Types::Scalar, Types::Scalar) => (Some(Types::Scalar), true),
            (Types::Scalar, Types::Vector) => (Some(Types::Vector), true),
            (Types::Scalar, Types::Matrix) => (Some(Types::Matrix), true),
            (Types::Vector, Types::Scalar) => (Some(Types::Vector), true),
            (Types::Vector, Types::Vector) => (None, false),
            (Types::Vector, Types::Matrix) => (None, false),
            (Types::Matrix, Types::Scalar) => (Some(Types::Matrix), true),
            (Types::Matrix, Types::Vector) => (Some(Types::Vector), false),
            (Types::Matrix, Types::Matrix) => (Some(Types::Matrix), false),
        };
        MulTraits { result, commutative }
    }

    fn negation(self) -> Self {
        self
    }

    fn combine_add(&self, rhs: &Self) -> Option<Self> {
        self.sum(*rhs)
    }

    fn combine_mul(&self, rhs: &Self) -> MulTraits<Self> {
        self.product(*rhs)
    }

    fn negate(&self) -> Self {
        self.negation()
    }

    fn same(&self, other: &Self) -> bool {
        self == other
    }

    fn duplicate(&self) -> Self {
        *self
    }
}

#[derive(Clone, PartialEq, Eq, Debug)]
struct Scalar(Int);

impl Zero for Scalar {
    fn zero() -> Self {
        Scalar(0)
    }
}

impl One for Scalar {
    fn one() -> Self {
        Scalar(1)
    }
}

#[derive(Clone, PartialEq, Eq, Debug)]
enum Values {
    Scalar(Scalar),
    Vector(Vec<Int>),
    Matrix(Vec<Vec<Int>>),
}

impl Values {
    fn new_scalar(value: Int) -> Self {
        Values::Scalar(Scalar(value))
    }

    fn new_vector(elements: Vec<Int>) -> Self {
        Values::Vector(elements)
    }

    fn new_matrix(elements: Vec<Vec<Int>>) -> Self {
        Values::Matrix(elements)
    }
}

fn scale_vector(factor: Int, elements: &Vec<Int>) -> Vec<Int> {
    elements.iter().map(|x| factor * x).collect()
}

fn scale_matrix(factor: Int, rows: &Vec<Vec<Int>>) -> Vec<Vec<Int>> {
    rows.iter().map(|row| scale_vector(factor, row)).collect()
}

fn columns(rows: &Vec<Vec<Int>>) -> usize {
    if rows.is_empty() {
        0
    } else {
        rows[0].len()
    }
}

fn matrix_times_vector(rows: &Vec<Vec<Int>>, elements: &Vec<Int>) -> Option<Vec<Int>> {
    if columns(rows) != elements.len() {
        return None;
    }
    Some(rows.iter().map(|row| row.iter().zip(elements).map(|(a, b)| a * b).sum()).collect())
}

fn matrix_times_matrix(left: &Vec<Vec<Int>>, right: &Vec<Vec<Int>>) -> Option<Vec<Vec<Int>>> {
    if columns(left) != right.len() {
        return None;
    }
    let m = columns(right);
    Some(
        left.iter()
            .map(|row| (0..m).map(|j| row.iter().zip(right).map(|(a, r)| a * r[j]).sum()).collect())
            .collect(),
    )
}

impl PolyValues<Types> for Values {
    fn kind(self) -> Types {
        match self {
            Values::Scalar(_) => Types::Scalar,
            Values::Vector(_) => Types::Vector,
            Values::Matrix(_) => Types::Matrix,
        }
    }

    fn sum(self, rhs: Self) -> Option<Self> {
        match (self, rhs) {
            (Values::Scalar(l), Values::Scalar(r)) => Some(Values::Scalar(Scalar(l.0 + r.0))),
            (Values::Vector(l), Values::Vector(r)) => {
                if l.len() != r.len() {
                    return None;
                }
                Some(Values::Vector(l.iter().zip(&r).map(|(a, b)| a + b).collect()))
            }
            (Values::Matrix(l), Values::Matrix(r)) => {
                if l.len() != r.len() || columns(&l) != columns(&r) {
                    return None;
                }
                Some(Values::Matrix(
                    l.iter()
                        .zip(&r)
                        .map(|(a, b)| a.iter().zip(b).map(|(x, y)| x + y).collect())
                        .collect(),
                ))
            }
            _ => None,
        }
    }

    fn product(self, rhs: Self) -> Option<Self> {
        match (self, rhs) {
            (Values::Scalar(l), Values::Scalar(r)) => Some(Values::Scalar(Scalar(l.0 * r.0))),
            (Values::Scalar(l), Values::Vector(r)) => Some(Values::Vector(scale_vector(l.0, &r))),
            (Values::Scalar(l), Values::Matrix(r)) => Some(Values::Matrix(scale_matrix(l.0, &r))),
            (Values::Vector(l), Values::Scalar(r)) => Some(Values::Vector(scale_vector(r.0, &l))),
            (Values::Vector(_), Values::Vector(_)) => None,
            (Values::Vector(_), Values::Matrix(_)) => None,
            (Values::Matrix(l), Values::Scalar(r)) => Some(Values::Matrix(scale_matrix(r.0, &l))),
            (Values::Matrix(l), Values::Vector(r)) => matrix_times_vector(&l, &r).map(Values::Vector),
            (Values::Matrix(l), Values::Matrix(r)) => matrix_times_matrix(&l, &r).map(Values::Matrix),
        }
    }

    fn negation(self) -> Self {
        match self {
            Values::Scalar(s) => Values::Scalar(Scalar(-s.0)),
            Values::Vector(v) => Values::Vector(scale_vector(-1, &v)),
            Values::Matrix(m) => Values::Matrix(scale_matrix(-1, &m)),
        }
    }

    fn zero_of(expected_type: Types) -> Option<Self> {
        match expected_type {
            Types::Scalar => Some(Values::Scalar(Scalar::zero())),
            Types::Vector => None,
            Types::Matrix => None,
        }
    }

    fn one_of(expected_type: Types) -> Option<Self> {
        match expected_type {
            Types::Scalar => Some(Values::Scalar(Scalar::one())),
            Types::Vector => None,
            Types::Matrix => None,
        }
    }

    fn sum_keeps_types(_a: Self, _b: Self) {}

    fn product_keeps_types(_a: Self, _b: Self) {}

    fn identities_keep_types(_expected_type: Types) {}

    fn product_associative(_a: Self, _b: Self, _c: Self) {}

    fn as_type(&self) -> Types {
        self.clone().kind()
    }

    fn combine_add(&self, rhs: &Self) -> Option<Self> {
        self.clone().sum(rhs.clone())
    }

    fn combine_mul(&self, rhs: &Self) -> Option<Self> {
        self.clone().product(rhs.clone())
    }

    fn negate(&self) -> Self {
        self.clone().negation()
    }

    fn zero_with_type(expected_type: Types) -> Option<Self> {
        Self::zero_of(expected_type)
    }

    fn one_with_type(expected_type: Types) -> Option<Self> {
        Self::one_of(expected_type)
    }

    fn duplicate(&self) -> Self {
        self.clone()
    }
}

fn basic_sumbols_provider() -> SymbolsProvider<Types> {
    let mut provider = SymbolsProvider::empty(0);

    provider.add(SymbolInfo::new_typed("x", Types::Scalar));
    provider.add(SymbolInfo::new_typed("y", Types::Scalar));
    provider.add(SymbolInfo::new_typed("z", Types::Scalar));

    provider.add(SymbolInfo::new_typed("u", Types::Vector));
    provider.add(SymbolInfo::new_typed("v", Types::Vector));
    provider.add(SymbolInfo::new_typed("w", Types::Vector));

    provider.add(SymbolInfo::new_typed("A", Types::Matrix));
    provider.add(SymbolInfo::new_typed("B", Types::Matrix));
    provider.add(SymbolInfo::new_typed("C", Types::Matrix));

    provider.add(SymbolInfo::new("r", None));
    provider.add(SymbolInfo::new("p", None));
    provider.add(SymbolInfo::new("q", None));

    provider
}

type MatVecPolynomial = Polynomial<Values, Types>;

#[test]
fn basic_scalar_sum_test() {
    let provider = basic_sumbols_provider();

    let poly1 = MatVecPolynomial::one(Types::Scalar).unwrap();
    let poly2 = poly1.clone();

    let poly = MatVecPolynomial::builder()
        .term_builder(Values::new_scalar(1))
        .variable(provider.get("x").unwrap(), 1)
        .build()
        .term_builder(Values::new_scalar(1))
        .variable(provider.get("y").unwrap(), 1)
        .build()
        .build()
        .unwrap();

    let poly = poly
        .substitute_polynomial(provider.get("x").unwrap(), poly1)
        .substitute_polynomial(provider.get("y").unwrap(), poly2);

    let value = poly.as_value().unwrap();

    assert_eq!(value, Values::new_scalar(2));
}

#[test]
fn basic_scalar_mul_test() {
    let provider = basic_sumbols_provider();

    let poly1 = MatVecPolynomial::builder()
        .term_builder(Values::new_scalar(2))
        .build()
        .build()
        .unwrap();
    let poly2 = MatVecPolynomial::builder()
        .term_builder(Values::new_scalar(3))
        .build()
        .build()
        .unwrap();

    let poly = MatVecPolynomial::builder()
        .term_builder(Values::new_scalar(1))
        .variable(provider.get("x").unwrap(), 1)
        .variable(provider.get("y").unwrap(), 1)
        .build()
        .build()
        .unwrap();

    let poly = poly
        .substitute_polynomial(provider.get("x").unwrap(), poly1)
        .substitute_polynomial(provider.get("y").unwrap(), poly2);

    let value = poly.as_value().unwrap();

    assert_eq!(value, Values::new_scalar(6));
}

#[test]
fn basic_sum_test() {
    let provider = basic_sumbols_provider();

    let operands_and_result = vec![
        (Values::new_scalar(2), Values::new_scalar(4), Values::new_scalar(6)),
        (
            Values::new_vector(vec![1, 2]),
            Values::new_vector(vec![6, 3]),
            Values::new_vector(vec![7, 5]),
        ),
        (
            Values::new_matrix(vec![vec![0, 1], vec![2, 3]]),
            Values::new_matrix(vec![vec![8, 7], vec![6, 5]]),
            Values::new_matrix(vec![vec![8, 8], vec![8, 8]]),
        ),
    ];

    let adder = MatVecPolynomial::builder()
        .term_builder(Values::new_scalar(1))
        .variable(provider.get("p").unwrap(), 1)
        .build()
        .term_builder(Values::new_scalar(1))
        .variable(provider.get("q").unwrap(), 1)
        .build()
        .build()
        .unwrap();

    for (lhs, rhs, res) in operands_and_result {
        let sum = adder
            .clone()
            .substitute_value(provider.get("p").unwrap(), lhs)
            .substitute_value(provider.get("q").unwrap(), rhs)
            .as_value()
            .unwrap();
        assert_eq!(res, sum);
    }
}

#[test]
fn basic_mul_test() {
    let provider = basic_sumbols_provider();

    let operands_and_result = vec![
        (Values::new_scalar(2), Values::new_scalar(4), Some(Values::new_scalar(8))),
        (Values::new_vector(vec![1, 2]), Values::new_vector(vec![6, 3]), None),
        (
            Values::new_matrix(vec![vec![0, 1], vec![2, 3]]),
            Values::new_matrix(vec![vec![8, 7], vec![6, 5]]),
            Some(Values::new_matrix(vec![vec![6, 5], vec![34, 29]])),
        ),
    ];

    let multiplyer = MatVecPolynomial::builder()
        .term_builder(Values::new_scalar(1))
        .variable(provider.get("p").unwrap(), 1)
        .variable(provider.get("q").unwrap(), 1)
        .build()
        .build()
        .unwrap();

    for (lhs, rhs, res) in operands_and_result {
        let mul = multiplyer
            .clone()
            .substitute_value(provider.get("p").unwrap(), lhs)
            .substitute_value(provider.get("q").unwrap(), rhs)
            .as_value();
        assert_eq!(res, mul.ok());
    }
}

#[test]
fn basic_polynomial_test_1() {
    let provider = basic_sumbols_provider();

    let permutation_matrix =
        vec![vec![0, 1, 0, 0], vec![0, 0, 0, 1], vec![0, 0, 1, 0], vec![1, 0, 0, 0]];

    let poly = MatVecPolynomial::builder()
        .term_builder(Values::new_scalar(5))
        .value(Values::new_matrix(permutation_matrix), 1)
        .variable(provider.get("v").unwrap(), 1)
        .build()
        .build()
        .unwrap();

    let vectors = vec![
        (Values::new_vector(vec![1, 2, 3]), None),
        (Values::new_vector(vec![1, 2, 3, 4]), Some(Values::new_vector(vec![10, 20, 15, 5]))),
        (Values::new_vector(vec![2, 2, 4, 4]), Some(Values::new_vector(vec![10, 20, 20, 10]))),
    ];

    assert_eq!(poly.as_type().unwrap(), Types::Vector);

    for (v, res) in vectors {
        let result = poly.clone().substitute_value(provider.get("v").unwrap(), v).as_value();
        assert_eq!(res, result.ok());
    }
}

fn scalar_term(coefficient: Int) -> MatVecPolynomial {
    MatVecPolynomial::builder().term_builder(Values::new_scalar(coefficient)).build().build().unwrap()
}

fn fibonacci_matrix() -> Values {
    Values::new_matrix(vec![vec![1, 1], vec![1, 0]])
}

fn repeated(base: &Values, power: u64) -> Option<Values> {
    let mut result = base.clone();
    for _ in 1..power {
        result = result.combine_mul(base)?;
    }
    Some(result)
}

#[test]
fn registry_interns_each_label_once() {
    let mut provider = SymbolsProvider::empty(7);
    let first = provider.add(SymbolInfo::new_typed("x", Types::Scalar));
    let second = provider.add(SymbolInfo::new_typed("x", Types::Matrix));
    let found = provider.get("x").unwrap();
    assert!(first == second);
    assert!(first == found);
    assert_eq!(first.identity(), second.identity());
    assert_eq!(first.identity().registry, 7);
    assert_eq!(first.identity().index, 0);
    assert_eq!(second.label().as_str(), "x");
    assert_eq!(*second.associated_type(), Some(Types::Scalar));
}

#[test]
fn registry_numbers_symbols_in_order() {
    let mut provider = SymbolsProvider::empty(1);
    let x = provider.add(SymbolInfo::new_typed("x", Types::Scalar));
    let y = provider.add(SymbolInfo::new("y", None));
    assert!(x != y);
    assert_eq!(x.identity().index, 0);
    assert_eq!(y.identity().index, 1);
    assert_eq!(*y.associated_type(), None);
    assert_eq!(y.label().as_str(), "y");
}

#[test]
fn registry_get_unknown_label_is_none() {
    let provider = basic_sumbols_provider();
    assert!(provider.get("missing").is_none());
    assert!(SymbolsProvider::<Types>::empty(3).get("x").is_none());
}

#[test]
fn symbols_of_different_registries_differ() {
    let mut first = SymbolsProvider::empty(1);
    let mut second = SymbolsProvider::empty(2);
    let a = first.add(SymbolInfo::new_typed("x", Types::Scalar));
    let b = second.add(SymbolInfo::new_typed("x", Types::Scalar));
    assert!(a != b);
    assert_ne!(a.identity(), b.identity());
}

#[test]
fn symbol_clone_is_the_same_symbol() {
    let provider = basic_sumbols_provider();
    let x = provider.get("x").unwrap();
    let copy = x.clone();
    assert!(x == copy);
    assert_eq!(copy.label().as_str(), "x");
    assert_eq!(*copy.associated_type(), Some(Types::Scalar));
}

#[test]
fn zero_and_one_of_scalar() {
    assert_eq!(MatVecPolynomial::zero(Types::Scalar).unwrap().as_value().unwrap(), Values::new_scalar(0));
    assert_eq!(MatVecPolynomial::one(Types::Scalar).unwrap().as_value().unwrap(), Values::new_scalar(1));
    assert_eq!(MatVecPolynomial::one(Types::Scalar).unwrap().as_type().unwrap(), Types::Scalar);
}

#[test]
fn identity_of_type_without_one_is_coefficient_error() {
    assert_eq!(MatVecPolynomial::zero(Types::Vector).err(), Some(BuilderError::CoefficientError));
    assert_eq!(MatVecPolynomial::zero(Types::Matrix).err(), Some(BuilderError::CoefficientError));
    assert_eq!(MatVecPolynomial::one(Types::Vector).err(), Some(BuilderError::CoefficientError));
    assert_eq!(MatVecPolynomial::one(Types::Matrix).err(), Some(BuilderError::CoefficientError));
}

#[test]
fn builder_reports_first_failed_term() {
    let built = MatVecPolynomial::builder()
        .term_builder(Values::new_scalar(1))
        .build()
        .maybe_term(Err(BuilderError::TermError))
        .maybe_term(Err(BuilderError::PolynomialError))
        .term_builder(Values::new_scalar(2))
        .build()
        .build();
    assert_eq!(built.err(), Some(BuilderError::TermError));
}

#[test]
fn term_builder_reports_first_failed_factor() {
    let provider = basic_sumbols_provider();
    let built = MatVecPolynomial::builder()
        .term_builder(Values::new_scalar(1))
        .variable(provider.get("x").unwrap(), 1)
        .maybe_value(Err(BuilderError::FactorError), 1)
        .maybe_variable(Err(BuilderError::CoefficientError), 2)
        .maybe_polynomial(Err(BuilderError::PolynomialError), 1)
        .build()
        .build();
    assert_eq!(built.err(), Some(BuilderError::FactorError));

    let nested = MatVecPolynomial::builder()
        .term_builder(Values::new_scalar(1))
        .maybe_polynomial(MatVecPolynomial::one(Types::Vector), 1)
        .build()
        .build();
    assert_eq!(nested.err(), Some(BuilderError::CoefficientError));

    let symbol = MatVecPolynomial::builder()
        .term_builder(Values::new_scalar(1))
        .maybe_variable(Err(BuilderError::TermError), 1)
        .value(Values::new_scalar(2), 1)
        .build()
        .build();
    assert_eq!(symbol.err(), Some(BuilderError::TermError));
}

#[test]
fn maybe_builders_accept_what_succeeded() {
    let provider = basic_sumbols_provider();
    let poly = MatVecPolynomial::builder()
        .term_builder(Values::new_scalar(2))
        .maybe_value(Ok(Values::new_scalar(3)), 1)
        .maybe_variable(Ok(provider.get("x").unwrap()), 1)
        .maybe_polynomial(Ok(scalar_term(5)), 1)
        .build()
        .build()
        .unwrap();
    let value = poly.substitute_value(provider.get("x").unwrap(), Values::new_scalar(7)).as_value();
    assert_eq!(value.unwrap(), Values::new_scalar(210));
}

#[test]
fn empty_polynomial_has_no_type() {
    let poly = MatVecPolynomial::builder().build().unwrap();
    assert_eq!(poly.as_type(), Err(FinalizeError::NoTypeToFinalize));
    assert_eq!(poly.as_value(), Err(FinalizeError::NoTypeToFinalize));
    let empty: SubPoly<Values, Types> = SubPoly::new(Vec::new());
    assert_eq!(empty.finalize_type(), Err(FinalizeError::NoTypeToFinalize));
}

#[test]
fn undeclared_variable_has_no_type() {
    let provider = basic_sumbols_provider();
    let poly = MatVecPolynomial::builder()
        .term_builder(Values::new_scalar(1))
        .variable(provider.get("r").unwrap(), 1)
        .build()
        .build()
        .unwrap();
    assert_eq!(poly.as_type(), Err(FinalizeError::NoTypeToFinalize));
    assert_eq!(poly.as_value(), Err(FinalizeError::NoTypeToFinalize));
}

#[test]
fn declared_variable_has_a_type_and_no_value() {
    let provider = basic_sumbols_provider();
    let poly = MatVecPolynomial::builder()
        .term_builder(Values::new_scalar(1))
        .variable(provider.get("A").unwrap(), 1)
        .build()
        .build()
        .unwrap();
    assert_eq!(poly.as_type(), Ok(Types::Matrix));
    assert_eq!(poly.as_value(), Err(FinalizeError::NoValueToFinalize));
}

#[test]
fn mismatched_dimensions_have_a_type_and_no_value() {
    let poly = MatVecPolynomial::builder()
        .term_builder(Values::new_scalar(1))
        .value(Values::new_matrix(vec![vec![1, 2], vec![3, 4]]), 1)
        .value(Values::new_vector(vec![1, 2, 3]), 1)
        .build()
        .build()
        .unwrap();
    assert_eq!(poly.as_type(), Ok(Types::Vector));
    assert_eq!(poly.as_value(), Err(FinalizeError::NoValueToFinalize));
}

#[test]
fn vector_plus_matrix_has_no_type() {
    let poly = MatVecPolynomial::builder()
        .term_builder(Values::new_scalar(1))
        .value(Values::new_vector(vec![1, 2]), 1)
        .build()
        .term_builder(Values::new_scalar(1))
        .value(Values::new_matrix(vec![vec![1, 2], vec![3, 4]]), 1)
        .build()
        .build()
        .unwrap();
    assert_eq!(poly.as_type(), Err(FinalizeError::NoTypeToFinalize));
    assert_eq!(poly.as_value(), Err(FinalizeError::NoTypeToFinalize));
}

#[test]
fn sum_of_vectors_of_different_length_has_no_value() {
    let poly = MatVecPolynomial::builder()
        .term_builder(Values::new_vector(vec![1, 2]))
        .build()
        .term_builder(Values::new_vector(vec![1, 2, 3]))
        .build()
        .build()
        .unwrap();
    assert_eq!(poly.as_type(), Ok(Types::Vector));
    assert_eq!(poly.as_value(), Err(FinalizeError::NoValueToFinalize));
}

#[test]
fn raise_matches_repeated_multiplication() {
    for power in 1..=20u64 {
        let scalar = Values::new_scalar(3);
        assert_eq!(raise::<Types, Values>(&scalar, power), repeated(&scalar, power));
        let matrix = fibonacci_matrix();
        assert_eq!(raise::<Types, Values>(&matrix, power), repeated(&matrix, power));
    }
    assert_eq!(raise::<Types, Values>(&Values::new_scalar(2), 10), Some(Values::new_scalar(1024)));
    assert_eq!(raise::<Types, Values>(&Values::new_scalar(3), 5), Some(Values::new_scalar(243)));
    assert_eq!(
        raise::<Types, Values>(&fibonacci_matrix(), 6),
        Some(Values::new_matrix(vec![vec![13, 8], vec![8, 5]]))
    );
}

#[test]
fn raise_fails_where_a_product_does() {
    let wide = Values::new_matrix(vec![vec![1, 2, 3], vec![4, 5, 6]]);
    assert_eq!(raise::<Types, Values>(&wide, 1), Some(wide.clone()));
    for power in 2..=9u64 {
        assert_eq!(raise::<Types, Values>(&wide, power), None);
    }
    assert_eq!(raise::<Types, Values>(&Values::new_vector(vec![1, 2]), 2), None);
}

#[test]
fn powers_of_a_factor_match_repeated_multiplication() {
    for power in 0..=20u64 {
        let poly = MatVecPolynomial::builder()
            .term_builder(Values::new_scalar(1))
            .value(Values::new_scalar(2), power)
            .build()
            .build()
            .unwrap();
        assert_eq!(poly.as_value(), Ok(Values::new_scalar(1 << power)));
    }
    for power in 1..=20u64 {
        let poly = MatVecPolynomial::builder()
            .term_builder(Values::new_scalar(1))
            .value(fibonacci_matrix(), power)
            .build()
            .build()
            .unwrap();
        assert_eq!(poly.as_value().ok(), repeated(&fibonacci_matrix(), power));
    }
}

#[test]
fn power_zero_is_the_identity_of_the_type() {
    let provider = basic_sumbols_provider();
    let poly = MatVecPolynomial::builder()
        .term_builder(Values::new_scalar(5))
        .variable(provider.get("x").unwrap(), 0)
        .build()
        .build()
        .unwrap();
    assert_eq!(poly.as_type(), Ok(Types::Scalar));
    assert_eq!(poly.as_value(), Ok(Values::new_scalar(5)));

    let matrix = MatVecPolynomial::builder()
        .term_builder(Values::new_scalar(5))
        .value(fibonacci_matrix(), 0)
        .build()
        .build()
        .unwrap();
    assert_eq!(matrix.as_type(), Ok(Types::Matrix));
    assert_eq!(matrix.as_value(), Err(FinalizeError::NoValueToFinalize));
}

#[test]
fn power_of_a_type_that_is_not_closed_has_no_type() {
    for power in [0u64, 2, 3, 20] {
        let poly = MatVecPolynomial::builder()
            .term_builder(Values::new_scalar(1))
            .value(Values::new_vector(vec![1, 2]), power)
            .build()
            .build()
            .unwrap();
        assert_eq!(poly.as_type(), Err(FinalizeError::NoTypeToFinalize));
        assert_eq!(poly.as_value(), Err(FinalizeError::NoTypeToFinalize));
    }
    let bare = MatVecPolynomial::builder()
        .term_builder(Values::new_scalar(2))
        .value(Values::new_vector(vec![1, 2]), 1)
        .build()
        .build()
        .unwrap();
    assert_eq!(bare.as_type(), Ok(Types::Vector));
    assert_eq!(bare.as_value(), Ok(Values::new_vector(vec![2, 4])));
}

#[test]
fn factors_multiply_in_the_order_they_stand() {
    let matrix = Values::new_matrix(vec![vec![0, 1], vec![2, 3]]);
    let other = Values::new_matrix(vec![vec![8, 7], vec![6, 5]]);
    let vector = Values::new_vector(vec![1, 2]);

    let matrix_first = MatVecPolynomial::builder()
        .term_builder(Values::new_scalar(1))
        .value(matrix.clone(), 1)
        .value(vector.clone(), 1)
        .build()
        .build()
        .unwrap();
    assert_eq!(matrix_first.as_type(), Ok(Types::Vector));
    assert_eq!(matrix_first.as_value(), Ok(Values::new_vector(vec![2, 8])));

    let vector_first = MatVecPolynomial::builder()
        .term_builder(Values::new_scalar(1))
        .value(vector, 1)
        .value(matrix.clone(), 1)
        .build()
        .build()
        .unwrap();
    assert_eq!(vector_first.as_type(), Err(FinalizeError::NoTypeToFinalize));
    assert_eq!(vector_first.as_value(), Err(FinalizeError::NoTypeToFinalize));

    let forward = MatVecPolynomial::builder()
        .term_builder(Values::new_scalar(1))
        .value(matrix.clone(), 1)
        .value(other.clone(), 1)
        .build()
        .build()
        .unwrap();
    let backward = MatVecPolynomial::builder()
        .term_builder(Values::new_scalar(1))
        .value(other, 1)
        .value(matrix, 1)
        .build()
        .build()
        .unwrap();
    assert_eq!(forward.as_value(), Ok(Values::new_matrix(vec![vec![6, 5], vec![34, 29]])));
    assert_eq!(backward.as_value(), Ok(Values::new_matrix(vec![vec![14, 29], vec![10, 21]])));
}

#[test]
fn coefficient_multiplies_from_the_left() {
    let matrix = Values::new_matrix(vec![vec![0, 1], vec![2, 3]]);
    let vector = Values::new_vector(vec![1, 2]);
    let poly = MatVecPolynomial::builder()
        .term_builder(matrix.clone())
        .value(vector.clone(), 1)
        .build()
        .build()
        .unwrap();
    assert_eq!(poly.as_value(), Ok(Values::new_vector(vec![2, 8])));
    let swapped = MatVecPolynomial::builder()
        .term_builder(vector)
        .value(matrix, 1)
        .build()
        .build()
        .unwrap();
    assert_eq!(swapped.as_type(), Err(FinalizeError::NoTypeToFinalize));
}

#[test]
fn substitution_then_finalization_equals_building_with_the_value() {
    let provider = basic_sumbols_provider();
    let x = provider.get("x").unwrap();
    let symbolic = MatVecPolynomial::builder()
        .term_builder(Values::new_scalar(2))
        .variable(x.clone(), 3)
        .build()
        .term_builder(Values::new_scalar(4))
        .variable(x.clone(), 1)
        .polynomial(
            MatVecPolynomial::builder()
                .term_builder(Values::new_scalar(1))
                .variable(x.clone(), 2)
                .build()
                .term_builder(Values::new_scalar(7))
                .build()
                .build()
                .unwrap(),
            1,
        )
        .build()
        .build()
        .unwrap();
    let direct = MatVecPolynomial::builder()
        .term_builder(Values::new_scalar(2))
        .value(Values::new_scalar(3), 3)
        .build()
        .term_builder(Values::new_scalar(4))
        .value(Values::new_scalar(3), 1)
        .polynomial(
            MatVecPolynomial::builder()
                .term_builder(Values::new_scalar(1))
                .value(Values::new_scalar(3), 2)
                .build()
                .term_builder(Values::new_scalar(7))
                .build()
                .build()
                .unwrap(),
            1,
        )
        .build()
        .build()
        .unwrap();
    assert_eq!(symbolic.clone().as_value(), Err(FinalizeError::NoValueToFinalize));
    let substituted = symbolic.substitute_value(x, Values::new_scalar(3));
    assert_eq!(substituted.as_type(), direct.as_type());
    assert_eq!(substituted.as_value(), Ok(Values::new_scalar(246)));
    assert_eq!(direct.as_value(), Ok(Values::new_scalar(246)));
}

#[test]
fn substitution_of_an_absent_symbol_changes_nothing() {
    let provider = basic_sumbols_provider();
    let poly = MatVecPolynomial::builder()
        .term_builder(Values::new_scalar(2))
        .variable(provider.get("x").unwrap(), 1)
        .build()
        .build()
        .unwrap();
    let untouched = poly.substitute_value(provider.get("y").unwrap(), Values::new_scalar(9));
    assert_eq!(untouched.as_type(), Ok(Types::Scalar));
    assert_eq!(untouched.clone().as_value(), Err(FinalizeError::NoValueToFinalize));
    let resolved = untouched.substitute_value(provider.get("x").unwrap(), Values::new_scalar(9));
    assert_eq!(resolved.as_value(), Ok(Values::new_scalar(18)));
}

#[test]
fn substitution_by_a_symbol_of_another_registry_changes_nothing() {
    let provider = basic_sumbols_provider();
    let mut other = SymbolsProvider::empty(1);
    let stranger = other.add(SymbolInfo::new_typed("x", Types::Scalar));
    let poly = MatVecPolynomial::builder()
        .term_builder(Values::new_scalar(2))
        .variable(provider.get("x").unwrap(), 1)
        .build()
        .build()
        .unwrap();
    let untouched = poly.substitute_value(stranger, Values::new_scalar(9));
    assert_eq!(untouched.as_value(), Err(FinalizeError::NoValueToFinalize));
}

#[test]
fn substitute_variable_renames_a_symbol() {
    let provider = basic_sumbols_provider();
    let poly = MatVecPolynomial::builder()
        .term_builder(Values::new_scalar(2))
        .variable(provider.get("r").unwrap(), 2)
        .build()
        .build()
        .unwrap();
    assert_eq!(poly.as_type(), Err(FinalizeError::NoTypeToFinalize));
    let renamed = poly.substitute_variable(provider.get("r").unwrap(), provider.get("x").unwrap());
    assert_eq!(renamed.as_type(), Ok(Types::Scalar));
    let resolved = renamed.substitute_value(provider.get("x").unwrap(), Values::new_scalar(5));
    assert_eq!(resolved.as_value(), Ok(Values::new_scalar(50)));
}

#[test]
fn factors_substitute_and_finalize() {
    let provider = basic_sumbols_provider();
    let x = provider.get("x").unwrap();
    let r = provider.get("r").unwrap();
    let seven: Factor<Values, Types> = Factor::Value(Value::new(Values::new_scalar(7)));

    let value: Value<Values, Types> = Value::new(Values::new_scalar(4));
    assert_eq!(value.finalize_type(), Ok(Types::Scalar));
    assert_eq!(value.clone().finalize_value(), Ok(Values::new_scalar(4)));
    assert_eq!(value.substitute(x.clone(), seven.clone()).finalize_value(), Ok(Values::new_scalar(4)));

    let declared = Variable::new(x.clone());
    assert_eq!(Finalizable::<Values, Types>::finalize_type(&declared), Ok(Types::Scalar));
    assert_eq!(
        Finalizable::<Values, Types>::finalize_value(declared.clone()),
        Err(FinalizeError::NoValueToFinalize)
    );
    assert_eq!(declared.clone().substitute(x.clone(), seven.clone()).finalize_value(), Ok(Values::new_scalar(7)));
    assert_eq!(
        declared.substitute(r.clone(), seven.clone()).finalize_value(),
        Err(FinalizeError::NoValueToFinalize)
    );

    let undeclared = Variable::new(r);
    assert_eq!(
        Finalizable::<Values, Types>::finalize_type(&undeclared),
        Err(FinalizeError::NoTypeToFinalize)
    );
    let as_factor: Factor<Values, Types> = undeclared.as_factor();
    assert_eq!(as_factor.finalize_type(), Err(FinalizeError::NoTypeToFinalize));
    assert_eq!(as_factor.clone().finalize_value(), Err(FinalizeError::NoValueToFinalize));
    assert_eq!(
        Finalizable::<Values, Types>::finalize_value(Variable::new(provider.get("q").unwrap())),
        Err(FinalizeError::NoValueToFinalize)
    );

    let nested: SubPoly<Values, Types> = scalar_term(3).into();
    assert_eq!(nested.finalize_type(), Ok(Types::Scalar));
    let factor = nested.as_factor();
    assert_eq!(factor.clone().substitute(x, seven).finalize_value(), Ok(Values::new_scalar(3)));
    assert_eq!(factor.as_factor().finalize_value(), Ok(Values::new_scalar(3)));
}

#[test]
fn polynomial_finalizes_as_its_terms_do() {
    let poly = scalar_term(3);
    assert_eq!(poly.finalize_type(), Ok(Types::Scalar));
    assert_eq!(poly.clone().finalize_value(), Ok(Values::new_scalar(3)));
    let builder: PolynomialBuilder<Values, Types> = PolynomialBuilder::new();
    assert_eq!(builder.build().unwrap().as_type(), Err(FinalizeError::NoTypeToFinalize));
}

#[test]
fn nested_polynomials_finalize_from_the_inside() {
    let provider = basic_sumbols_provider();
    let inner = MatVecPolynomial::builder()
        .term_builder(Values::new_scalar(1))
        .variable(provider.get("x").unwrap(), 1)
        .build()
        .term_builder(Values::new_scalar(1))
        .build()
        .build()
        .unwrap();
    let outer = MatVecPolynomial::builder()
        .term_builder(Values::new_scalar(2))
        .polynomial(inner, 2)
        .build()
        .build()
        .unwrap();
    let value = outer.substitute_value(provider.get("x").unwrap(), Values::new_scalar(4)).as_value();
    assert_eq!(value, Ok(Values::new_scalar(50)));
}

#[test]
fn test_algebra_obeys_the_laws_asked_of_it() {
    let samples = vec![
        Values::new_scalar(3),
        Values::new_vector(vec![1, 2]),
        Values::new_vector(vec![1, 2, 3]),
        Values::new_matrix(vec![vec![0, 1], vec![2, 3]]),
        Values::new_matrix(vec![vec![1, 2, 3], vec![4, 5, 6]]),
        Values::new_matrix(vec![vec![1, 2], vec![3, 4], vec![5, 6]]),
    ];
    for a in &samples {
        for b in &samples {
            if let Some(c) = a.combine_mul(b) {
                assert_eq!(a.as_type().combine_mul(&b.as_type()).result, Some(c.as_type()));
            }
            if let Some(c) = a.combine_add(b) {
                assert_eq!(a.as_type().combine_add(&b.as_type()), Some(c.as_type()));
            }
            for c in &samples {
                let left = a.combine_mul(b).and_then(|ab| ab.combine_mul(c));
                let right = b.combine_mul(c).and_then(|bc| a.combine_mul(&bc));
                assert_eq!(left, right);
            }
        }
    }
    assert_eq!(Values::one_with_type(Types::Scalar).unwrap().as_type(), Types::Scalar);
    assert_eq!(Values::zero_with_type(Types::Scalar).unwrap().as_type(), Types::Scalar);
    assert_eq!(Values::new_vector(vec![1, -2]).negate(), Values::new_vector(vec![-1, 2]));
    assert_eq!(Types::Matrix.negate(), Types::Matrix);
    assert!(Types::Scalar.combine_mul(&Types::Vector).commutative);
    assert!(!Types::Matrix.combine_mul(&Types::Matrix).commutative);
}

#[test]
fn builder_hands_on_a_failed_polynomial() {
    let built = MatVecPolynomial::builder()
        .term_builder(Values::new_scalar(1))
        .maybe_polynomial(Err(BuilderError::PolynomialError), 1)
        .maybe_value(Err(BuilderError::FactorError), 1)
        .build()
        .build();
    assert_eq!(built.err(), Some(BuilderError::PolynomialError));
}

#[test]
fn substitution_does_not_compare_declared_types() {
    let provider = basic_sumbols_provider();
    let matrix = Values::new_matrix(vec![vec![0, 1], vec![2, 3]]);
    let poly = MatVecPolynomial::builder()
        .term_builder(Values::new_scalar(2))
        .variable(provider.get("x").unwrap(), 1)
        .build()
        .build()
        .unwrap();
    assert_eq!(poly.as_type(), Ok(Types::Scalar));
    let substituted = poly.substitute_value(provider.get("x").unwrap(), matrix);
    assert_eq!(substituted.as_type(), Ok(Types::Matrix));
    assert_eq!(substituted.as_value(), Ok(Values::new_matrix(vec![vec![0, 2], vec![4, 6]])));
}

#[test]
fn substitution_of_like_for_like_keeps_the_type() {
    let provider = basic_sumbols_provider();
    let poly = MatVecPolynomial::builder()
        .term_builder(Values::new_scalar(2))
        .variable(provider.get("A").unwrap(), 2)
        .variable(provider.get("v").unwrap(), 1)
        .build()
        .build()
        .unwrap();
    assert_eq!(poly.as_type(), Ok(Types::Vector));
    let substituted = poly
        .substitute_value(provider.get("A").unwrap(), fibonacci_matrix())
        .substitute_value(provider.get("v").unwrap(), Values::new_vector(vec![1, 1]));
    assert_eq!(substituted.as_type(), Ok(Types::Vector));
    assert_eq!(substituted.as_value(), Ok(Values::new_vector(vec![6, 4])));
}
