use vstd::prelude::*;

verus! {

/// Why a builder could not produce its polynomial.
#[derive(Debug, Clone, Copy, PartialEq, Eq, Structural)]
pub enum BuilderError {
    CoefficientError,
    PolynomialError,
    TermError,
    FactorError,
}

/// Reserved for substitutions that validate declared types; no operation
/// of this crate raises it.
#[derive(Debug, Clone, Copy, PartialEq, Eq, Structural)]
pub enum SubstitutionError {
    MismatchedTypes,
}

/// Why a tree has no type, or no value.
#[derive(Debug, Clone, Copy, PartialEq, Eq, Structural)]
pub enum FinalizeError {
    NoValueToFinalize,
    NoTypeToFinalize,
}

} // verus!
