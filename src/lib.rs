//! An interpreter for Markov algorithms: ordered string-rewriting schemes
//! over a configurable alphabet.
//!
//! A scheme is a list of substitution formulas in order of priority. Each
//! step rewrites the leftmost occurrence of the left side of the first
//! formula that matches; a final formula, or a step where nothing matches,
//! halts the algorithm.
pub mod alphabet;
pub mod classic;
pub mod prelude;
pub mod scheme;
pub mod text;

pub use crate::alphabet::{Alphabet, AlphabetDefinitionError};
pub use crate::scheme::formulas::{SubstitutionFormula, SubstitutionFormulaDefinitionError};
pub use crate::scheme::scheme_builder::{AlgorithmSchemeBuilder, AlgorithmSchemeDefinitionError};
pub use crate::scheme::{
    AlgorithmScheme, AlgorithmSchemeFullApplicationError, AlgorithmSchemeInputValidationError,
    ApplicationIterator, FullApplicationResult, SingleApplicationData, SingleApplicationResult,
};
