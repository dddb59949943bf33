//! Re-exported types to simplify the usage of the library.
pub use crate::alphabet::{Alphabet, AlphabetDefinitionError};
pub use crate::scheme::scheme_builder::{AlgorithmSchemeBuilder, AlgorithmSchemeDefinitionError};
pub use crate::scheme::{
    AlgorithmScheme, AlgorithmSchemeFullApplicationError, AlgorithmSchemeInputValidationError,
    ApplicationIterator, FullApplicationResult, SingleApplicationData, SingleApplicationResult,
};
pub use crate::scheme::formulas::SubstitutionFormulaDefinitionError;
