//! Why a run ends without results.

use vstd::prelude::*;

verus! {

#[derive(Clone, Copy, Debug, PartialEq, Eq, Structural)]
pub enum MatchError {
    /// The configuration names no similarity metric.
    NoSimilarityTypes,
    /// No record was loaded.
    NoProducts,
    /// Every record already has settings.
    NoProductsWithoutSettings,
    /// No record has settings.
    NoProductsWithSettings,
    /// The comparison ran to its end and accepted no pair.
    EmptyResult,
}

impl MatchError {
    /// Whether the error rejects the configuration or the input, before any
    /// comparison is made.
    pub open spec fn is_config_error(self) -> bool {
        self != MatchError::EmptyResult
    }

    /// A sentence that describes the error.
    pub fn message(&self) -> (r: &'static str)
        ensures
            r@.len() > 0,
    {
        let r = match self {
            MatchError::NoSimilarityTypes => "Similarity types settings not found.",
            MatchError::NoProducts => "Products not found.",
            MatchError::NoProductsWithoutSettings => "Products without settings not found.",
            MatchError::NoProductsWithSettings => "Products with settings not found.",
            MatchError::EmptyResult => "Calculated products empty.",
        };
        proof {
            reveal_strlit("Similarity types settings not found.");
            reveal_strlit("Products not found.");
            reveal_strlit("Products without settings not found.");
            reveal_strlit("Products with settings not found.");
            reveal_strlit("Calculated products empty.");
        }
        r
    }
}

} // verus!
