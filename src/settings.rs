//! The configuration of a run: how many workers compare, and with which
//! metrics, in order of priority.

use vstd::prelude::*;
use crate::error::MatchError;
use crate::metric::SimilarityType;

verus! {

/// The binary64 bit pattern of `0.9`.
pub const NINE_TENTHS: u64 = 0x3fec_cccc_cccc_cccd;

pub struct Settings {
    pub num_threads: usize,
    pub similarities_types: Vec<SimilarityType>,
}

/// The metrics of the default configuration: each kind once.
pub open spec fn default_similarity_types() -> Seq<SimilarityType> {
    seq![
        SimilarityType::Hamming(100),
        SimilarityType::Levenshtein(5),
        SimilarityType::NormalizedLevenshtein(NINE_TENTHS),
        SimilarityType::OsaDistance(100),
        SimilarityType::DamerauLevenshtein(100),
        SimilarityType::NormalizedDamerauLevenshtein(NINE_TENTHS),
        SimilarityType::Jaro(NINE_TENTHS),
        SimilarityType::JaroWinkler(NINE_TENTHS),
        SimilarityType::SorensenDice(NINE_TENTHS),
    ]
}

impl Default for Settings {
    fn default() -> (r: Settings)
        ensures
            r.num_threads == 2,
            r.similarities_types@ == default_similarity_types(),
    {
        let similarities_types = vec![
            SimilarityType::Hamming(100),
            SimilarityType::Levenshtein(5),
            SimilarityType::NormalizedLevenshtein(NINE_TENTHS),
            SimilarityType::OsaDistance(100),
            SimilarityType::DamerauLevenshtein(100),
            SimilarityType::NormalizedDamerauLevenshtein(NINE_TENTHS),
            SimilarityType::Jaro(NINE_TENTHS),
            SimilarityType::JaroWinkler(NINE_TENTHS),
            SimilarityType::SorensenDice(NINE_TENTHS),
        ];
        assert(similarities_types@ =~= default_similarity_types());
        Settings { num_threads: 2, similarities_types }
    }
}

impl Settings {
    /// Admits a loaded configuration; one without metrics is refused.
    pub fn init(settings: Settings) -> (r: Result<Settings, MatchError>)
        ensures
            settings.similarities_types@.len() == 0 ==> r == Err::<Settings, MatchError>(
                MatchError::NoSimilarityTypes,
            ),
            settings.similarities_types@.len() > 0 ==> (r matches Ok(s) && s.num_threads
                == settings.num_threads && s.similarities_types@
                == settings.similarities_types@),
    {
        if settings.similarities_types.len() == 0 {
            Err(MatchError::NoSimilarityTypes)
        } else {
            Ok(settings)
        }
    }
}

} // verus!
