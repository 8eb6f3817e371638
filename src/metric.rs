//! The similarity metrics a pair of names is measured with, each with the
//! threshold that its value must strictly exceed.

use vstd::prelude::*;
use crate::float::{bits_less_than, f64_lt};

verus! {

/// A metric together with its threshold. Real thresholds are binary64 bit
/// patterns (`f64::to_bits`).
#[derive(Clone, Copy, Debug, PartialEq, Eq, Structural)]
pub enum SimilarityType {
    Hamming(usize),
    Levenshtein(usize),
    NormalizedLevenshtein(u64),
    OsaDistance(usize),
    DamerauLevenshtein(usize),
    NormalizedDamerauLevenshtein(u64),
    Jaro(u64),
    JaroWinkler(u64),
    SorensenDice(u64),
}

/// The value a metric gives two names.
#[derive(Clone, Copy, Debug, PartialEq, Eq, Structural)]
pub enum Similarity {
    /// An edit count.
    Distance(usize),
    /// A real score, as a binary64 bit pattern.
    Score(u64),
    /// The metric is not defined on the two names.
    Undefined,
}

/// The threshold of a metric, by its kind.
pub enum Threshold {
    Count(usize),
    Real(u64),
}

pub open spec fn threshold_of(m: SimilarityType) -> Threshold {
    match m {
        SimilarityType::Hamming(min) => Threshold::Count(min),
        SimilarityType::Levenshtein(min) => Threshold::Count(min),
        SimilarityType::NormalizedLevenshtein(min) => Threshold::Real(min),
        SimilarityType::OsaDistance(min) => Threshold::Count(min),
        SimilarityType::DamerauLevenshtein(min) => Threshold::Count(min),
        SimilarityType::NormalizedDamerauLevenshtein(min) => Threshold::Real(min),
        SimilarityType::Jaro(min) => Threshold::Real(min),
        SimilarityType::JaroWinkler(min) => Threshold::Real(min),
        SimilarityType::SorensenDice(min) => Threshold::Real(min),
    }
}

/// The number of positions at which two sequences of equal length differ.
pub open spec fn hamming_count(a: Seq<char>, b: Seq<char>) -> nat
    decreases a.len(),
{
    if a.len() == 0 || b.len() == 0 {
        0
    } else {
        hamming_count(a.drop_last(), b.drop_last()) + if a.last() != b.last() {
            1nat
        } else {
            0nat
        }
    }
}

pub uninterp spec fn levenshtein_of(a: Seq<char>, b: Seq<char>) -> usize;

pub uninterp spec fn osa_distance_of(a: Seq<char>, b: Seq<char>) -> usize;

pub uninterp spec fn damerau_levenshtein_of(a: Seq<char>, b: Seq<char>) -> usize;

pub uninterp spec fn normalized_levenshtein_of(a: Seq<char>, b: Seq<char>) -> u64;

pub uninterp spec fn normalized_damerau_levenshtein_of(a: Seq<char>, b: Seq<char>) -> u64;

pub uninterp spec fn jaro_of(a: Seq<char>, b: Seq<char>) -> u64;

pub uninterp spec fn jaro_winkler_of(a: Seq<char>, b: Seq<char>) -> u64;

pub uninterp spec fn sorensen_dice_of(a: Seq<char>, b: Seq<char>) -> u64;

/// Relies on strsim::hamming: an error exactly when the two strings differ in
/// their number of chars, else the number of positions whose chars differ.
#[verifier::external_body]
fn hamming(a: &str, b: &str) -> (r: Option<usize>)
    ensures
        r is Some <==> a@.len() == b@.len(),
        r matches Some(d) ==> d as nat == hamming_count(a@, b@),
{
    strsim::hamming(a, b).ok()
}

/// Relies on strsim::levenshtein, a function of the two strings alone.
#[verifier::external_body]
fn levenshtein(a: &str, b: &str) -> (r: usize)
    ensures
        r == levenshtein_of(a@, b@),
{
    strsim::levenshtein(a, b)
}

/// Relies on strsim::osa_distance, a function of the two strings alone.
#[verifier::external_body]
fn osa_distance(a: &str, b: &str) -> (r: usize)
    ensures
        r == osa_distance_of(a@, b@),
{
    strsim::osa_distance(a, b)
}

/// Relies on strsim::damerau_levenshtein, a function of the two strings alone.
#[verifier::external_body]
fn damerau_levenshtein(a: &str, b: &str) -> (r: usize)
    ensures
        r == damerau_levenshtein_of(a@, b@),
{
    strsim::damerau_levenshtein(a, b)
}

/// Relies on strsim::normalized_levenshtein, a function of the two strings
/// alone; the score is handed on as its bit pattern.
#[verifier::external_body]
fn normalized_levenshtein(a: &str, b: &str) -> (r: u64)
    ensures
        r == normalized_levenshtein_of(a@, b@),
{
    strsim::normalized_levenshtein(a, b).to_bits()
}

/// Relies on strsim::normalized_damerau_levenshtein, a function of the two
/// strings alone; the score is handed on as its bit pattern.
#[verifier::external_body]
fn normalized_damerau_levenshtein(a: &str, b: &str) -> (r: u64)
    ensures
        r == normalized_damerau_levenshtein_of(a@, b@),
{
    strsim::normalized_damerau_levenshtein(a, b).to_bits()
}

/// Relies on strsim::jaro, a function of the two strings alone; the score is
/// handed on as its bit pattern.
#[verifier::external_body]
fn jaro(a: &str, b: &str) -> (r: u64)
    ensures
        r == jaro_of(a@, b@),
{
    strsim::jaro(a, b).to_bits()
}

/// Relies on strsim::jaro_winkler, a function of the two strings alone; the
/// score is handed on as its bit pattern.
#[verifier::external_body]
fn jaro_winkler(a: &str, b: &str) -> (r: u64)
    ensures
        r == jaro_winkler_of(a@, b@),
{
    strsim::jaro_winkler(a, b).to_bits()
}

/// Relies on strsim::sorensen_dice, a function of the two strings alone; the
/// score is handed on as its bit pattern.
#[verifier::external_body]
fn sorensen_dice(a: &str, b: &str) -> (r: u64)
    ensures
        r == sorensen_dice_of(a@, b@),
{
    strsim::sorensen_dice(a, b).to_bits()
}

/// What metric `m` gives the names `a` and `b`.
pub open spec fn similarity_of(m: SimilarityType, a: Seq<char>, b: Seq<char>) -> Similarity {
    match m {
        SimilarityType::Hamming(_) => if a.len() == b.len() {
            Similarity::Distance(hamming_count(a, b) as usize)
        } else {
            Similarity::Undefined
        },
        SimilarityType::Levenshtein(_) => Similarity::Distance(levenshtein_of(a, b)),
        SimilarityType::NormalizedLevenshtein(_) => Similarity::Score(
            normalized_levenshtein_of(a, b),
        ),
        SimilarityType::OsaDistance(_) => Similarity::Distance(osa_distance_of(a, b)),
        SimilarityType::DamerauLevenshtein(_) => Similarity::Distance(
            damerau_levenshtein_of(a, b),
        ),
        SimilarityType::NormalizedDamerauLevenshtein(_) => Similarity::Score(
            normalized_damerau_levenshtein_of(a, b),
        ),
        SimilarityType::Jaro(_) => Similarity::Score(jaro_of(a, b)),
        SimilarityType::JaroWinkler(_) => Similarity::Score(jaro_winkler_of(a, b)),
        SimilarityType::SorensenDice(_) => Similarity::Score(sorensen_dice_of(a, b)),
    }
}

/// Whether the value `v` passes the threshold of `m`: it strictly exceeds it.
/// An undefined value, or one of the other kind, never passes.
pub open spec fn passes(m: SimilarityType, v: Similarity) -> bool {
    match (threshold_of(m), v) {
        (Threshold::Count(min), Similarity::Distance(d)) => min < d,
        (Threshold::Real(min), Similarity::Score(x)) => f64_lt(min, x),
        _ => false,
    }
}

impl SimilarityType {
    /// Measures the names `a` and `b` with this metric.
    pub fn similarity(&self, a: &String, b: &String) -> (r: Similarity)
        ensures
            r == similarity_of(*self, a@, b@),
    {
        let a = a.as_str();
        let b = b.as_str();
        match *self {
            SimilarityType::Hamming(_) => match hamming(a, b) {
                Some(d) => Similarity::Distance(d),
                None => Similarity::Undefined,
            },
            SimilarityType::Levenshtein(_) => Similarity::Distance(levenshtein(a, b)),
            SimilarityType::NormalizedLevenshtein(_) => Similarity::Score(
                normalized_levenshtein(a, b),
            ),
            SimilarityType::OsaDistance(_) => Similarity::Distance(osa_distance(a, b)),
            SimilarityType::DamerauLevenshtein(_) => Similarity::Distance(
                damerau_levenshtein(a, b),
            ),
            SimilarityType::NormalizedDamerauLevenshtein(_) => Similarity::Score(
                normalized_damerau_levenshtein(a, b),
            ),
            SimilarityType::Jaro(_) => Similarity::Score(jaro(a, b)),
            SimilarityType::JaroWinkler(_) => Similarity::Score(jaro_winkler(a, b)),
            SimilarityType::SorensenDice(_) => Similarity::Score(sorensen_dice(a, b)),
        }
    }

    /// Whether `v` strictly exceeds this metric's threshold.
    pub fn passes(&self, v: &Similarity) -> (r: bool)
        ensures
            r == passes(*self, *v),
    {
        match (*self, *v) {
            (SimilarityType::Hamming(min), Similarity::Distance(d)) => min < d,
            (SimilarityType::Levenshtein(min), Similarity::Distance(d)) => min < d,
            (SimilarityType::OsaDistance(min), Similarity::Distance(d)) => min < d,
            (SimilarityType::DamerauLevenshtein(min), Similarity::Distance(d)) => min < d,
            (SimilarityType::NormalizedLevenshtein(min), Similarity::Score(x)) => bits_less_than(
                min,
                x,
            ),
            (SimilarityType::NormalizedDamerauLevenshtein(min), Similarity::Score(x)) =>
                bits_less_than(min, x),
            (SimilarityType::Jaro(min), Similarity::Score(x)) => bits_less_than(min, x),
            (SimilarityType::JaroWinkler(min), Similarity::Score(x)) => bits_less_than(min, x),
            (SimilarityType::SorensenDice(min), Similarity::Score(x)) => bits_less_than(min, x),
            _ => false,
        }
    }
}

} // verus!
