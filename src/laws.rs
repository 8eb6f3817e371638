//! What holds of the matcher over all inputs.

use vstd::prelude::*;
use vstd::seq_lib::{
    lemma_flatten_concat, lemma_multiset_commutative, to_multiset_contains, to_multiset_len,
    to_multiset_remove,
};
use crate::error::MatchError;
use crate::float::f64_lt;
use crate::metric::{passes, similarity_of, Similarity, SimilarityType, Threshold, threshold_of};
use crate::matcher::{
    calculation, cross, evaluate, is_first_pass, outcome, passes_at, row, settled, unsettled,
};
use crate::product::ProductView;

verus! {

/// A single metric accepts a pair exactly when the pair's value strictly
/// exceeds the metric's threshold; a value equal to the threshold is refused.
pub proof fn lemma_threshold_semantics(m: SimilarityType, u: ProductView, s: ProductView)
    ensures
        evaluate(u, s, seq![m]) is Some <==> passes(m, similarity_of(m, u.name, s.name)),
        threshold_of(m) matches Threshold::Count(min) ==> (evaluate(u, s, seq![m]) is Some <==> (
        similarity_of(m, u.name, s.name) matches Similarity::Distance(d) && min < d)),
        threshold_of(m) matches Threshold::Real(min) ==> (evaluate(u, s, seq![m]) is Some <==> (
        similarity_of(m, u.name, s.name) matches Similarity::Score(x) && f64_lt(min, x))),
        threshold_of(m) matches Threshold::Count(min) ==> !passes(m, Similarity::Distance(min)),
        threshold_of(m) matches Threshold::Real(min) ==> !passes(m, Similarity::Score(min)),
{
    let ms = seq![m];
    if passes(m, similarity_of(m, u.name, s.name)) {
        assert(passes_at(ms, 0, u.name, s.name));
    }
}

/// Once a metric accepts a pair, the metrics after it have no say: two
/// metric lists that agree up to and including that metric give the same
/// outcome and the same decisive metric.
pub proof fn lemma_first_pass_wins(
    u: ProductView,
    s: ProductView,
    ms1: Seq<SimilarityType>,
    ms2: Seq<SimilarityType>,
    k: int,
)
    requires
        0 <= k < ms1.len(),
        0 <= k < ms2.len(),
        ms1.take(k + 1) == ms2.take(k + 1),
        passes_at(ms1, k, u.name, s.name),
    ensures
        evaluate(u, s, ms1) is Some,
        evaluate(u, s, ms1) == evaluate(u, s, ms2),
        forall|j: int| is_first_pass(ms1, j, u.name, s.name) <==> is_first_pass(ms2, j, u.name, s.name),
{
    assert forall|j: int| 0 <= j <= k implies ms1[j] == ms2[j] by {
        assert(ms1[j] == ms1.take(k + 1)[j]);
        assert(ms2[j] == ms2.take(k + 1)[j]);
    }
    assert(passes_at(ms2, k, u.name, s.name));
    assert forall|j: int| is_first_pass(ms1, j, u.name, s.name) implies is_first_pass(ms2, j, u.name, s.name) by {
        if j > k {
            assert(!passes_at(ms1, k, u.name, s.name));
        }
        assert forall|i: int| 0 <= i < j implies !passes_at(ms2, i, u.name, s.name) by {
            assert(!passes_at(ms1, i, u.name, s.name));
        }
    }
    assert forall|j: int| is_first_pass(ms2, j, u.name, s.name) implies is_first_pass(ms1, j, u.name, s.name) by {
        if j > k {
            assert(!passes_at(ms2, k, u.name, s.name));
        }
        assert forall|i: int| 0 <= i < j implies !passes_at(ms1, i, u.name, s.name) by {
            assert(!passes_at(ms2, i, u.name, s.name));
        }
    }
}

/// Records that are all unsettled, or all settled, are refused with an error
/// on the input, whatever the metrics: no comparison decides it.
pub proof fn lemma_partition_validation(
    ms1: Seq<SimilarityType>,
    ms2: Seq<SimilarityType>,
    ps: Seq<ProductView>,
)
    requires
        unsettled(ps).len() == 0 || settled(ps).len() == 0,
    ensures
        calculation(ms1, ps) matches Err(e) && e.is_config_error(),
        calculation(ms1, ps) == calculation(ms2, ps),
        unsettled(ps).len() == 0 ==> calculation(ms1, ps) == Err::<Seq<ProductView>, MatchError>(
            MatchError::NoProductsWithoutSettings,
        ),
{
}

/// Two runs on the same records and metrics give the same result, and so the
/// same set of matches.
pub proof fn lemma_runs_agree(
    ms1: Seq<SimilarityType>,
    ms2: Seq<SimilarityType>,
    ps1: Seq<ProductView>,
    ps2: Seq<ProductView>,
)
    requires
        ms1 == ms2,
        ps1 == ps2,
    ensures
        calculation(ms1, ps1) == calculation(ms2, ps2),
        calculation(ms1, ps1) matches Ok(r1) ==> (calculation(ms2, ps2) matches Ok(r2)
            && r1.to_set() == r2.to_set()),
{
}

/// However the unsettled records are split among workers, joining the rows of
/// each part in order gives the rows of the whole.
pub proof fn lemma_split_rows(
    us1: Seq<ProductView>,
    us2: Seq<ProductView>,
    ss: Seq<ProductView>,
    ms: Seq<SimilarityType>,
)
    ensures
        cross(us1 + us2, ss, ms) == cross(us1, ss, ms) + cross(us2, ss, ms),
{
    let a = Seq::new(us1.len(), |i: int| row(us1[i], ss, ms));
    let b = Seq::new(us2.len(), |i: int| row(us2[i], ss, ms));
    lemma_flatten_concat(a, b);
    assert(Seq::new((us1 + us2).len(), |i: int| row((us1 + us2)[i], ss, ms)) =~= a + b);
}

/// The pairs of `us` and `ss`, row by row.
pub open spec fn pairs(us: Seq<ProductView>, ss: Seq<ProductView>) -> Seq<
    (ProductView, ProductView),
> {
    Seq::new(us.len(), |i: int| Seq::new(ss.len(), |j: int| (us[i], ss[j]))).flatten()
}

/// The outcomes of the pairs `ps`, joined in order.
pub open spec fn pair_outcomes(ps: Seq<(ProductView, ProductView)>, ms: Seq<SimilarityType>) -> Seq<
    ProductView,
> {
    Seq::new(ps.len(), |k: int| outcome(ps[k].0, ps[k].1, ms)).flatten()
}

proof fn lemma_pair_outcomes_concat(
    a: Seq<(ProductView, ProductView)>,
    b: Seq<(ProductView, ProductView)>,
    ms: Seq<SimilarityType>,
)
    ensures
        pair_outcomes(a + b, ms) == pair_outcomes(a, ms) + pair_outcomes(b, ms),
{
    let x = Seq::new(a.len(), |k: int| outcome(a[k].0, a[k].1, ms));
    let y = Seq::new(b.len(), |k: int| outcome(b[k].0, b[k].1, ms));
    lemma_flatten_concat(x, y);
    assert(Seq::new((a + b).len(), |k: int| outcome((a + b)[k].0, (a + b)[k].1, ms)) =~= x + y);
}

/// The matches of a run are the outcomes of exactly the pairs of `us` × `ss`,
/// each pair once, row by row: `us.len() * ss.len()` comparisons.
pub proof fn lemma_cross_product(us: Seq<ProductView>, ss: Seq<ProductView>, ms: Seq<SimilarityType>)
    ensures
        pairs(us, ss).len() == us.len() * ss.len(),
        forall|i: int, j: int|
            0 <= i < us.len() && 0 <= j < ss.len() ==> #[trigger] pairs(us, ss)[i * ss.len() + j]
                == (us[i], ss[j]),
        cross(us, ss, ms) == pair_outcomes(pairs(us, ss), ms),
    decreases us.len(),
{
    if us.len() == 0 {
        assert(pairs(us, ss) =~= Seq::<(ProductView, ProductView)>::empty());
        assert(cross(us, ss, ms) =~= Seq::<ProductView>::empty());
        assert(pair_outcomes(pairs(us, ss), ms) =~= Seq::<ProductView>::empty());
    } else {
        let rest = us.drop_first();
        let first = Seq::new(ss.len(), |j: int| (us[0], ss[j]));
        let nested = Seq::new(us.len(), |i: int| Seq::new(ss.len(), |j: int| (us[i], ss[j])));
        assert(nested.drop_first() =~= Seq::new(
            rest.len(),
            |i: int| Seq::new(ss.len(), |j: int| (rest[i], ss[j])),
        ));
        assert(pairs(us, ss) == first + pairs(rest, ss));
        lemma_cross_product(rest, ss, ms);
        let n = ss.len();
        let m = rest.len();
        assert(pairs(us, ss).len() == us.len() * ss.len()) by (nonlinear_arith)
            requires
                pairs(us, ss).len() == n + m * n,
                us.len() == m + 1,
                ss.len() == n,
        ;
        assert forall|i: int, j: int|
            0 <= i < us.len() && 0 <= j < ss.len() implies #[trigger] pairs(us, ss)[i * ss.len()
            + j] == (us[i], ss[j]) by {
            if i == 0 {
                assert(i * n + j == j);
                assert(pairs(us, ss)[j] == first[j]);
            } else {
                let k = (i - 1) * n + j;
                assert(i * n + j == n + k) by (nonlinear_arith)
                    requires
                        k == (i - 1) * n + j,
                ;
                assert(0 <= k < m * n) by (nonlinear_arith)
                    requires
                        k == (i - 1) * n + j,
                        1 <= i <= m,
                        0 <= j < n,
                ;
                assert(pairs(rest, ss)[(i - 1) * ss.len() + j] == (rest[i - 1], ss[j]));
                assert(pairs(us, ss)[n + k] == pairs(rest, ss)[k]);
                assert(rest[i - 1] == us[i]);
            }
        }
        let rows = Seq::new(us.len(), |i: int| row(us[i], ss, ms));
        assert(rows.drop_first() =~= Seq::new(rest.len(), |i: int| row(rest[i], ss, ms)));
        assert(cross(us, ss, ms) == row(us[0], ss, ms) + cross(rest, ss, ms));
        lemma_pair_outcomes_concat(first, pairs(rest, ss), ms);
        assert(Seq::new(first.len(), |k: int| outcome(first[k].0, first[k].1, ms)) =~= Seq::new(
            ss.len(),
            |j: int| outcome(us[0], ss[j], ms),
        ));
    }
}

proof fn lemma_flatten_permutation<A>(xs: Seq<Seq<A>>, ys: Seq<Seq<A>>)
    requires
        xs.to_multiset() == ys.to_multiset(),
    ensures
        xs.flatten().to_multiset() == ys.flatten().to_multiset(),
    decreases xs.len(),
{
    broadcast use vstd::multiset::group_multiset_axioms;

    to_multiset_len(xs);
    to_multiset_len(ys);
    if xs.len() == 0 {
        assert(ys.len() == 0);
    } else {
        let x = xs[0];
        assert(xs.contains(x));
        to_multiset_contains(xs, x);
        to_multiset_contains(ys, x);
        let j = choose|j: int| 0 <= j < ys.len() && ys[j] == x;
        let pre = ys.subrange(0, j);
        let post = ys.subrange(j + 1, ys.len() as int);
        to_multiset_remove(xs, 0);
        to_multiset_remove(ys, j);
        assert(xs.remove(0) =~= xs.drop_first());
        assert(ys.remove(j) =~= pre + post);
        lemma_flatten_permutation(xs.drop_first(), pre + post);
        assert(ys =~= pre + (seq![x] + post));
        lemma_flatten_concat(pre, seq![x] + post);
        lemma_flatten_concat(seq![x], post);
        lemma_flatten_concat(pre, post);
        seq![x].lemma_flatten_one_element();
        lemma_multiset_commutative(x, xs.drop_first().flatten());
        lemma_multiset_commutative(pre.flatten(), x + post.flatten());
        lemma_multiset_commutative(x, post.flatten());
        lemma_multiset_commutative(pre.flatten(), post.flatten());
        assert(xs.flatten().to_multiset() =~= ys.flatten().to_multiset());
    }
}

/// Rows gathered from the workers in any order hold the same matches as a
/// run, counted with multiplicity: only the order of the matches may differ.
pub proof fn lemma_rows_any_order(
    us: Seq<ProductView>,
    ss: Seq<ProductView>,
    ms: Seq<SimilarityType>,
    gathered: Seq<Seq<ProductView>>,
)
    requires
        gathered.to_multiset() == Seq::new(us.len(), |i: int| row(us[i], ss, ms)).to_multiset(),
    ensures
        gathered.flatten().to_multiset() == cross(us, ss, ms).to_multiset(),
        gathered.flatten().to_set() == cross(us, ss, ms).to_set(),
{
    lemma_flatten_permutation(gathered, Seq::new(us.len(), |i: int| row(us[i], ss, ms)));
    let a = gathered.flatten();
    let b = cross(us, ss, ms);
    assert forall|p: ProductView| a.contains(p) <==> b.contains(p) by {
        to_multiset_contains(a, p);
        to_multiset_contains(b, p);
    }
    assert(a.to_set() =~= b.to_set());
}

} // verus!
