//! The matching engine: the decision on one pair of records, and the
//! comparison of every record without settings with every record with some.

use vstd::prelude::*;
use vstd::seq_lib::lemma_flatten_concat;
use crate::error::MatchError;
use crate::metric::{passes, similarity_of, Similarity, SimilarityType};
use crate::product::{views, Product, ProductView};
use crate::settings::Settings;

verus! {

/// Whether the metric at index `i` of `ms` accepts the names `a` and `b`.
pub open spec fn passes_at(ms: Seq<SimilarityType>, i: int, a: Seq<char>, b: Seq<char>) -> bool {
    passes(ms[i], similarity_of(ms[i], a, b))
}

/// Whether some metric of `ms` accepts the names `a` and `b`.
pub open spec fn accepts(ms: Seq<SimilarityType>, a: Seq<char>, b: Seq<char>) -> bool {
    exists|i: int| 0 <= i < ms.len() && passes_at(ms, i, a, b)
}

/// Whether `k` is the first index of `ms` whose metric accepts `a` and `b`.
pub open spec fn is_first_pass(ms: Seq<SimilarityType>, k: int, a: Seq<char>, b: Seq<char>) -> bool {
    &&& 0 <= k < ms.len()
    &&& passes_at(ms, k, a, b)
    &&& forall|j: int| 0 <= j < k ==> !passes_at(ms, j, a, b)
}

/// The outcome of comparing the unsettled record `u` with the settled record
/// `s` under the metrics `ms`.
pub open spec fn evaluate(u: ProductView, s: ProductView, ms: Seq<SimilarityType>) -> Option<
    ProductView,
> {
    if accepts(ms, u.name, s.name) {
        Some(ProductView::matched(u, s))
    } else {
        None
    }
}

pub open spec fn option_view(r: Option<Product>) -> Option<ProductView> {
    match r {
        Some(p) => Some(p@),
        None => None,
    }
}

/// The decisive metric for the names of `u` and `s`: the first of `metrics`
/// whose value passes its threshold, with that value. The metrics after it
/// are not measured.
pub fn decisive_metric(u: &Product, s: &Product, metrics: &Vec<SimilarityType>) -> (r: Option<
    (usize, Similarity),
>)
    ensures
        r matches Some((k, v)) ==> is_first_pass(metrics@, k as int, u.name@, s.name@) && v
            == similarity_of(metrics@[k as int], u.name@, s.name@),
        r is None <==> !accepts(metrics@, u.name@, s.name@),
{
    let mut i: usize = 0;
    while i < metrics.len()
        invariant
            i <= metrics@.len(),
            forall|j: int| 0 <= j < i ==> !passes_at(metrics@, j, u.name@, s.name@),
        decreases metrics@.len() - i,
    {
        let m = &metrics[i];
        let v = m.similarity(&u.name, &s.name);
        if m.passes(&v) {
            assert(passes_at(metrics@, i as int, u.name@, s.name@));
            return Some((i, v));
        }
        i = i + 1;
    }
    None
}

/// Compares the unsettled record `u` with the settled record `s`: the first
/// metric of `metrics` that accepts their names decides the match, which
/// carries the identity of `u` and the settings of `s`.
pub fn evaluate_pair(u: &Product, s: &Product, metrics: &Vec<SimilarityType>) -> (r: Option<
    Product,
>)
    ensures
        option_view(r) == evaluate(u@, s@, metrics@),
        r is None <==> forall|i: int|
            0 <= i < metrics@.len() ==> !passes_at(metrics@, i, u.name@, s.name@),
{
    match decisive_metric(u, s, metrics) {
        Some((k, Similarity::Distance(d))) => Some(
            Product::new_with_usize_similarity(u, s, &metrics[k], d),
        ),
        Some((k, Similarity::Score(x))) => Some(
            Product::new_with_f64_similarity(u, s, &metrics[k], x),
        ),
        // never taken: an undefined value passes no threshold
        Some((_, Similarity::Undefined)) => None,
        None => None,
    }
}

/// The outcome of one pair, as a sequence of at most one match.
pub open spec fn outcome(u: ProductView, s: ProductView, ms: Seq<SimilarityType>) -> Seq<
    ProductView,
> {
    match evaluate(u, s, ms) {
        Some(p) => seq![p],
        None => seq![],
    }
}

/// The matches of `u` against each of `ss`, in the order of `ss`.
pub open spec fn row(u: ProductView, ss: Seq<ProductView>, ms: Seq<SimilarityType>) -> Seq<
    ProductView,
> {
    Seq::new(ss.len(), |j: int| outcome(u, ss[j], ms)).flatten()
}

/// The matches of each of `us` against each of `ss`, row by row.
pub open spec fn cross(us: Seq<ProductView>, ss: Seq<ProductView>, ms: Seq<SimilarityType>) -> Seq<
    ProductView,
> {
    Seq::new(us.len(), |i: int| row(us[i], ss, ms)).flatten()
}

pub open spec fn unsettled(ps: Seq<ProductView>) -> Seq<ProductView> {
    ps.filter(|p: ProductView| !p.is_settled())
}

pub open spec fn settled(ps: Seq<ProductView>) -> Seq<ProductView> {
    ps.filter(|p: ProductView| p.is_settled())
}

/// What a run over the records `ps` with the metrics `ms` yields.
pub open spec fn calculation(ms: Seq<SimilarityType>, ps: Seq<ProductView>) -> Result<
    Seq<ProductView>,
    MatchError,
> {
    if unsettled(ps).len() == 0 {
        Err(MatchError::NoProductsWithoutSettings)
    } else if settled(ps).len() == 0 {
        Err(MatchError::NoProductsWithSettings)
    } else if cross(unsettled(ps), settled(ps), ms).len() == 0 {
        Err(MatchError::EmptyResult)
    } else {
        Ok(cross(unsettled(ps), settled(ps), ms))
    }
}

/// The concatenation of the rows `rows`.
pub open spec fn flat_views(rows: Seq<Vec<Product>>) -> Seq<ProductView> {
    Seq::new(rows.len(), |i: int| views(rows[i]@)).flatten()
}

proof fn lemma_flatten_push<A>(x: Seq<Seq<A>>, y: Seq<A>)
    ensures
        x.push(y).flatten() == x.flatten() + y,
{
    lemma_flatten_concat(x, seq![y]);
    assert(x.push(y) =~= x + seq![y]);
    seq![y].lemma_flatten_one_element();
}

proof fn lemma_partition_push(ps: Seq<ProductView>, x: ProductView)
    ensures
        unsettled(ps.push(x)) == if x.is_settled() {
            unsettled(ps)
        } else {
            unsettled(ps).push(x)
        },
        settled(ps.push(x)) == if x.is_settled() {
            settled(ps).push(x)
        } else {
            settled(ps)
        },
{
    ps.lemma_filter_push(x, |p: ProductView| !p.is_settled());
    ps.lemma_filter_push(x, |p: ProductView| p.is_settled());
}

/// Splits the records into those without settings and those with some, each
/// in the order given. Either side empty is refused.
pub fn partition(products: &Vec<Product>) -> (r: Result<(Vec<Product>, Vec<Product>), MatchError>)
    ensures
        unsettled(views(products@)).len() == 0 ==> r == Err::<(Vec<Product>, Vec<Product>), MatchError>(
            MatchError::NoProductsWithoutSettings,
        ),
        unsettled(views(products@)).len() > 0 && settled(views(products@)).len() == 0 ==> r
            == Err::<(Vec<Product>, Vec<Product>), MatchError>(MatchError::NoProductsWithSettings),
        unsettled(views(products@)).len() > 0 && settled(views(products@)).len() > 0 ==> (
        r matches Ok((us, ss)) && views(us@) == unsettled(views(products@)) && views(ss@)
            == settled(views(products@))),
{
    let mut us: Vec<Product> = Vec::new();
    let mut ss: Vec<Product> = Vec::new();
    let mut i: usize = 0;
    while i < products.len()
        invariant
            i <= products@.len(),
            views(us@) == unsettled(views(products@).take(i as int)),
            views(ss@) == settled(views(products@).take(i as int)),
        decreases products@.len() - i,
    {
        let p = &products[i];
        let ghost before = views(products@).take(i as int);
        let ghost after = views(products@).take(i as int + 1);
        let ghost us_before = views(us@);
        let ghost ss_before = views(ss@);
        assert(after =~= before.push(p@));
        proof {
            lemma_partition_push(before, p@);
        }
        if p.settings_id.len() == 0 {
            us.push(p.duplicate());
            assert(views(us@) =~= us_before.push(p@));
        } else {
            ss.push(p.duplicate());
            assert(views(ss@) =~= ss_before.push(p@));
        }
        i = i + 1;
    }
    assert(views(products@).take(i as int) =~= views(products@));
    if us.len() == 0 {
        Err(MatchError::NoProductsWithoutSettings)
    } else if ss.len() == 0 {
        Err(MatchError::NoProductsWithSettings)
    } else {
        Ok((us, ss))
    }
}

/// The matches of the unsettled record `u` against each of `settled`, in
/// order: one unit of the work that may be handed out to a worker.
pub fn match_row(u: &Product, settled: &Vec<Product>, metrics: &Vec<SimilarityType>) -> (r: Vec<
    Product,
>)
    ensures
        views(r@) == row(u@, views(settled@), metrics@),
{
    let ghost ss = views(settled@);
    let mut out: Vec<Product> = Vec::new();
    let mut j: usize = 0;
    while j < settled.len()
        invariant
            j <= settled@.len(),
            ss == views(settled@),
            views(out@) == Seq::new(j as nat, |k: int| outcome(u@, ss[k], metrics@)).flatten(),
        decreases settled@.len() - j,
    {
        let ghost before = views(out@);
        let found = evaluate_pair(u, &settled[j], metrics);
        proof {
            lemma_flatten_push(
                Seq::new(j as nat, |k: int| outcome(u@, ss[k], metrics@)),
                outcome(u@, ss[j as int], metrics@),
            );
            assert(Seq::new(j as nat, |k: int| outcome(u@, ss[k], metrics@)).push(
                outcome(u@, ss[j as int], metrics@),
            ) =~= Seq::new(j as nat + 1, |k: int| outcome(u@, ss[k], metrics@)));
        }
        match found {
            Some(p) => {
                out.push(p);
                assert(views(out@) =~= before + seq![p@]);
            },
            None => {
                assert(before + seq![] =~= before);
            },
        }
        j = j + 1;
    }
    assert(Seq::new(j as nat, |k: int| outcome(u@, ss[k], metrics@)) =~= Seq::new(
        ss.len(),
        |k: int| outcome(u@, ss[k], metrics@),
    ));
    out
}

/// Joins the rows of matches, in order; no match at all is refused.
pub fn finish(rows: Vec<Vec<Product>>) -> (r: Result<Vec<Product>, MatchError>)
    ensures
        flat_views(rows@).len() == 0 ==> r == Err::<Vec<Product>, MatchError>(
            MatchError::EmptyResult,
        ),
        flat_views(rows@).len() > 0 ==> (r matches Ok(v) && views(v@) == flat_views(rows@)),
{
    let ghost all = rows@;
    let mut rows = rows;
    let mut out: Vec<Product> = Vec::new();
    let mut i: usize = 0;
    while i < rows.len()
        invariant
            i <= rows@.len(),
            rows@.len() == all.len(),
            forall|k: int| i <= k < all.len() ==> rows@[k] == all[k],
            views(out@) == Seq::new(i as nat, |k: int| views(all[k]@)).flatten(),
        decreases all.len() - i,
    {
        let ghost before = views(out@);
        let mut row: Vec<Product> = Vec::new();
        rows.set_and_swap(i, &mut row);
        proof {
            lemma_flatten_push(
                Seq::new(i as nat, |k: int| views(all[k]@)),
                views(all[i as int]@),
            );
            assert(Seq::new(i as nat, |k: int| views(all[k]@)).push(views(all[i as int]@))
                =~= Seq::new(i as nat + 1, |k: int| views(all[k]@)));
        }
        out.append(&mut row);
        assert(views(out@) =~= before + views(all[i as int]@));
        i = i + 1;
    }
    assert(Seq::new(i as nat, |k: int| views(all[k]@)) =~= Seq::new(
        all.len(),
        |k: int| views(all[k]@),
    ));
    if out.len() == 0 {
        Err(MatchError::EmptyResult)
    } else {
        Ok(out)
    }
}

pub open spec fn result_views(r: Result<Vec<Product>, MatchError>) -> Result<
    Seq<ProductView>,
    MatchError,
> {
    match r {
        Ok(v) => Ok(views(v@)),
        Err(e) => Err(e),
    }
}

/// Compares every record of `products` without settings with every record
/// with some, under the metrics of `settings`, and gathers the matches row by
/// row.
pub fn init_calculate(settings: &Settings, products: &Vec<Product>) -> (r: Result<
    Vec<Product>,
    MatchError,
>)
    ensures
        result_views(r) == calculation(settings.similarities_types@, views(products@)),
{
    let ghost ms = settings.similarities_types@;
    let (us, ss) = match partition(products) {
        Ok(parts) => parts,
        Err(e) => {
            return Err(e);
        },
    };
    let ghost uv = views(us@);
    let ghost sv = views(ss@);
    let mut rows: Vec<Vec<Product>> = Vec::new();
    let mut i: usize = 0;
    while i < us.len()
        invariant
            i <= us@.len(),
            uv == views(us@),
            sv == views(ss@),
            ms == settings.similarities_types@,
            rows@.len() == i,
            forall|k: int| 0 <= k < i ==> views(#[trigger] rows@[k]@) == row(uv[k], sv, ms),
        decreases us@.len() - i,
    {
        let r = match_row(&us[i], &ss, &settings.similarities_types);
        assert(uv[i as int] == us@[i as int]@);
        rows.push(r);
        assert(rows@[i as int] == r);
        i = i + 1;
    }
    assert(Seq::new(rows@.len(), |k: int| views(rows@[k]@)) =~= Seq::new(
        uv.len(),
        |k: int| row(uv[k], sv, ms),
    ));
    finish(rows)
}

} // verus!
