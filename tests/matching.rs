use similarity::error::MatchError;
use similarity::float::bits_less_than;
use similarity::matcher::{decisive_metric, evaluate_pair, finish, init_calculate, match_row, partition};
use similarity::metric::{Similarity, SimilarityType};
use similarity::product::Product;
use similarity::settings::Settings;

fn product(id: &str, name: &str, settings: &[&str]) -> Product {
    Product {
        id: id.to_string(),
        name: name.to_string(),
        settings_id: settings.iter().map(|s| s.to_string()).collect(),
    }
}

fn settings_with(metrics: Vec<SimilarityType>) -> Settings {
    Settings { num_threads: 2, similarities_types: metrics }
}

fn score(s: Similarity) -> f64 {
    match s {
        Similarity::Score(bits) => f64::from_bits(bits),
        other => panic!("not a score: {:?}", other),
    }
}

#[test]
fn identical_names_fail_levenshtein_five() {
    let products = vec![
        product("u1", "applesauce", &[]),
        product("s1", "applesauce", &["catA"]),
    ];
    let r = init_calculate(&settings_with(vec![SimilarityType::Levenshtein(5)]), &products);
    assert_eq!(r, Err(MatchError::EmptyResult));
}

#[test]
fn one_edit_fails_levenshtein_one_and_passes_zero() {
    let products = vec![
        product("u1", "applesauce", &[]),
        product("s2", "applesause", &["catB"]),
    ];
    let r = init_calculate(&settings_with(vec![SimilarityType::Levenshtein(1)]), &products);
    assert_eq!(r, Err(MatchError::EmptyResult));
    let r = init_calculate(&settings_with(vec![SimilarityType::Levenshtein(0)]), &products).unwrap();
    assert_eq!(r.len(), 1);
    assert_eq!(r[0].id, "u1");
    assert_eq!(r[0].name, "applesauce");
    assert_eq!(r[0].settings_id, vec!["catB".to_string()]);
}

#[test]
fn threshold_equal_to_value_is_refused() {
    let u = product("u", "kitten", &[]);
    let s = product("s", "sitting", &["x"]);
    assert!(evaluate_pair(&u, &s, &vec![SimilarityType::Levenshtein(3)]).is_none());
    assert!(evaluate_pair(&u, &s, &vec![SimilarityType::Levenshtein(2)]).is_some());
    let v = SimilarityType::NormalizedLevenshtein(0.0f64.to_bits()).similarity(&u.name, &s.name);
    let Similarity::Score(bits) = v else { panic!("not a score") };
    assert!(!SimilarityType::Jaro(bits).passes(&Similarity::Score(bits)));
}

#[test]
fn first_passing_metric_decides() {
    let u = product("u", "kitten", &[]);
    let s = product("s", "sitting", &["x"]);
    let metrics = vec![
        SimilarityType::Levenshtein(10),
        SimilarityType::Levenshtein(0),
        SimilarityType::Hamming(0),
    ];
    assert_eq!(decisive_metric(&u, &s, &metrics), Some((1, Similarity::Distance(3))));
    let other = vec![
        SimilarityType::Levenshtein(10),
        SimilarityType::Levenshtein(0),
        SimilarityType::Jaro(0.0f64.to_bits()),
    ];
    let a = evaluate_pair(&u, &s, &metrics).unwrap();
    let b = evaluate_pair(&u, &s, &other).unwrap();
    assert_eq!(a.id, b.id);
    assert_eq!(a.name, b.name);
    assert_eq!(a.settings_id, b.settings_id);
}

#[test]
fn no_metric_passes_gives_nothing() {
    let u = product("u", "abc", &[]);
    let s = product("s", "abcd", &["x"]);
    let metrics = vec![SimilarityType::Hamming(0), SimilarityType::Levenshtein(1)];
    assert_eq!(decisive_metric(&u, &s, &metrics), None);
    assert!(evaluate_pair(&u, &s, &metrics).is_none());
}

#[test]
fn hamming_error_skips_to_next_metric() {
    let u = product("u", "abc", &[]);
    let s = product("s", "abcd", &["x"]);
    let v = SimilarityType::Hamming(0).similarity(&u.name, &s.name);
    assert_eq!(v, Similarity::Undefined);
    let metrics = vec![SimilarityType::Hamming(0), SimilarityType::Levenshtein(0)];
    assert_eq!(decisive_metric(&u, &s, &metrics), Some((1, Similarity::Distance(1))));
}

#[test]
fn every_pair_is_compared_once() {
    let products = vec![
        product("u1", "aa", &[]),
        product("s1", "bb", &["one"]),
        product("u2", "cc", &[]),
        product("s2", "dd", &["two"]),
        product("s3", "ee", &["three"]),
    ];
    let r = init_calculate(&settings_with(vec![SimilarityType::Levenshtein(0)]), &products).unwrap();
    let got: Vec<(String, String)> = r.iter().map(|p| (p.id.clone(), p.settings_id[0].clone())).collect();
    let want: Vec<(String, String)> = vec![
        ("u1", "one"), ("u1", "two"), ("u1", "three"),
        ("u2", "one"), ("u2", "two"), ("u2", "three"),
    ]
    .into_iter()
    .map(|(a, b)| (a.to_string(), b.to_string()))
    .collect();
    assert_eq!(got, want);
}

#[test]
fn rows_joined_match_the_whole_run() {
    let products = vec![
        product("u1", "aa", &[]),
        product("u2", "ab", &[]),
        product("s1", "aa", &["one"]),
        product("s2", "ba", &["two"]),
    ];
    let metrics = vec![SimilarityType::Hamming(0)];
    let (us, ss) = partition(&products).unwrap();
    let rows: Vec<Vec<Product>> = us.iter().map(|u| match_row(u, &ss, &metrics)).collect();
    let joined = finish(rows).unwrap();
    let whole = init_calculate(&settings_with(metrics), &products).unwrap();
    assert_eq!(joined, whole);
    let first = init_calculate(&settings_with(vec![SimilarityType::Hamming(0)]), &products).unwrap();
    assert_eq!(first, whole);
}

#[test]
fn all_unsettled_is_refused() {
    let products = vec![product("u1", "a", &[]), product("u2", "b", &[])];
    let r = init_calculate(&settings_with(vec![SimilarityType::Levenshtein(0)]), &products);
    assert_eq!(r, Err(MatchError::NoProductsWithSettings));
    assert!(partition(&products).is_err());
}

#[test]
fn all_settled_is_refused() {
    let products = vec![product("s1", "a", &["x"])];
    let r = init_calculate(&settings_with(vec![SimilarityType::Levenshtein(0)]), &products);
    assert_eq!(r, Err(MatchError::NoProductsWithoutSettings));
}

#[test]
fn empty_products_and_metrics_are_refused() {
    assert_eq!(Product::init(vec![]), Err(MatchError::NoProducts));
    assert_eq!(Product::init(vec![product("a", "b", &[])]).unwrap().len(), 1);
    let r = Settings::init(settings_with(vec![]));
    assert!(matches!(r, Err(MatchError::NoSimilarityTypes)));
    assert!(Settings::init(Settings::default()).is_ok());
    assert_eq!(finish(vec![vec![], vec![]]), Err(MatchError::EmptyResult));
    assert!(!MatchError::EmptyResult.message().is_empty());
}

#[test]
fn default_settings_hold_every_metric() {
    let s = Settings::default();
    assert_eq!(s.num_threads, 2);
    assert_eq!(s.similarities_types.len(), 9);
    assert_eq!(s.similarities_types[0], SimilarityType::Hamming(100));
    assert_eq!(s.similarities_types[1], SimilarityType::Levenshtein(5));
    assert_eq!(s.similarities_types[8], SimilarityType::SorensenDice(0.9f64.to_bits()));
}

#[test]
fn equality_is_by_identifier() {
    assert_eq!(product("a", "x", &[]), product("a", "y", &["z"]));
    assert_ne!(product("a", "x", &[]), product("b", "x", &[]));
}

#[test]
fn metric_values() {
    let a = "kitten".to_string();
    let b = "sitting".to_string();
    assert_eq!(SimilarityType::Levenshtein(0).similarity(&a, &b), Similarity::Distance(3));
    assert_eq!(
        SimilarityType::Hamming(0).similarity(&"hamming".to_string(), &"hammers".to_string()),
        Similarity::Distance(3)
    );
    let ab = "ab".to_string();
    let bca = "bca".to_string();
    assert_eq!(SimilarityType::OsaDistance(0).similarity(&ab, &bca), Similarity::Distance(3));
    assert_eq!(SimilarityType::DamerauLevenshtein(0).similarity(&ab, &bca), Similarity::Distance(2));
    let nl = score(SimilarityType::NormalizedLevenshtein(0).similarity(&a, &b));
    assert!((nl - 0.57142).abs() < 0.00001);
    let nd = score(SimilarityType::NormalizedDamerauLevenshtein(0).similarity(&a, &b));
    assert!((nd - 0.57142).abs() < 0.00001);
    let martha = "martha".to_string();
    let marhta = "marhta".to_string();
    let j = score(SimilarityType::Jaro(0).similarity(&martha, &marhta));
    assert!((j - 0.944).abs() < 0.001);
    let jw = score(SimilarityType::JaroWinkler(0).similarity(&martha, &marhta));
    assert!((jw - 0.961).abs() < 0.001);
    let sd = score(SimilarityType::SorensenDice(0).similarity(&"night".to_string(), &"nacht".to_string()));
    assert!((sd - 0.25).abs() < 0.00001);
}

#[test]
fn real_scores_pass_strictly_above_threshold() {
    let u = product("u", "martha", &[]);
    let s = product("s", "marhta", &["x"]);
    assert!(evaluate_pair(&u, &s, &vec![SimilarityType::Jaro(0.9f64.to_bits())]).is_some());
    assert!(evaluate_pair(&u, &s, &vec![SimilarityType::Jaro(0.95f64.to_bits())]).is_none());
}

#[test]
fn bit_pattern_order() {
    let lt = |a: f64, b: f64| bits_less_than(a.to_bits(), b.to_bits());
    assert!(lt(0.5, 0.9));
    assert!(!lt(0.9, 0.5));
    assert!(!lt(0.9, 0.9));
    assert!(lt(-1.0, 0.0));
    assert!(lt(-2.0, -1.0));
    assert!(!lt(-0.0, 0.0));
    assert!(!lt(0.0, -0.0));
    assert!(!lt(f64::NAN, 1.0));
    assert!(!lt(1.0, f64::NAN));
    assert!(lt(1.0, f64::INFINITY));
    assert!(lt(f64::NEG_INFINITY, -1.0));
}

#[test]
fn rows_in_any_order_hold_the_same_matches() {
    let products = vec![
        product("u1", "aa", &[]),
        product("u2", "ab", &[]),
        product("s1", "aa", &["one"]),
        product("s2", "bb", &["two"]),
    ];
    let metrics = vec![SimilarityType::Levenshtein(0)];
    let (us, ss) = partition(&products).unwrap();
    let mut rows: Vec<Vec<Product>> = us.iter().map(|u| match_row(u, &ss, &metrics)).collect();
    rows.reverse();
    let key = |v: &Vec<Product>| {
        let mut k: Vec<(String, Vec<String>)> =
            v.iter().map(|p| (p.id.clone(), p.settings_id.clone())).collect();
        k.sort();
        k
    };
    let reversed = finish(rows).unwrap();
    let whole = init_calculate(&settings_with(metrics), &products).unwrap();
    assert_eq!(key(&reversed), key(&whole));
    assert_eq!(whole.len(), 3);
}
