//! Records: an identifier, a name, and the settings it carries.

use vstd::prelude::*;
use crate::error::MatchError;
use crate::metric::SimilarityType;

verus! {

/// A record. It is settled when its settings are not empty. Two records are
/// the same record when their identifiers are equal.
#[derive(Debug)]
pub struct Product {
    pub id: String,
    pub name: String,
    pub settings_id: Vec<String>,
}

/// What a record holds, as mathematical values.
pub struct ProductView {
    pub id: Seq<char>,
    pub name: Seq<char>,
    pub settings_id: Seq<Seq<char>>,
}

impl ProductView {
    pub open spec fn is_settled(self) -> bool {
        self.settings_id.len() > 0
    }

    /// The result of matching the unsettled record `u` with the settled record
    /// `s`: the identity of `u` with the settings of `s`.
    pub open spec fn matched(u: ProductView, s: ProductView) -> ProductView {
        ProductView { id: u.id, name: u.name, settings_id: s.settings_id }
    }
}

impl View for Product {
    type V = ProductView;

    open spec fn view(&self) -> ProductView {
        ProductView {
            id: self.id@,
            name: self.name@,
            settings_id: self.settings_id@.map_values(|s: String| s@),
        }
    }
}

/// The views of a sequence of records.
pub open spec fn views(ps: Seq<Product>) -> Seq<ProductView> {
    ps.map_values(|p: Product| p@)
}

impl PartialEq for Product {
    fn eq(&self, other: &Product) -> (r: bool) {
        self.id == other.id
    }
}

impl vstd::std_specs::cmp::PartialEqSpecImpl for Product {
    open spec fn obeys_eq_spec() -> bool {
        true
    }

    open spec fn eq_spec(&self, other: &Product) -> bool {
        self.id@ == other.id@
    }
}

impl Eq for Product {}

impl Product {
    /// A copy of this record.
    pub fn duplicate(&self) -> (r: Product)
        ensures
            r@ == self@,
    {
        let settings_id = self.settings_id.clone();
        assert(settings_id@.map_values(|s: String| s@) =~= self.settings_id@.map_values(|s: String| s@));
        Product { id: self.id.clone(), name: self.name.clone(), settings_id }
    }

    /// The match of `product_without_settings` with `product_with_settings`,
    /// accepted on the edit count `similarity` of `similarity_type`.
    pub fn new_with_usize_similarity(
        product_without_settings: &Product,
        product_with_settings: &Product,
        similarity_type: &SimilarityType,
        similarity: usize,
    ) -> (r: Product)
        ensures
            r@ == ProductView::matched(product_without_settings@, product_with_settings@),
    {
        let settings_id = product_with_settings.settings_id.clone();
        assert(settings_id@.map_values(|s: String| s@) =~= product_with_settings.settings_id@.map_values(|s: String| s@));
        Product {
            id: product_without_settings.id.clone(),
            name: product_without_settings.name.clone(),
            settings_id,
        }
    }

    /// The match of `product_without_settings` with `product_with_settings`,
    /// accepted on the real score `similarity` (a binary64 bit pattern) of
    /// `similarity_type`.
    pub fn new_with_f64_similarity(
        product_without_settings: &Product,
        product_with_settings: &Product,
        similarity_type: &SimilarityType,
        similarity: u64,
    ) -> (r: Product)
        ensures
            r@ == ProductView::matched(product_without_settings@, product_with_settings@),
    {
        let settings_id = product_with_settings.settings_id.clone();
        assert(settings_id@.map_values(|s: String| s@) =~= product_with_settings.settings_id@.map_values(|s: String| s@));
        Product {
            id: product_without_settings.id.clone(),
            name: product_without_settings.name.clone(),
            settings_id,
        }
    }

    /// Admits the records loaded for a run; a run without records is refused.
    pub fn init(products: Vec<Product>) -> (r: Result<Vec<Product>, MatchError>)
        ensures
            products@.len() == 0 ==> r == Err::<Vec<Product>, MatchError>(MatchError::NoProducts),
            products@.len() > 0 ==> (r matches Ok(v) && v@ == products@),
    {
        if products.len() == 0 {
            Err(MatchError::NoProducts)
        } else {
            Ok(products)
        }
    }
}

} // verus!
