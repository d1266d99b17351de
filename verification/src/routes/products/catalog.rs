//! Assembling the product list: one entry per product, with the images that
//! the bucket service sent back attached.

use vstd::prelude::*;
use std::collections::HashMap;
use crate::routes::products::errors::ProductError;

verus! {

broadcast use vstd::std_specs::hash::group_hash_axioms;

/// One row of the product query, joined with the user's own rating.
/// `price_bits` is the bit pattern of the price (`f64::to_bits`).
pub struct ProductRow {
    pub id: u128,
    pub name: String,
    pub price_bits: u64,
    pub rating: Option<i32>,
    pub image_id: Option<u128>,
}

/// A product as the client receives it; `image` is base64 text.
pub struct Product {
    pub name: String,
    pub price_bits: u64,
    pub rating: Option<i32>,
    pub image: Option<String>,
}

/// What came back for one requested image.
pub enum DownloadOutcome {
    /// The bucket sent the image of `image_id`, which belongs to `product_id`.
    Fetched { product_id: u128, image_id: u128, image: String },
    /// The download or its encoding failed.
    EncodingFailed,
    /// The download task did not finish.
    JoinFailed,
}

/// The entry a row gives before any image is attached.
pub open spec fn entry_of(row: ProductRow) -> Product {
    Product { name: row.name, price_bits: row.price_bits, rating: row.rating, image: None }
}

/// The products by id; where two rows share an id, the later row wins.
pub open spec fn catalog_of(rows: Seq<ProductRow>) -> Map<u128, Product>
    decreases rows.len(),
{
    if rows.len() == 0 {
        Map::empty()
    } else {
        catalog_of(rows.drop_last()).insert(rows.last().id, entry_of(rows.last()))
    }
}

/// The `(product id, image id)` pairs of the rows that name an image, in row order.
pub open spec fn requests_of(rows: Seq<ProductRow>) -> Seq<(u128, u128)>
    decreases rows.len(),
{
    if rows.len() == 0 {
        seq![]
    } else {
        let rest = requests_of(rows.drop_last());
        match rows.last().image_id {
            Some(image_id) => rest.push((rows.last().id, image_id)),
            None => rest,
        }
    }
}

/// The catalog after one download: a fetched image is set on its product
/// if that product is listed; nothing else changes.
pub open spec fn after_download(products: Map<u128, Product>, outcome: DownloadOutcome) -> Map<
    u128,
    Product,
> {
    match outcome {
        DownloadOutcome::Fetched { product_id, image, .. } => if products.contains_key(
            product_id,
        ) {
            let p = products[product_id];
            products.insert(
                product_id,
                Product { name: p.name, price_bits: p.price_bits, rating: p.rating, image: Some(image) },
            )
        } else {
            products
        },
        _ => products,
    }
}

/// The catalog after a series of downloads, in the order they finished.
pub open spec fn after_downloads(products: Map<u128, Product>, outcomes: Seq<DownloadOutcome>) -> Map<
    u128,
    Product,
>
    decreases outcomes.len(),
{
    if outcomes.len() == 0 {
        products
    } else {
        after_download(after_downloads(products, outcomes.drop_last()), outcomes.last())
    }
}

/// The images to fetch: one request per row that names an image.
pub fn image_requests(rows: &Vec<ProductRow>) -> (r: Vec<(u128, u128)>)
    ensures
        r@ == requests_of(rows@),
        forall|i: int|
            #![trigger rows@[i]]
            0 <= i < rows@.len() && rows@[i].image_id is Some ==> r@.contains(
                (rows@[i].id, rows@[i].image_id->Some_0),
            ),
        r@.len() == rows@.filter(names_image()).len(),
{
    proof {
        lemma_every_image_requested(rows@);
    }
    let mut r: Vec<(u128, u128)> = Vec::new();
    let n = rows.len();
    for i in 0..n
        invariant
            n == rows@.len(),
            r@ == requests_of(rows@.take(i as int)),
    {
        assert(rows@.take(i + 1).drop_last() =~= rows@.take(i as int));
        match rows[i].image_id {
            Some(image_id) => r.push((rows[i].id, image_id)),
            None => {},
        }
    }
    assert(rows@.take(n as int) =~= rows@);
    r
}

/// The products by id, each without an image yet.
pub fn products_by_id(rows: &Vec<ProductRow>) -> (r: HashMap<u128, Product>)
    ensures
        r@ == catalog_of(rows@),
{
    let mut r: HashMap<u128, Product> = HashMap::new();
    let n = rows.len();
    for i in 0..n
        invariant
            n == rows@.len(),
            r@ == catalog_of(rows@.take(i as int)),
    {
        assert(rows@.take(i + 1).drop_last() =~= rows@.take(i as int));
        let row = &rows[i];
        let entry = Product {
            name: row.name.clone(),
            price_bits: row.price_bits,
            rating: row.rating,
            image: None,
        };
        r.insert(row.id, entry);
    }
    assert(rows@.take(n as int) =~= rows@);
    r
}

/// Applies one finished download to the catalog.
pub fn apply_download(products: &mut HashMap<u128, Product>, outcome: DownloadOutcome)
    ensures
        final(products)@ == after_download(old(products)@, outcome),
        final(products)@.dom() == old(products)@.dom(),
        outcome matches DownloadOutcome::Fetched { product_id, image, .. } ==> (old(
            products,
        )@.contains_key(product_id) ==> final(products)@[product_id].image == Some(image)),
{
    match outcome {
        DownloadOutcome::Fetched { product_id, image_id, image } => {
            match products.remove(&product_id) {
                Some(p) => {
                    let updated = Product {
                        name: p.name,
                        price_bits: p.price_bits,
                        rating: p.rating,
                        image: Some(image),
                    };
                    products.insert(product_id, updated);
                    assert(final(products)@ =~= after_download(old(products)@, outcome));
                },
                None => {},
            }
        },
        _ => {},
    }
}

/// Whether a row names an image.
pub open spec fn names_image() -> spec_fn(ProductRow) -> bool {
    |row: ProductRow| row.image_id is Some
}

/// One request per row that names an image: every such row's
/// `(id, image id)` is requested, and there are as many requests as rows
/// with an image (`lemma_request_row` gives the row of each request).
pub proof fn lemma_every_image_requested(rows: Seq<ProductRow>)
    ensures
        forall|i: int|
            #![trigger rows[i]]
            0 <= i < rows.len() && rows[i].image_id is Some ==> requests_of(rows).contains(
                (rows[i].id, rows[i].image_id->Some_0),
            ),
        requests_of(rows).len() == rows.filter(names_image()).len(),
    decreases rows.len(),
{
    if rows.len() == 0 {
        assert(requests_of(rows).len() == 0);
        assert(rows.filter(names_image()).len() == 0) by {
            reveal_with_fuel(Seq::<_>::filter, 1);
        }
    } else {
        let prefix = rows.drop_last();
        lemma_every_image_requested(prefix);
        let before = requests_of(prefix);
        let after = requests_of(rows);
        reveal_with_fuel(Seq::<_>::filter, 1);
        assert(rows.filter(names_image()) == {
            let sub = prefix.filter(names_image());
            if names_image()(rows.last()) {
                sub.push(rows.last())
            } else {
                sub
            }
        });
        assert forall|i: int| 0 <= i < rows.len() && rows[i].image_id is Some implies after.contains(
            (#[trigger] rows[i].id, rows[i].image_id->Some_0),
        ) by {
            if i < prefix.len() {
                assert(prefix[i] == rows[i]);
                let k = choose|k: int| 0 <= k < before.len() && before[k] == (prefix[i].id, prefix[i].image_id->Some_0);
                assert(after[k] == before[k]);
            } else {
                assert(rows[i] == rows.last());
                assert(after[after.len() - 1] == (rows[i].id, rows[i].image_id->Some_0));
            }
        }
    }
}

/// Every request comes from a row that names that image: this gives the row.
pub proof fn lemma_request_row(rows: Seq<ProductRow>, k: int) -> (i: int)
    requires
        0 <= k < requests_of(rows).len(),
    ensures
        0 <= i < rows.len(),
        rows[i].id == requests_of(rows)[k].0,
        rows[i].image_id == Some(requests_of(rows)[k].1),
    decreases rows.len(),
{
    let prefix = rows.drop_last();
    if k < requests_of(prefix).len() {
        let i = lemma_request_row(prefix, k);
        assert(rows[i] == prefix[i]);
        i
    } else {
        rows.len() - 1
    }
}

/// A fetched image is set on its product when that product is listed; the
/// other products are left as they were.
pub proof fn lemma_fetched_image_attached(
    products: Map<u128, Product>,
    product_id: u128,
    image_id: u128,
    image: String,
)
    ensures
        ({
            let after = after_download(
                products,
                DownloadOutcome::Fetched { product_id, image_id, image },
            );
            &&& products.contains_key(product_id) ==> after[product_id].image == Some(image)
            &&& forall|id: u128| #[trigger] products.contains_key(id) && id != product_id ==> after[id]
                == products[id]
        }),
{
}

/// Attaching images never adds, drops or alters a product: the same ids
/// stay listed, with the same name, price and rating.
pub proof fn lemma_downloads_keep_products(
    products: Map<u128, Product>,
    outcomes: Seq<DownloadOutcome>,
)
    ensures
        after_downloads(products, outcomes).dom() == products.dom(),
        forall|id: u128|
            #![trigger after_downloads(products, outcomes)[id]]
            products.contains_key(id) ==> {
                let p = after_downloads(products, outcomes)[id];
                &&& p.name == products[id].name
                &&& p.price_bits == products[id].price_bits
                &&& p.rating == products[id].rating
            },
    decreases outcomes.len(),
{
    if outcomes.len() > 0 {
        lemma_downloads_keep_products(products, outcomes.drop_last());
        let before = after_downloads(products, outcomes.drop_last());
        assert(after_downloads(products, outcomes) == after_download(before, outcomes.last()));
        assert(after_download(before, outcomes.last()).dom() =~= before.dom());
        assert forall|id: u128| products.contains_key(id) implies {
            let p = #[trigger] after_downloads(products, outcomes)[id];
            &&& p.name == products[id].name
            &&& p.price_bits == products[id].price_bits
            &&& p.rating == products[id].rating
        } by {
            assert(before.contains_key(id));
            let q = before[id];
            assert(q.name == products[id].name);
        }
    }
}

/// Every requested image belongs to a product of the catalog.
pub proof fn lemma_requests_name_listed_products(rows: Seq<ProductRow>)
    ensures
        forall|k: int|
            0 <= k < requests_of(rows).len() ==> catalog_of(rows).contains_key(
                #[trigger] requests_of(rows)[k].0,
            ),
    decreases rows.len(),
{
    if rows.len() > 0 {
        let prefix = rows.drop_last();
        lemma_requests_name_listed_products(prefix);
        let before = requests_of(prefix);
        let after = requests_of(rows);
        assert forall|k: int| 0 <= k < after.len() implies catalog_of(rows).contains_key(
            #[trigger] after[k].0,
        ) by {
            if k < before.len() {
                assert(after[k] == before[k]);
                assert(catalog_of(prefix).contains_key(before[k].0));
            } else {
                assert(after[k].0 == rows.last().id);
            }
        }
    }
}

/// The catalog lists exactly the ids of the rows, each with the entry of
/// the last row that carries it.
pub proof fn lemma_catalog_lists_rows(rows: Seq<ProductRow>)
    ensures
        forall|id: u128|
            #![trigger catalog_of(rows).contains_key(id)]
            catalog_of(rows).contains_key(id) <==> exists|i: int|
                0 <= i < rows.len() && #[trigger] rows[i].id == id,
        forall|i: int|
            #![trigger rows[i]]
            0 <= i < rows.len() && (forall|j: int| i < j < rows.len() ==> rows[j].id != rows[i].id)
                ==> catalog_of(rows)[rows[i].id] == entry_of(rows[i]),
    decreases rows.len(),
{
    if rows.len() > 0 {
        let prefix = rows.drop_last();
        lemma_catalog_lists_rows(prefix);
        assert forall|id: u128| #[trigger] catalog_of(rows).contains_key(id) implies exists|i: int|
            0 <= i < rows.len() && #[trigger] rows[i].id == id by {
            if id != rows.last().id {
                let i = choose|i: int| 0 <= i < prefix.len() && #[trigger] prefix[i].id == id;
                assert(rows[i].id == id);
            } else {
                assert(rows[rows.len() - 1].id == id);
            }
        }
        assert forall|id: u128| (exists|i: int| 0 <= i < rows.len() && #[trigger] rows[i].id == id)
            implies #[trigger] catalog_of(rows).contains_key(id) by {
            let i = choose|i: int| 0 <= i < rows.len() && #[trigger] rows[i].id == id;
            if i < prefix.len() {
                assert(prefix[i].id == id);
            }
        }
        assert forall|i: int|
            0 <= i < rows.len() && (forall|j: int| i < j < rows.len() ==> rows[j].id != rows[i].id)
            implies catalog_of(rows)[#[trigger] rows[i].id] == entry_of(rows[i]) by {
            if i < prefix.len() {
                assert(rows[i] == prefix[i]);
                assert(rows[rows.len() - 1].id != rows[i].id);
                assert forall|j: int| i < j < prefix.len() implies prefix[j].id != prefix[i].id by {
                    assert(prefix[j] == rows[j]);
                }
            }
        }
    }
}

/// Whether some outcome of a series fetched `image` for product `id`.
pub open spec fn fetched_for(outcomes: Seq<DownloadOutcome>, id: u128, image: String) -> bool {
    exists|k: int|
        0 <= k < outcomes.len() && (#[trigger] outcomes[k] matches DownloadOutcome::Fetched {
            product_id,
            image: fetched,
            ..
        } && product_id == id && fetched == image)
}

/// Starting from a catalog without images, every image a product ends up
/// with is one the bucket sent for that product.
pub proof fn lemma_images_come_from_downloads(
    products: Map<u128, Product>,
    outcomes: Seq<DownloadOutcome>,
)
    requires
        forall|id: u128| #[trigger] products.contains_key(id) ==> products[id].image is None,
    ensures
        forall|id: u128|
            #![trigger after_downloads(products, outcomes)[id]]
            products.contains_key(id) ==> match after_downloads(products, outcomes)[id].image {
                Some(image) => fetched_for(outcomes, id, image),
                None => true,
            },
    decreases outcomes.len(),
{
    if outcomes.len() > 0 {
        let prefix = outcomes.drop_last();
        lemma_images_come_from_downloads(products, prefix);
        lemma_downloads_keep_products(products, prefix);
        let before = after_downloads(products, prefix);
        assert(after_downloads(products, outcomes) == after_download(before, outcomes.last()));
        assert forall|id: u128| products.contains_key(id) implies match #[trigger] after_downloads(
            products,
            outcomes,
        )[id].image {
            Some(image) => fetched_for(outcomes, id, image),
            None => true,
        } by {
            let now = after_downloads(products, outcomes)[id];
            if let Some(image) = now.image {
                if outcomes.last() matches DownloadOutcome::Fetched { product_id, .. }
                    && product_id == id {
                    assert(outcomes[outcomes.len() - 1] == outcomes.last());
                } else {
                    assert(now == before[id]);
                    lemma_fetched_for_extends(outcomes, id, image);
                }
            }
        }
    }
}

/// An image fetched by a series of downloads stays fetched when one more
/// download finishes.
pub proof fn lemma_fetched_for_extends(outcomes: Seq<DownloadOutcome>, id: u128, image: String)
    requires
        outcomes.len() > 0,
        fetched_for(outcomes.drop_last(), id, image),
    ensures
        fetched_for(outcomes, id, image),
{
    let prefix = outcomes.drop_last();
    let k = choose|k: int|
        0 <= k < prefix.len() && (#[trigger] prefix[k] matches DownloadOutcome::Fetched {
            product_id,
            image: fetched,
            ..
        } && product_id == id && fetched == image);
    assert(outcomes[k] == prefix[k]);
}

/// A freshly built catalog holds no image yet.
pub proof fn lemma_catalog_without_images(rows: Seq<ProductRow>)
    ensures
        forall|id: u128| #[trigger] catalog_of(rows).contains_key(id) ==> catalog_of(rows)[id].image is None,
    decreases rows.len(),
{
    if rows.len() > 0 {
        lemma_catalog_without_images(rows.drop_last());
    }
}

/// The product list that a query answers: it lists the products of the
/// rows and no other, and every image in it is one that the bucket sent
/// for that product, whatever the order in which the downloads finished.
pub proof fn lemma_listing(rows: Seq<ProductRow>, outcomes: Seq<DownloadOutcome>)
    ensures
        after_downloads(catalog_of(rows), outcomes).dom() == catalog_of(rows).dom(),
        forall|id: u128|
            #![trigger after_downloads(catalog_of(rows), outcomes)[id]]
            catalog_of(rows).contains_key(id) ==> match after_downloads(catalog_of(rows), outcomes)[id].image {
                Some(image) => fetched_for(outcomes, id, image),
                None => true,
            },
{
    lemma_catalog_without_images(rows);
    lemma_downloads_keep_products(catalog_of(rows), outcomes);
    lemma_images_come_from_downloads(catalog_of(rows), outcomes);
}

/// The answer to a rating request: refused when the user has rated the
/// product before, accepted otherwise.
pub open spec fn rating_answer(already_rated: bool) -> Result<(), ProductError> {
    if already_rated {
        Err(ProductError::AlreadyRated)
    } else {
        Ok(())
    }
}

/// Decides a rating request from whether the user has rated the product.
pub fn rating_decision(already_rated: bool) -> (r: Result<(), ProductError>)
    ensures
        r == rating_answer(already_rated),
{
    if already_rated {
        Err(ProductError::AlreadyRated)
    } else {
        Ok(())
    }
}

/// A user rates a product at most once: a second rating is refused with a
/// client error whose text says that the rating exists.
pub proof fn lemma_second_rating_refused(already_rated: bool)
    ensures
        already_rated ==> (rating_answer(already_rated) matches Err(e) && e.status() == 400
            && e.info_text() == "Rating already exists"@),
        !already_rated ==> rating_answer(already_rated) is Ok,
{
}

} // verus!
