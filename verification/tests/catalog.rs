use backend::routes::products::catalog::{
    apply_download, image_requests, products_by_id, rating_decision, DownloadOutcome, ProductRow,
};
use backend::routes::products::ProductError;

fn row(id: u128, name: &str, price: f64, rating: Option<i32>, image_id: Option<u128>) -> ProductRow {
    ProductRow { id, name: name.to_string(), price_bits: price.to_bits(), rating, image_id }
}

fn rows() -> Vec<ProductRow> {
    vec![
        row(1, "chair", 12.5, Some(4), Some(100)),
        row(2, "table", 80.0, None, None),
        row(3, "lamp", 9.99, Some(2), Some(300)),
    ]
}

#[test]
fn requests_follow_rows_with_images() {
    assert_eq!(image_requests(&rows()), vec![(1, 100), (3, 300)]);
    assert_eq!(image_requests(&vec![]), vec![]);
}

#[test]
fn catalog_lists_every_row_without_image() {
    let products = products_by_id(&rows());
    assert_eq!(products.len(), 3);
    let chair = &products[&1];
    assert_eq!(chair.name, "chair");
    assert_eq!(f64::from_bits(chair.price_bits), 12.5);
    assert_eq!(chair.rating, Some(4));
    assert_eq!(chair.image, None);
    assert_eq!(products[&2].rating, None);
}

#[test]
fn later_row_wins_for_a_repeated_id() {
    let products = products_by_id(&vec![row(7, "old", 1.0, None, None), row(7, "new", 2.0, None, None)]);
    assert_eq!(products.len(), 1);
    assert_eq!(products[&7].name, "new");
}

#[test]
fn fetched_image_is_attached_to_its_product() {
    let mut products = products_by_id(&rows());
    apply_download(
        &mut products,
        DownloadOutcome::Fetched { product_id: 3, image_id: 300, image: String::from("AP8Q") },
    );
    assert_eq!(products[&3].image, Some(String::from("AP8Q")));
    assert_eq!(products[&3].name, "lamp");
    assert_eq!(products[&1].image, None);
    assert_eq!(products.len(), 3);
}

#[test]
fn failed_or_unknown_downloads_change_nothing() {
    let mut products = products_by_id(&rows());
    apply_download(&mut products, DownloadOutcome::EncodingFailed);
    apply_download(&mut products, DownloadOutcome::JoinFailed);
    apply_download(
        &mut products,
        DownloadOutcome::Fetched { product_id: 42, image_id: 1, image: String::from("x") },
    );
    assert_eq!(products.len(), 3);
    assert!(!products.contains_key(&42));
    assert!(products.values().all(|p| p.image.is_none()));
}

#[test]
fn second_rating_is_refused() {
    assert!(rating_decision(false).is_ok());
    match rating_decision(true) {
        Err(e @ ProductError::AlreadyRated) => {
            assert_eq!(e.status_code(), 400);
            assert_eq!(e.info(), "Rating already exists");
        }
        _ => panic!("a repeated rating was accepted"),
    }
}
