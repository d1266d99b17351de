use backend::routes::products::comments::CommentError;
use backend::routes::products::ProductError;

#[test]
fn refused_requests_are_client_errors() {
    assert_eq!(ProductError::AlreadyRated.status_code(), 400);
    assert_eq!(ProductError::AlreadyRated.info(), "Rating already exists");
    assert_eq!(ProductError::UnknownProduct.status_code(), 400);
    assert_eq!(ProductError::UnknownProduct.info(), "Unknown product");
}

#[test]
fn unexpected_errors_hide_their_cause() {
    let e = ProductError::Unexpected(anyhow::Error::msg("connection refused"));
    assert_eq!(e.status_code(), 500);
    assert_eq!(e.info(), "Unexpected server error");
    let c = CommentError::Unexpected(anyhow::Error::msg("relation does not exist"));
    assert_eq!(c.status_code(), 500);
    assert_eq!(c.info(), "Unexpected server error");
}
