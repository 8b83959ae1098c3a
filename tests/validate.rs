use agrovet_store::records::Message;
use agrovet_store::validate::{is_valid_email, is_valid_rating, validate_required_fields};

#[test]
fn required_fields() {
    assert!(validate_required_fields(vec!["a", "b"]).is_ok());
    assert!(validate_required_fields(vec![]).is_ok());
    assert!(matches!(validate_required_fields(vec!["a", ""]), Err(Message::InvalidPayload(_))));
}

#[test]
fn email_shape() {
    assert!(is_valid_email("a@b.com"));
    assert!(!is_valid_email("ab.com"));
    assert!(!is_valid_email("a@bcom"));
    assert!(!is_valid_email(""));
}

#[test]
fn rating_bits() {
    assert!(is_valid_rating(5.0f32.to_bits()));
    assert!(is_valid_rating(0.0f32.to_bits()));
    assert!(is_valid_rating((-0.0f32).to_bits()));
    assert!(!is_valid_rating(5.000001f32.to_bits()));
    assert!(!is_valid_rating((-0.1f32).to_bits()));
}
