use vector_db::config::EMBEDDING_LENGTH;
use vector_db::errors::Error;
use vector_db::index::Vector;

fn raw_of_len(n: usize) -> Vec<u64> {
    let mut v: Vec<u64> = Vec::new();
    for i in 0..n {
        v.push((i as f64).to_bits());
    }
    v
}

#[test]
fn from_raw_accepts_exact_dimension() {
    let raw = raw_of_len(EMBEDDING_LENGTH);
    let expected = raw.clone();
    let v = Vector::from_raw(raw).expect("exact dimension must be accepted");
    assert_eq!(v.components(), &expected);
}

#[test]
fn from_raw_rejects_one_short() {
    let raw = raw_of_len(EMBEDDING_LENGTH - 1);
    assert!(matches!(Vector::from_raw(raw), Err(Error::DimensionMismatch)));
}

#[test]
fn from_raw_rejects_one_long() {
    let raw = raw_of_len(EMBEDDING_LENGTH + 1);
    assert!(matches!(Vector::from_raw(raw), Err(Error::DimensionMismatch)));
}

#[test]
fn from_raw_rejects_empty() {
    assert!(matches!(Vector::from_raw(Vec::new()), Err(Error::DimensionMismatch)));
}

#[test]
fn error_variants_are_distinct() {
    let all = [
        Error::DimensionMismatch,
        Error::LengthMismatch,
        Error::NoSuchTenant,
        Error::PermissionDenied,
        Error::ExternalServiceError,
    ];
    for (i, a) in all.iter().enumerate() {
        for (j, b) in all.iter().enumerate() {
            assert_eq!(i == j, a == b);
        }
    }
}
