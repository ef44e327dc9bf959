use bom_hash::models::{HashAlgorithm, Hashes};
use bom_hash::models::HashValue;

#[test]
fn vocabulary_recognizes_known_names() {
    assert_eq!(
        HashAlgorithm::new_unchecked("SHA-256".to_string()),
        HashAlgorithm::Sha256
    );
    assert_eq!(
        HashAlgorithm::new_unchecked("MD5".to_string()),
        HashAlgorithm::Md5
    );
    assert_eq!(
        HashAlgorithm::new_unchecked("BLAKE2b-512".to_string()),
        HashAlgorithm::Blake2b512
    );
    assert_eq!(HashAlgorithm::Sha3_384.to_text(), "SHA3-384".to_string());
}

#[test]
fn vocabulary_accepts_any_string() {
    let odd = HashAlgorithm::new_unchecked("no such algorithm <&>".to_string());
    assert_eq!(
        odd,
        HashAlgorithm::UnknownHashAlgorithm("no such algorithm <&>".to_string())
    );
    assert_eq!(odd.to_text(), "no such algorithm <&>".to_string());

    let empty = HashAlgorithm::new_unchecked(String::new());
    assert_eq!(empty, HashAlgorithm::UnknownHashAlgorithm(String::new()));
    assert_eq!(empty.to_text(), String::new());
}

#[test]
fn vocabulary_case_sensitive() {
    let lower = HashAlgorithm::new_unchecked("sha-256".to_string());
    assert_eq!(
        lower,
        HashAlgorithm::UnknownHashAlgorithm("sha-256".to_string())
    );
}

#[test]
fn record_round_trip_known_algorithm() {
    let canonical = bom_hash::models::Hash {
        alg: HashAlgorithm::Sha512,
        content: HashValue("0011".to_string()),
    };
    let versioned = bom_hash::v1_3::Hash::from_canonical(&canonical);
    assert_eq!(versioned.alg, "SHA-512".to_string());
    let back = versioned.to_canonical();
    assert_eq!(back, canonical);
}

#[test]
fn record_round_trip_unknown_algorithm() {
    let canonical = bom_hash::models::Hash {
        alg: HashAlgorithm::UnknownHashAlgorithm("whirlpool".to_string()),
        content: HashValue("ff".to_string()),
    };
    let versioned = bom_hash::v1_3::Hash::from_canonical(&canonical);
    assert_eq!(versioned.alg, "whirlpool".to_string());
    let back = versioned.to_canonical();
    assert_eq!(back, canonical);
}

#[test]
fn collection_round_trip_preserves_order_and_duplicates() {
    let canonical = Hashes(vec![
        bom_hash::models::Hash {
            alg: HashAlgorithm::Sha256,
            content: HashValue("one".to_string()),
        },
        bom_hash::models::Hash {
            alg: HashAlgorithm::UnknownHashAlgorithm("custom".to_string()),
            content: HashValue("two".to_string()),
        },
        bom_hash::models::Hash {
            alg: HashAlgorithm::Sha256,
            content: HashValue("one".to_string()),
        },
    ]);
    let versioned = bom_hash::v1_3::Hashes::from_canonical(&canonical);
    assert_eq!(versioned.0.len(), 3);
    assert_eq!(versioned.0[0].alg, "SHA-256".to_string());
    assert_eq!(versioned.0[1].alg, "custom".to_string());
    assert_eq!(versioned.0[2].alg, "SHA-256".to_string());
    assert_eq!(versioned.0[0].content, bom_hash::v1_3::HashValue("one".to_string()));
    let back = versioned.to_canonical();
    assert_eq!(back, canonical);
}

#[test]
fn empty_collection_round_trip() {
    let canonical = Hashes(vec![]);
    let versioned = bom_hash::v1_3::Hashes::from_canonical(&canonical);
    assert_eq!(versioned.0.len(), 0);
    let back = versioned.to_canonical();
    assert_eq!(back, canonical);
}
