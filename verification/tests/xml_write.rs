use bom_hash::v1_3::{HashValue, Hashes};

fn example_hash() -> bom_hash::v1_3::Hash {
    bom_hash::v1_3::Hash {
        alg: "algorithm".to_string(),
        content: HashValue("hash value".to_string()),
    }
}

fn example_hashes() -> Hashes {
    Hashes(vec![example_hash()])
}

#[test]
fn it_should_write_xml_full() {
    let xml_output = example_hashes().to_xml_string().unwrap();
    assert_eq!(
        xml_output,
        "<hashes><hash alg=\"algorithm\">hash value</hash></hashes>"
    );
}

#[test]
fn writes_known_algorithm_collection() {
    let canonical = bom_hash::models::Hashes(vec![bom_hash::models::Hash {
        alg: bom_hash::models::HashAlgorithm::Sha256,
        content: bom_hash::models::HashValue("abcd1234".to_string()),
    }]);
    let versioned = Hashes::from_canonical(&canonical);
    let xml_output = versioned.to_xml_string().unwrap();
    assert_eq!(
        xml_output,
        "<hashes><hash alg=\"SHA-256\">abcd1234</hash></hashes>"
    );
}

#[test]
fn writes_single_hash_element() {
    let canonical = bom_hash::models::Hash {
        alg: bom_hash::models::HashAlgorithm::new_unchecked("algorithm".to_string()),
        content: bom_hash::models::HashValue("hash value".to_string()),
    };
    let versioned = bom_hash::v1_3::Hash::from_canonical(&canonical);
    let xml_output = versioned.to_xml_string().unwrap();
    assert_eq!(xml_output, "<hash alg=\"algorithm\">hash value</hash>");
}

#[test]
fn writes_empty_collection_as_empty_element() {
    let empty = Hashes(vec![]);
    let xml_output = empty.to_xml_string().unwrap();
    assert_eq!(xml_output, "<hashes />");
}

#[test]
fn writes_several_hashes_in_order() {
    let hashes = Hashes(vec![
        bom_hash::v1_3::Hash {
            alg: "MD5".to_string(),
            content: HashValue("first".to_string()),
        },
        bom_hash::v1_3::Hash {
            alg: "SHA-1".to_string(),
            content: HashValue("second".to_string()),
        },
    ]);
    let xml_output = hashes.to_xml_string().unwrap();
    assert_eq!(
        xml_output,
        "<hashes><hash alg=\"MD5\">first</hash><hash alg=\"SHA-1\">second</hash></hashes>"
    );
}

#[test]
fn escapes_markup_reserved_characters() {
    let hashes = Hashes(vec![bom_hash::v1_3::Hash {
        alg: "a\"b<c".to_string(),
        content: HashValue("x<y&z".to_string()),
    }]);
    let xml_output = hashes.to_xml_string().unwrap();
    assert_eq!(
        xml_output,
        "<hashes><hash alg=\"a&quot;b&lt;c\">x&lt;y&amp;z</hash></hashes>"
    );
}
