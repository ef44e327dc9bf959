//! The canonical model: the single in-memory representation of the hash
//! entity, independent of any schema version.
//!
//! The algorithm field is an open vocabulary: a fixed set of known names is
//! recognized, and every other string is accepted verbatim under a catch-all
//! variant, so that documents written against a newer vocabulary still load
//! and re-emit unchanged.

use vstd::prelude::*;

verus! {

/// Mathematical model of a vocabulary value: one tag per known algorithm
/// name, plus a catch-all carrying the original text.
#[verifier::ext_equal]
pub enum AlgSpec {
    Md5,
    Sha1,
    Sha256,
    Sha384,
    Sha512,
    Sha3_256,
    Sha3_384,
    Sha3_512,
    Blake2b256,
    Blake2b384,
    Blake2b512,
    Blake3,
    Unknown(Seq<char>),
}

/// The vocabulary map: which value an arbitrary name resolves to.
/// Total over all strings; never rejects.
pub open spec fn alg_of_seq(s: Seq<char>) -> AlgSpec {
    if s == "MD5"@ {
        AlgSpec::Md5
    } else if s == "SHA-1"@ {
        AlgSpec::Sha1
    } else if s == "SHA-256"@ {
        AlgSpec::Sha256
    } else if s == "SHA-384"@ {
        AlgSpec::Sha384
    } else if s == "SHA-512"@ {
        AlgSpec::Sha512
    } else if s == "SHA3-256"@ {
        AlgSpec::Sha3_256
    } else if s == "SHA3-384"@ {
        AlgSpec::Sha3_384
    } else if s == "SHA3-512"@ {
        AlgSpec::Sha3_512
    } else if s == "BLAKE2b-256"@ {
        AlgSpec::Blake2b256
    } else if s == "BLAKE2b-384"@ {
        AlgSpec::Blake2b384
    } else if s == "BLAKE2b-512"@ {
        AlgSpec::Blake2b512
    } else if s == "BLAKE3"@ {
        AlgSpec::Blake3
    } else {
        AlgSpec::Unknown(s)
    }
}

/// The canonical string form of a vocabulary value: known variants render
/// their fixed literal name, the catch-all renders its text verbatim.
pub open spec fn alg_name_seq(a: AlgSpec) -> Seq<char> {
    match a {
        AlgSpec::Md5 => "MD5"@,
        AlgSpec::Sha1 => "SHA-1"@,
        AlgSpec::Sha256 => "SHA-256"@,
        AlgSpec::Sha384 => "SHA-384"@,
        AlgSpec::Sha512 => "SHA-512"@,
        AlgSpec::Sha3_256 => "SHA3-256"@,
        AlgSpec::Sha3_384 => "SHA3-384"@,
        AlgSpec::Sha3_512 => "SHA3-512"@,
        AlgSpec::Blake2b256 => "BLAKE2b-256"@,
        AlgSpec::Blake2b384 => "BLAKE2b-384"@,
        AlgSpec::Blake2b512 => "BLAKE2b-512"@,
        AlgSpec::Blake3 => "BLAKE3"@,
        AlgSpec::Unknown(s) => s,
    }
}

/// A vocabulary value is well formed when its catch-all arm does not hide a
/// known name: such a value is exactly what `alg_of_seq` can produce.
pub open spec fn alg_wf(a: AlgSpec) -> bool {
    match a {
        AlgSpec::Unknown(s) => alg_of_seq(s) == AlgSpec::Unknown(s),
        _ => true,
    }
}

/// Vocabulary total acceptance: resolving any string succeeds, rendering the
/// result gives the original string back, and resolving again is stable.
pub proof fn lemma_vocabulary_round_trip(s: Seq<char>)
    ensures
        alg_name_seq(alg_of_seq(s)) == s,
        alg_of_seq(alg_name_seq(alg_of_seq(s))) == alg_of_seq(s),
        alg_wf(alg_of_seq(s)),
{
}

/// Rendering a well-formed vocabulary value and resolving the rendered name
/// yields the value again: no information is lost in a round trip.
pub proof fn lemma_alg_name_round_trip(a: AlgSpec)
    requires
        alg_wf(a),
    ensures
        alg_of_seq(alg_name_seq(a)) == a,
{
    reveal_strlit("MD5");
    reveal_strlit("SHA-1");
    reveal_strlit("SHA-256");
    reveal_strlit("SHA-384");
    reveal_strlit("SHA-512");
    reveal_strlit("SHA3-256");
    reveal_strlit("SHA3-384");
    reveal_strlit("SHA3-512");
    reveal_strlit("BLAKE2b-256");
    reveal_strlit("BLAKE2b-384");
    reveal_strlit("BLAKE2b-512");
    reveal_strlit("BLAKE3");
    assert("MD5"@.len() == 3);
    assert("SHA-1"@.len() == 5);
    assert("SHA-256"@.len() == 7);
    assert("SHA-384"@.len() == 7);
    assert("SHA-512"@.len() == 7);
    assert("SHA3-256"@.len() == 8);
    assert("SHA3-384"@.len() == 8);
    assert("SHA3-512"@.len() == 8);
    assert("BLAKE2b-256"@.len() == 11);
    assert("BLAKE2b-384"@.len() == 11);
    assert("BLAKE2b-512"@.len() == 11);
    assert("BLAKE3"@.len() == 6);
    assert("SHA-256"@[4] == '2' && "SHA-384"@[4] == '3' && "SHA-512"@[4] == '5');
    assert("SHA3-256"@[5] == '2' && "SHA3-384"@[5] == '3' && "SHA3-512"@[5] == '5');
    assert("BLAKE2b-256"@[8] == '2' && "BLAKE2b-384"@[8] == '3' && "BLAKE2b-512"@[8] == '5');
    match a {
        AlgSpec::Md5 => {
            assert(alg_of_seq("MD5"@) == AlgSpec::Md5);
        }
        AlgSpec::Sha1 => {
            assert(alg_of_seq("SHA-1"@) == AlgSpec::Sha1);
        }
        AlgSpec::Sha256 => {
            assert(alg_of_seq("SHA-256"@) == AlgSpec::Sha256);
        }
        AlgSpec::Sha384 => {
            assert(alg_of_seq("SHA-384"@) == AlgSpec::Sha384);
        }
        AlgSpec::Sha512 => {
            assert(alg_of_seq("SHA-512"@) == AlgSpec::Sha512);
        }
        AlgSpec::Sha3_256 => {
            assert(alg_of_seq("SHA3-256"@) == AlgSpec::Sha3_256);
        }
        AlgSpec::Sha3_384 => {
            assert(alg_of_seq("SHA3-384"@) == AlgSpec::Sha3_384);
        }
        AlgSpec::Sha3_512 => {
            assert(alg_of_seq("SHA3-512"@) == AlgSpec::Sha3_512);
        }
        AlgSpec::Blake2b256 => {
            assert(alg_of_seq("BLAKE2b-256"@) == AlgSpec::Blake2b256);
        }
        AlgSpec::Blake2b384 => {
            assert(alg_of_seq("BLAKE2b-384"@) == AlgSpec::Blake2b384);
        }
        AlgSpec::Blake2b512 => {
            assert(alg_of_seq("BLAKE2b-512"@) == AlgSpec::Blake2b512);
        }
        AlgSpec::Blake3 => {
            assert(alg_of_seq("BLAKE3"@) == AlgSpec::Blake3);
        }
        AlgSpec::Unknown(s) => {
            assert(alg_of_seq(alg_name_seq(a)) == alg_of_seq(s));
        }
    }
}

/// The enumerated algorithm field of the canonical model: a closed list of
/// known variants and a catch-all that preserves unrecognized names.
#[derive(Debug, PartialEq, Eq)]
pub enum HashAlgorithm {
    Md5,
    Sha1,
    Sha256,
    Sha384,
    Sha512,
    Sha3_256,
    Sha3_384,
    Sha3_512,
    Blake2b256,
    Blake2b384,
    Blake2b512,
    Blake3,
    UnknownHashAlgorithm(String),
}

impl View for HashAlgorithm {
    type V = AlgSpec;

    open spec fn view(&self) -> AlgSpec {
        match self {
            HashAlgorithm::Md5 => AlgSpec::Md5,
            HashAlgorithm::Sha1 => AlgSpec::Sha1,
            HashAlgorithm::Sha256 => AlgSpec::Sha256,
            HashAlgorithm::Sha384 => AlgSpec::Sha384,
            HashAlgorithm::Sha512 => AlgSpec::Sha512,
            HashAlgorithm::Sha3_256 => AlgSpec::Sha3_256,
            HashAlgorithm::Sha3_384 => AlgSpec::Sha3_384,
            HashAlgorithm::Sha3_512 => AlgSpec::Sha3_512,
            HashAlgorithm::Blake2b256 => AlgSpec::Blake2b256,
            HashAlgorithm::Blake2b384 => AlgSpec::Blake2b384,
            HashAlgorithm::Blake2b512 => AlgSpec::Blake2b512,
            HashAlgorithm::Blake3 => AlgSpec::Blake3,
            HashAlgorithm::UnknownHashAlgorithm(s) => AlgSpec::Unknown(s@),
        }
    }
}

impl HashAlgorithm {
    /// The unchecked vocabulary constructor: always succeeds; a recognized
    /// name yields its known variant, anything else the catch-all.
    pub fn new_unchecked(value: String) -> (r: HashAlgorithm)
        ensures
            r@ == alg_of_seq(value@),
            alg_wf(r@),
    {
        let r = if value == "MD5".to_owned() {
            HashAlgorithm::Md5
        } else if value == "SHA-1".to_owned() {
            HashAlgorithm::Sha1
        } else if value == "SHA-256".to_owned() {
            HashAlgorithm::Sha256
        } else if value == "SHA-384".to_owned() {
            HashAlgorithm::Sha384
        } else if value == "SHA-512".to_owned() {
            HashAlgorithm::Sha512
        } else if value == "SHA3-256".to_owned() {
            HashAlgorithm::Sha3_256
        } else if value == "SHA3-384".to_owned() {
            HashAlgorithm::Sha3_384
        } else if value == "SHA3-512".to_owned() {
            HashAlgorithm::Sha3_512
        } else if value == "BLAKE2b-256".to_owned() {
            HashAlgorithm::Blake2b256
        } else if value == "BLAKE2b-384".to_owned() {
            HashAlgorithm::Blake2b384
        } else if value == "BLAKE2b-512".to_owned() {
            HashAlgorithm::Blake2b512
        } else if value == "BLAKE3".to_owned() {
            HashAlgorithm::Blake3
        } else {
            HashAlgorithm::UnknownHashAlgorithm(value)
        };
        proof {
            lemma_vocabulary_round_trip(value@);
        }
        r
    }

    /// The canonical string form: the fixed literal of a known variant, or
    /// the catch-all's preserved text.
    pub fn to_text(&self) -> (r: String)
        ensures
            r@ == alg_name_seq(self@),
    {
        match self {
            HashAlgorithm::Md5 => "MD5".to_owned(),
            HashAlgorithm::Sha1 => "SHA-1".to_owned(),
            HashAlgorithm::Sha256 => "SHA-256".to_owned(),
            HashAlgorithm::Sha384 => "SHA-384".to_owned(),
            HashAlgorithm::Sha512 => "SHA-512".to_owned(),
            HashAlgorithm::Sha3_256 => "SHA3-256".to_owned(),
            HashAlgorithm::Sha3_384 => "SHA3-384".to_owned(),
            HashAlgorithm::Sha3_512 => "SHA3-512".to_owned(),
            HashAlgorithm::Blake2b256 => "BLAKE2b-256".to_owned(),
            HashAlgorithm::Blake2b384 => "BLAKE2b-384".to_owned(),
            HashAlgorithm::Blake2b512 => "BLAKE2b-512".to_owned(),
            HashAlgorithm::Blake3 => "BLAKE3".to_owned(),
            HashAlgorithm::UnknownHashAlgorithm(s) => s.clone(),
        }
    }
}

/// The opaque value wrapper: holds one raw string without interpretation.
#[derive(Debug, PartialEq, Eq)]
pub struct HashValue(pub String);

impl View for HashValue {
    type V = Seq<char>;

    open spec fn view(&self) -> Seq<char> {
        self.0@
    }
}

/// Mathematical model of one canonical hash record.
#[verifier::ext_equal]
pub struct HashModel {
    pub alg: AlgSpec,
    pub content: Seq<char>,
}

/// One canonical hash record: an algorithm vocabulary value and an opaque
/// digest string.
#[derive(Debug, PartialEq, Eq)]
pub struct Hash {
    pub alg: HashAlgorithm,
    pub content: HashValue,
}

impl View for Hash {
    type V = HashModel;

    open spec fn view(&self) -> HashModel {
        HashModel { alg: self.alg@, content: self.content@ }
    }
}

/// The canonical collection: an ordered sequence of hash records; insertion
/// order is preserved and duplicates are permitted.
#[derive(Debug, PartialEq, Eq)]
pub struct Hashes(pub Vec<Hash>);

impl View for Hashes {
    type V = Seq<HashModel>;

    open spec fn view(&self) -> Seq<HashModel> {
        self.0@.map_values(|h: Hash| h@)
    }
}

} // verus!
