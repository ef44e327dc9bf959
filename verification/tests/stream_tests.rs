use bom_hash::models::HashAlgorithm;
use bom_hash::reader::XmlReadError;
use bom_hash::tree::Event;
use bom_hash::v1_3::{HashValue, Hashes};

fn start(tag: &str, attrs: Vec<(&str, &str)>) -> Event {
    Event::Start {
        tag: tag.to_string(),
        attrs: attrs
            .into_iter()
            .map(|(n, v)| (n.to_string(), v.to_string()))
            .collect(),
    }
}

fn characters(text: &str) -> Event {
    Event::Characters(text.to_string())
}

#[test]
fn empty_collection_emits_start_then_end() {
    let empty = Hashes(vec![]);
    let events = empty.to_event_stream();
    assert_eq!(events, vec![start("hashes", vec![]), Event::End]);
}

#[test]
fn record_emits_start_characters_end() {
    let hash = bom_hash::v1_3::Hash {
        alg: "SHA-256".to_string(),
        content: HashValue("abcd1234".to_string()),
    };
    let events = hash.to_event_stream();
    assert_eq!(
        events,
        vec![
            start("hash", vec![("alg", "SHA-256")]),
            characters("abcd1234"),
            Event::End,
        ]
    );
}

#[test]
fn event_stream_is_balanced() {
    let hashes = Hashes(vec![
        bom_hash::v1_3::Hash {
            alg: "MD5".to_string(),
            content: HashValue("a".to_string()),
        },
        bom_hash::v1_3::Hash {
            alg: "custom".to_string(),
            content: HashValue("b".to_string()),
        },
    ]);
    let events = hashes.to_event_stream();
    let mut depth: i64 = 0;
    let mut starts: i64 = 0;
    let mut ends: i64 = 0;
    for event in &events {
        match event {
            Event::Start { .. } => {
                depth += 1;
                starts += 1;
            }
            Event::End => {
                depth -= 1;
                ends += 1;
                assert!(depth >= 0);
            }
            Event::Characters(_) => {}
        }
    }
    assert_eq!(depth, 0);
    assert_eq!(starts, ends);
}

#[test]
fn write_then_read_single_hash() {
    let canonical = bom_hash::models::Hash {
        alg: HashAlgorithm::new_unchecked("algorithm".to_string()),
        content: bom_hash::models::HashValue("hash value".to_string()),
    };
    assert_eq!(
        canonical.alg,
        HashAlgorithm::UnknownHashAlgorithm("algorithm".to_string())
    );
    let versioned = bom_hash::v1_3::Hash::from_canonical(&canonical);
    let events = versioned.to_event_stream();
    let reread = bom_hash::v1_3::Hash::from_event_stream(&events).unwrap();
    assert_eq!(reread, versioned);
    assert_eq!(reread.to_canonical(), canonical);
}

#[test]
fn write_then_read_collection() {
    let canonical = bom_hash::models::Hashes(vec![
        bom_hash::models::Hash {
            alg: HashAlgorithm::Sha256,
            content: bom_hash::models::HashValue("abcd1234".to_string()),
        },
        bom_hash::models::Hash {
            alg: HashAlgorithm::UnknownHashAlgorithm("future-alg".to_string()),
            content: bom_hash::models::HashValue("e f g".to_string()),
        },
    ]);
    let versioned = Hashes::from_canonical(&canonical);
    let events = versioned.to_event_stream();
    let reread = Hashes::from_event_stream(&events).unwrap();
    assert_eq!(reread, versioned);
    assert_eq!(reread.to_canonical(), canonical);
}

#[test]
fn write_then_read_preserves_markup_characters() {
    let versioned = bom_hash::v1_3::Hash {
        alg: "a<&>\"b".to_string(),
        content: HashValue("x<&>y".to_string()),
    };
    let events = versioned.to_event_stream();
    let reread = bom_hash::v1_3::Hash::from_event_stream(&events).unwrap();
    assert_eq!(reread, versioned);
}

#[test]
fn reader_ignores_unknown_attributes() {
    let events = vec![
        start("hash", vec![("id", "7"), ("alg", "SHA-256"), ("alg", "MD5")]),
        characters("abcd"),
        Event::End,
    ];
    let reread = bom_hash::v1_3::Hash::from_event_stream(&events).unwrap();
    assert_eq!(reread.alg, "SHA-256".to_string());
    assert_eq!(reread.content, HashValue("abcd".to_string()));
}

#[test]
fn reader_skips_unknown_child_elements() {
    let events = vec![
        start("hashes", vec![]),
        start("comment", vec![]),
        start("nested", vec![]),
        characters("ignored"),
        Event::End,
        Event::End,
        start("hash", vec![("alg", "MD5")]),
        characters("abcd"),
        Event::End,
        Event::End,
    ];
    let reread = Hashes::from_event_stream(&events).unwrap();
    assert_eq!(reread.0.len(), 1);
    assert_eq!(reread.0[0].alg, "MD5".to_string());
}

#[test]
fn reader_reports_unexpected_end_of_stream() {
    let events = vec![start("hashes", vec![])];
    let err = Hashes::from_event_stream(&events).unwrap_err();
    assert_eq!(
        err,
        XmlReadError::UnexpectedEndOfStream {
            element: "hashes".to_string()
        }
    );
}

#[test]
fn reader_reports_unexpected_event() {
    let events = vec![characters("text")];
    let err = Hashes::from_event_stream(&events).unwrap_err();
    assert_eq!(
        err,
        XmlReadError::UnexpectedEvent {
            element: "hashes".to_string()
        }
    );
}

#[test]
fn reader_reports_second_text_block() {
    let events = vec![
        start("hash", vec![("alg", "MD5")]),
        characters("one"),
        characters("two"),
        Event::End,
    ];
    let err = bom_hash::v1_3::Hash::from_event_stream(&events).unwrap_err();
    assert_eq!(
        err,
        XmlReadError::UnexpectedEvent {
            element: "hash".to_string()
        }
    );
}

#[test]
fn reader_reports_missing_algorithm_attribute() {
    let events = vec![start("hash", vec![("id", "1")]), characters("a"), Event::End];
    let err = bom_hash::v1_3::Hash::from_event_stream(&events).unwrap_err();
    assert_eq!(
        err,
        XmlReadError::MissingAttribute {
            element: "hash".to_string(),
            attribute: "alg".to_string(),
        }
    );
}

#[test]
fn reader_reports_missing_content() {
    let events = vec![start("hash", vec![("alg", "MD5")]), Event::End];
    let err = bom_hash::v1_3::Hash::from_event_stream(&events).unwrap_err();
    assert_eq!(
        err,
        XmlReadError::MissingContent {
            element: "hash".to_string()
        }
    );
}

#[test]
fn reader_reports_trailing_events() {
    let events = vec![start("hashes", vec![]), Event::End, Event::End];
    let err = Hashes::from_event_stream(&events).unwrap_err();
    assert_eq!(
        err,
        XmlReadError::UnexpectedTrailing {
            element: "hashes".to_string()
        }
    );
}
