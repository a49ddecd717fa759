use cognitarium::codec::{TripleReader, TripleWriter};
use cognitarium::engine::{Backend, StoreEngine};
use cognitarium::errors::StoreError;
use cognitarium::hashing::{canonical_bytes, object_hash};
use cognitarium::msg::DataFormat;
use cognitarium::rdf::{Atom, Property, RawObject, RawSubject, RawTriple, SubjectValue, Value};
use cognitarium::state::{Object, StoreLimits};

fn wide_limits() -> StoreLimits {
    StoreLimits {
        max_triple_count: 1000,
        max_byte_size: 100000,
        max_triple_byte_size: 1000,
        max_insert_data_byte_size: 100000,
        max_insert_data_triple_count: 1000,
    }
}

fn doc_two_lines() -> Vec<u8> {
    b"<http://ex.org/s> <http://ex.org/p> \"v\" .\n<http://ex.org/s2> <http://ex.org/p> <http://ex.org/o> .\n"
        .to_vec()
}

fn atoms_two() -> Vec<Atom> {
    vec![
        Atom {
            subject: SubjectValue::NamedNode("http://ex.org/s".to_string()),
            property: Property("http://ex.org/p".to_string()),
            value: Value::LiteralSimple("v".to_string()),
        },
        Atom {
            subject: SubjectValue::NamedNode("http://ex.org/s2".to_string()),
            property: Property("http://ex.org/p".to_string()),
            value: Value::NamedNode("http://ex.org/o".to_string()),
        },
    ]
}

#[test]
fn parse_single_ntriples_line() {
    let reader = TripleReader::new(
        DataFormat::NTriples,
        b"<http://ex.org/s> <http://ex.org/p> \"v\" .\n".to_vec(),
    );
    let ts = reader.read_all().unwrap();
    assert_eq!(ts.len(), 1);
    assert_eq!(ts[0].subject, RawSubject::Named("http://ex.org/s".to_string()));
    assert_eq!(ts[0].predicate, "http://ex.org/p".to_string());
    assert_eq!(ts[0].object, RawObject::LiteralSimple("v".to_string()));
    // the interned form splits both IRIs on the default namespace boundary
    let mut engine = StoreEngine::new(Backend::new(wide_limits()));
    assert_eq!(engine.store_all(&reader), Ok(1));
    assert_eq!(engine.storage().store.stat.triple_count, 1);
    // subject "s" and predicate "p" share the namespace "http://ex.org/"
    let ns = engine.storage().namespaces.get("http://ex.org/").unwrap();
    assert_eq!(ns.value, "http://ex.org/".to_string());
    assert_eq!(ns.key, 0);
    assert_eq!(ns.counter, 2);
}

#[test]
fn store_then_delete_restores_statistics() {
    let mut engine = StoreEngine::new(Backend::new(wide_limits()));
    let reader = TripleReader::new(DataFormat::NTriples, doc_two_lines());
    assert_eq!(engine.store_all(&reader), Ok(2));
    assert_eq!(engine.storage().store.stat.triple_count, 2);
    assert_eq!(engine.storage().store.stat.byte_size, 77);
    assert!(engine.storage().namespaces.contains_key("http://ex.org/"));
    assert_eq!(engine.delete_all(&atoms_two()), Ok(2));
    assert_eq!(engine.storage().store.stat.triple_count, 0);
    assert_eq!(engine.storage().store.stat.byte_size, 0);
}

#[test]
fn net_zero_namespace_is_dropped() {
    let mut engine = StoreEngine::new(Backend::new(wide_limits()));
    let reader = TripleReader::new(DataFormat::NTriples, doc_two_lines());
    assert_eq!(engine.store_all(&reader), Ok(2));
    assert!(engine.storage().namespaces.contains_key("http://ex.org/"));
    assert_eq!(engine.delete_all(&atoms_two()), Ok(2));
    assert!(!engine.storage().namespaces.contains_key("http://ex.org/"));
    assert_eq!(engine.storage().store.stat.namespace_count, 0);
}

#[test]
fn triple_count_quota_is_sharp() {
    let limits = StoreLimits { max_triple_count: 2, ..wide_limits() };
    let mut engine = StoreEngine::new(Backend::new(limits));
    let t = |n: &str| RawTriple {
        subject: RawSubject::Named(format!("http://ex.org/{n}")),
        predicate: "http://ex.org/p".to_string(),
        object: RawObject::LiteralSimple("v".to_string()),
    };
    assert_eq!(engine.store_triple(&t("a")), Ok(()));
    assert_eq!(engine.store_triple(&t("b")), Ok(()));
    assert_eq!(engine.store_triple(&t("c")), Err(StoreError::TripleCount(2)));
    // the rejected insertion left the statistics alone
    assert_eq!(engine.finish(), Ok(2));
    assert_eq!(engine.storage().store.stat.triple_count, 2);
}

#[test]
fn each_quota_bound_has_its_error() {
    let t1 = RawTriple {
        subject: RawSubject::Named("http://ex.org/s".to_string()),
        predicate: "http://ex.org/p".to_string(),
        object: RawObject::LiteralSimple("v".to_string()),
    };
    // t1's size: 15 + 15 + 1 bytes
    let mut e = StoreEngine::new(Backend::new(StoreLimits {
        max_insert_data_triple_count: 1,
        ..wide_limits()
    }));
    assert_eq!(e.store_triple(&t1), Ok(()));
    assert_eq!(
        e.store_triple(&t1),
        Err(StoreError::InsertDataTripleCount(1))
    );

    let mut e = StoreEngine::new(Backend::new(StoreLimits {
        max_triple_byte_size: 10,
        ..wide_limits()
    }));
    assert_eq!(e.store_triple(&t1), Err(StoreError::TripleByteSize(31, 10)));

    let mut e = StoreEngine::new(Backend::new(StoreLimits {
        max_byte_size: 40,
        ..wide_limits()
    }));
    assert_eq!(e.store_triple(&t1), Ok(()));
    assert_eq!(e.store_triple(&t1), Err(StoreError::ByteSize(40)));

    let mut e = StoreEngine::new(Backend::new(StoreLimits {
        max_insert_data_byte_size: 40,
        ..wide_limits()
    }));
    assert_eq!(e.store_triple(&t1), Ok(()));
    assert_eq!(e.store_triple(&t1), Err(StoreError::InsertDataByteSize(40)));
}

#[test]
fn deleting_unknown_namespace_fails() {
    let mut engine = StoreEngine::new(Backend::new(wide_limits()));
    let atoms = vec![Atom {
        subject: SubjectValue::NamedNode("http://ex.org/s".to_string()),
        property: Property("http://ex.org/p".to_string()),
        value: Value::LiteralSimple("v".to_string()),
    }];
    assert_eq!(
        engine.delete_all(&atoms),
        Err(StoreError::NamespaceNotFound("http://ex.org/".to_string()))
    );
}

#[test]
fn nested_triples_are_rejected() {
    let doc = b"<<<http://ex.org/a> <http://ex.org/b> <http://ex.org/c>>> <http://ex.org/p> <http://ex.org/o> .\n".to_vec();
    let reader = TripleReader::new(DataFormat::NTriples, doc);
    let ts = reader.read_all().unwrap();
    assert_eq!(ts.len(), 1);
    assert_eq!(ts[0].subject, RawSubject::Nested);
    let mut engine = StoreEngine::new(Backend::new(wide_limits()));
    assert_eq!(engine.store_triple(&ts[0]), Err(StoreError::NestedTriple));
}

#[test]
fn unparsable_document_is_a_parse_error() {
    let reader = TripleReader::new(DataFormat::NTriples, b"not a triple at all".to_vec());
    match reader.read_all() {
        Err(StoreError::Parse(_)) => {}
        other => panic!("expected a parse error, got {other:?}"),
    }
}

#[test]
fn object_hash_is_a_digest() {
    let a = object_hash(&Object::Blank("x".to_string()));
    let b = object_hash(&Object::Blank("y".to_string()));
    assert_eq!(a.len(), 32);
    assert_ne!(a, b);
    assert_ne!(a, canonical_bytes(&Object::Blank("x".to_string())));
}

fn sample_triples() -> Vec<RawTriple> {
    vec![
        RawTriple {
            subject: RawSubject::Named("http://ex.org/s".to_string()),
            predicate: "http://ex.org/p".to_string(),
            object: RawObject::LiteralLang("hello".to_string(), "en".to_string()),
        },
        RawTriple {
            subject: RawSubject::Blank("b0".to_string()),
            predicate: "http://ex.org/p".to_string(),
            object: RawObject::Named("http://ex.org/o".to_string()),
        },
        RawTriple {
            subject: RawSubject::Named("http://ex.org/s".to_string()),
            predicate: "http://ex.org/q".to_string(),
            object: RawObject::LiteralTyped(
                "5".to_string(),
                "http://www.w3.org/2001/XMLSchema#integer".to_string(),
            ),
        },
    ]
}

fn round_trip(format: DataFormat) {
    let ts = sample_triples();
    let mut writer = TripleWriter::new(format);
    for t in &ts {
        assert_eq!(writer.write(t), Ok(()));
    }
    let bytes = writer.finish().unwrap();
    let reader = TripleReader::new(format, bytes);
    let back = reader.read_all().unwrap();
    assert_eq!(back, ts);
}

#[test]
fn write_all_writes_the_whole_batch() {
    let ts = sample_triples();
    let mut writer = TripleWriter::new(DataFormat::NTriples);
    assert_eq!(writer.write_all(&ts), Ok(()));
    let bytes = writer.finish().unwrap();
    let reader = TripleReader::new(DataFormat::NTriples, bytes);
    assert_eq!(reader.read_all().unwrap(), ts);
}

#[test]
fn round_trip_ntriples() {
    round_trip(DataFormat::NTriples);
}

#[test]
fn round_trip_turtle() {
    round_trip(DataFormat::Turtle);
}

#[test]
fn round_trip_nquads() {
    round_trip(DataFormat::NQuads);
}

#[test]
fn round_trip_rdfxml() {
    round_trip(DataFormat::RDFXml);
}

#[test]
fn writer_rejects_nested_statements() {
    let mut writer = TripleWriter::new(DataFormat::NTriples);
    let nested = RawTriple {
        subject: RawSubject::Nested,
        predicate: "http://ex.org/p".to_string(),
        object: RawObject::LiteralSimple("v".to_string()),
    };
    assert_eq!(writer.write(&nested), Err(StoreError::NestedTriple));
}
