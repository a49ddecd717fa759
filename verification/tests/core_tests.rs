use cognitarium::cursor::{decode, encode};
use cognitarium::errors::{CursorError, StoreError, TermError};
use cognitarium::mapper::PrefixMap;
use cognitarium::msg;
use cognitarium::rdf::{explode_iri, Property, SubjectValue, Value};

#[test]
fn proper_explode_iri() {
    assert_eq!(
        explode_iri("http://www.w3.org/2001/XMLSchema#dateTime"),
        Ok((
            "http://www.w3.org/2001/XMLSchema#".to_string(),
            "dateTime".to_string()
        ))
    );
    assert_eq!(
        explode_iri("https://ontology.okp4.space/core/Governance"),
        Ok((
            "https://ontology.okp4.space/core/".to_string(),
            "Governance".to_string()
        ))
    );
    assert_eq!(
        explode_iri("did:key:0x04d1f1b8f8a7a28f9a5a254c326a963a22f5a5b5d5f5e5d5c5b5a5958575655"),
        Ok((
            "did:key:".to_string(),
            "0x04d1f1b8f8a7a28f9a5a254c326a963a22f5a5b5d5f5e5d5c5b5a5958575655".to_string()
        ))
    );
    assert_eq!(
        explode_iri("wow:this/is#weird"),
        Ok(("wow:this/is#".to_string(), "weird".to_string()))
    );
    assert_eq!(
        explode_iri("this#is:weird/too"),
        Ok(("this#is:weird/".to_string(), "too".to_string()))
    );
    assert_eq!(explode_iri("this_doesn't_work"), Err(StoreError::IriNamespace));
    assert_eq!(
        StoreError::IriNamespace.message(),
        "Couldn't extract IRI namespace".to_string()
    );
}

#[test]
fn try_from_subject() {
    assert_eq!(
        SubjectValue::try_from_value(
            msg::Value::URI {
                value: msg::IRI::Full("http://www.w3.org/1999/02/22-rdf-syntax-ns#".to_string()),
            },
            &PrefixMap::default(),
        ),
        Ok(SubjectValue::NamedNode(
            "http://www.w3.org/1999/02/22-rdf-syntax-ns#".to_string()
        ))
    );
    assert_eq!(
        SubjectValue::try_from_value(
            msg::Value::BlankNode {
                value: "blank".to_string(),
            },
            &PrefixMap::default(),
        ),
        Ok(SubjectValue::BlankNode("blank".to_string()))
    );
    assert_eq!(
        SubjectValue::try_from_value(
            msg::Value::URI {
                value: msg::IRI::Prefixed("rdf:".to_string()),
            },
            &PrefixMap::from_prefixes(vec![msg::Prefix {
                prefix: "rdf".to_string(),
                namespace: "http://www.w3.org/1999/02/22-rdf-syntax-ns#".to_string(),
            }]),
        ),
        Ok(SubjectValue::NamedNode(
            "http://www.w3.org/1999/02/22-rdf-syntax-ns#".to_string()
        ))
    );
    assert_eq!(
        SubjectValue::try_from_value(
            msg::Value::Literal {
                value: "rdf".to_string(),
                lang: None,
                datatype: None,
            },
            &PrefixMap::default(),
        ),
        Err(TermError::UnsupportedSubject)
    );
    assert_eq!(
        TermError::UnsupportedSubject.message(),
        "Unsupported subject value. Expected URI or BlankNode".to_string()
    );
}

#[test]
fn try_from_property() {
    assert_eq!(
        Property::try_from_value(
            msg::Value::URI {
                value: msg::IRI::Full("http://www.w3.org/1999/02/22-rdf-syntax-ns#".to_string()),
            },
            &PrefixMap::default(),
        ),
        Ok(Property(
            "http://www.w3.org/1999/02/22-rdf-syntax-ns#".to_string()
        ))
    );
    assert_eq!(
        Property::try_from_value(
            msg::Value::URI {
                value: msg::IRI::Prefixed("rdf:".to_string()),
            },
            &PrefixMap::from_prefixes(vec![msg::Prefix {
                prefix: "rdf".to_string(),
                namespace: "http://www.w3.org/1999/02/22-rdf-syntax-ns#".to_string(),
            }]),
        ),
        Ok(Property(
            "http://www.w3.org/1999/02/22-rdf-syntax-ns#".to_string()
        ))
    );
    assert_eq!(
        Property::try_from_value(
            msg::Value::BlankNode {
                value: "blank".to_string(),
            },
            &PrefixMap::default(),
        ),
        Err(TermError::UnsupportedPredicate)
    );
    assert_eq!(
        TermError::UnsupportedPredicate.message(),
        "Unsupported predicate value. Expected URI".to_string()
    );
}

#[test]
fn try_from_value() {
    assert_eq!(
        Value::try_from_value(
            msg::Value::URI {
                value: msg::IRI::Full("http://www.w3.org/1999/02/22-rdf-syntax-ns#".to_string()),
            },
            &PrefixMap::default(),
        ),
        Ok(Value::NamedNode(
            "http://www.w3.org/1999/02/22-rdf-syntax-ns#".to_string()
        ))
    );
    assert_eq!(
        Value::try_from_value(
            msg::Value::URI {
                value: msg::IRI::Prefixed("rdf:".to_string()),
            },
            &PrefixMap::from_prefixes(vec![msg::Prefix {
                prefix: "rdf".to_string(),
                namespace: "http://www.w3.org/1999/02/22-rdf-syntax-ns#".to_string(),
            }]),
        ),
        Ok(Value::NamedNode(
            "http://www.w3.org/1999/02/22-rdf-syntax-ns#".to_string()
        ))
    );
    assert_eq!(
        Value::try_from_value(
            msg::Value::Literal {
                value: "foo".to_string(),
                lang: None,
                datatype: None,
            },
            &PrefixMap::default(),
        ),
        Ok(Value::LiteralSimple("foo".to_string()))
    );
    assert_eq!(
        Value::try_from_value(
            msg::Value::Literal {
                value: "foo".to_string(),
                lang: Some("en".to_string()),
                datatype: None,
            },
            &PrefixMap::default(),
        ),
        Ok(Value::LiteralLang("foo".to_string(), "en".to_string()))
    );
    assert_eq!(
        Value::try_from_value(
            msg::Value::Literal {
                value: "foo".to_string(),
                lang: None,
                datatype: Some(msg::IRI::Full(
                    "http://www.w3.org/1999/02/22-rdf-syntax-ns#".to_string()
                )),
            },
            &PrefixMap::default(),
        ),
        Ok(Value::LiteralDatatype(
            "foo".to_string(),
            "http://www.w3.org/1999/02/22-rdf-syntax-ns#".to_string()
        ))
    );
    assert_eq!(
        Value::try_from_value(
            msg::Value::Literal {
                value: "foo".to_string(),
                lang: None,
                datatype: Some(msg::IRI::Prefixed("rdf:".to_string())),
            },
            &PrefixMap::from_prefixes(vec![msg::Prefix {
                prefix: "rdf".to_string(),
                namespace: "http://www.w3.org/1999/02/22-rdf-syntax-ns#".to_string(),
            }]),
        ),
        Ok(Value::LiteralDatatype(
            "foo".to_string(),
            "http://www.w3.org/1999/02/22-rdf-syntax-ns#".to_string()
        ))
    );
    assert_eq!(
        Value::try_from_value(
            msg::Value::BlankNode {
                value: "foo".to_string(),
            },
            &PrefixMap::default(),
        ),
        Ok(Value::BlankNode("foo".to_string()))
    );
    assert_eq!(
        Value::try_from_value(
            msg::Value::Literal {
                value: "blank".to_string(),
                lang: Some("en".to_string()),
                datatype: Some(msg::IRI::Full(
                    "http://www.w3.org/1999/02/22-rdf-syntax-ns#".to_string()
                )),
            },
            &PrefixMap::default(),
        ),
        Err(TermError::UnsupportedObject)
    );
    assert_eq!(
        TermError::UnsupportedObject.message(),
        "Unsupported object value. Expected URI, BlankNode or Literal".to_string()
    );
}

#[test]
fn try_from_node_and_literal() {
    let map = PrefixMap::from_prefixes(vec![msg::Prefix {
        prefix: "ex".to_string(),
        namespace: "http://ex.org/".to_string(),
    }]);
    assert_eq!(
        SubjectValue::try_from_node(
            msg::Node::NamedNode(msg::IRI::Prefixed("ex:a".to_string())),
            &map
        ),
        Ok(SubjectValue::NamedNode("http://ex.org/a".to_string()))
    );
    assert_eq!(
        Property::try_from_node(msg::Node::BlankNode("b".to_string()), &map),
        Err(TermError::UnsupportedPredicate)
    );
    assert_eq!(
        Value::try_from_node(msg::Node::BlankNode("b".to_string()), &map),
        Ok(Value::BlankNode("b".to_string()))
    );
    assert_eq!(
        Value::try_from_literal(
            msg::LiteralValue::TypedValue {
                value: "1".to_string(),
                datatype: msg::IRI::Prefixed("ex:int".to_string()),
            },
            &map
        ),
        Ok(Value::LiteralDatatype(
            "1".to_string(),
            "http://ex.org/int".to_string()
        ))
    );
    assert_eq!(
        Value::try_from_literal(
            msg::LiteralValue::TypedValue {
                value: "1".to_string(),
                datatype: msg::IRI::Prefixed("nope:int".to_string()),
            },
            &map
        ),
        Err(TermError::PrefixNotFound("nope".to_string()))
    );
    assert_eq!(
        SubjectValue::try_from_value(
            msg::Value::URI {
                value: msg::IRI::Prefixed("no_colon_here".to_string()),
            },
            &map
        ),
        Err(TermError::MalformedCurie("no_colon_here".to_string()))
    );
    assert_eq!(
        TermError::MalformedCurie("no_colon_here".to_string()).message(),
        "Malformed CURIE: no_colon_here".to_string()
    );
    assert_eq!(
        TermError::PrefixNotFound("nope".to_string()).message(),
        "Prefix not found: nope".to_string()
    );
}

#[test]
fn proper_encode() {
    assert_eq!(encode(&"".to_string()), "".to_string());
    assert_eq!(encode(&"an_id".to_string()), "BzZCCcK".to_string());
}

#[test]
fn proper_decode() {
    assert_eq!(decode(&"".to_string()), Ok("".to_string()));
    assert_eq!(decode(&"BzZCCcK".to_string()), Ok("an_id".to_string()));
}

#[test]
fn invalid_decode() {
    assert_eq!(
        decode(&"?".to_string()),
        Err(CursorError::InvalidBase58(
            "provided string contained invalid character '?' at byte 0".to_string()
        ))
    );
    assert_eq!(
        decode(&"VtB5VXc".to_string()),
        Err(CursorError::InvalidUtf8(
            "invalid utf-8 sequence of 1 bytes from index 0".to_string()
        ))
    );
    assert_eq!(
        CursorError::InvalidBase58(
            "provided string contained invalid character '?' at byte 0".to_string()
        )
        .message(),
        "Error parsing into type Cursor: provided string contained invalid character '?' at byte 0"
            .to_string()
    );
}

#[test]
fn quota_messages_carry_the_limit() {
    assert_eq!(
        StoreError::TripleCount(2).message(),
        "Maximum triple count exceeded: 2".to_string()
    );
    assert_eq!(
        StoreError::ByteSize(1234567890).message(),
        "Maximum byte size exceeded: 1234567890".to_string()
    );
    assert_eq!(
        StoreError::TripleByteSize(31, 10).message(),
        "Maximum triple byte size exceeded: 31 > 10".to_string()
    );
    assert_eq!(
        StoreError::NamespaceNotFound("http://ex.org/".to_string()).message(),
        "Namespace not found: http://ex.org/".to_string()
    );
}
