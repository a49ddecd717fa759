use vstd::prelude::*;
use crate::errors::StoreError;

verus! {

/// True of the three characters that may end an IRI's namespace part.
pub open spec fn is_ns_delim(c: char) -> bool {
    c == '#' || c == '/' || c == ':'
}

/// True when at least one namespace delimiter occurs in the text.
pub open spec fn has_ns_delim(s: Seq<char>) -> bool {
    exists|i: int| 0 <= i < s.len() && is_ns_delim(s[i])
}

/// The index of the rightmost namespace delimiter, or -1 when there is none.
pub open spec fn rightmost_ns_delim(s: Seq<char>) -> int
    decreases s.len(),
{
    if s.len() == 0 {
        -1
    } else if is_ns_delim(s[s.len() - 1]) {
        s.len() - 1
    } else {
        rightmost_ns_delim(s.drop_last())
    }
}

/// `rightmost_ns_delim` is what its name says: when a delimiter occurs, the
/// result is a valid index, holds a delimiter, and no delimiter follows it;
/// when none occurs, the result is -1.
pub proof fn lemma_rightmost_ns_delim(s: Seq<char>)
    ensures
        has_ns_delim(s) <==> rightmost_ns_delim(s) >= 0,
        has_ns_delim(s) ==> {
            let i = rightmost_ns_delim(s);
            &&& 0 <= i < s.len()
            &&& is_ns_delim(s[i])
            &&& forall|j: int| i < j < s.len() ==> !is_ns_delim(s[j])
        },
    decreases s.len(),
{
    if s.len() == 0 {
        assert(!has_ns_delim(s));
    } else if is_ns_delim(s[s.len() - 1]) {
        assert(has_ns_delim(s));
    } else {
        lemma_rightmost_ns_delim(s.drop_last());
        assert forall|i: int| 0 <= i < s.len() && is_ns_delim(s[i]) implies has_ns_delim(
            s.drop_last(),
        ) by {
            assert(i < s.len() - 1);
            assert(s.drop_last()[i] == s[i]);
        }
        if has_ns_delim(s.drop_last()) {
            assert(has_ns_delim(s)) by {
                let i = choose|i: int|
                    0 <= i < s.drop_last().len() && is_ns_delim(s.drop_last()[i]);
                assert(s[i] == s.drop_last()[i]);
            }
            let i = rightmost_ns_delim(s.drop_last());
            assert(s[i] == s.drop_last()[i]);
            assert forall|j: int| i < j < s.len() implies !is_ns_delim(s[j]) by {
                if j < s.len() - 1 {
                    assert(s[j] == s.drop_last()[j]);
                }
            }
        }
    }
}

/// Splits a full IRI into its namespace (up to and including the rightmost
/// occurrence of `#`, `/` or `:`) and the remaining local name.
///
/// Fails exactly when the IRI holds none of the three delimiters.
pub fn explode_iri(iri: &str) -> (r: Result<(String, String), StoreError>)
    ensures
        r is Ok <==> has_ns_delim(iri@),
        r matches Ok(p) ==> {
            let i = rightmost_ns_delim(iri@);
            &&& p.0@ == iri@.subrange(0, i + 1)
            &&& p.1@ == iri@.subrange(i + 1, iri@.len() as int)
            &&& p.0@ + p.1@ == iri@
        },
        r matches Err(e) ==> e == StoreError::IriNamespace,
{
    proof {
        lemma_rightmost_ns_delim(iri@);
    }
    let len = iri.unicode_len();
    let mut i = len;
    while i > 0
        invariant
            i <= len,
            len == iri@.len(),
            forall|j: int| i <= j < len ==> !is_ns_delim(iri@[j]),
        decreases i,
    {
        let c = iri.get_char(i - 1);
        if c == '#' || c == '/' || c == ':' {
            proof {
                assert(is_ns_delim(iri@[i - 1]));
                assert(rightmost_ns_delim(iri@) == i - 1) by {
                    lemma_rightmost_ns_delim(iri@);
                    let m = rightmost_ns_delim(iri@);
                    assert(!(m > i - 1));
                    assert(!(m < i - 1));
                }
            }
            let ns = iri.substring_char(0, i).to_owned();
            let local = iri.substring_char(i, len).to_owned();
            proof {
                assert(ns@ + local@ =~= iri@);
            }
            return Ok((ns, local));
        }
        i = i - 1;
    }
    proof {
        assert(!has_ns_delim(iri@));
    }
    Err(StoreError::IriNamespace)
}

/// An IRI held by value rather than borrowed from a document.
#[derive(Eq, PartialEq, Ord, PartialOrd, Debug, Clone, Hash)]
pub struct OwnedNamedNode {
    pub iri: String,
}

/// The subject of a resolved statement: a named node or a blank node.
#[derive(Debug, Clone, PartialEq, Eq)]
pub enum SubjectValue {
    NamedNode(String),
    BlankNode(String),
}

/// The predicate of a resolved statement, always a named node.
#[derive(Debug, Clone, PartialEq, Eq)]
pub struct Property(pub String);

/// The object of a resolved statement: a named node, a blank node, or a
/// literal that is simple, language-tagged, or datatyped.
#[derive(Debug, Clone, PartialEq, Eq)]
pub enum Value {
    NamedNode(String),
    BlankNode(String),
    LiteralSimple(String),
    LiteralLang(String, String),
    LiteralDatatype(String, String),
}

/// A resolved statement, ready to be handed to the storage engine.
#[derive(Debug, Clone, PartialEq, Eq)]
pub struct Atom {
    pub subject: SubjectValue,
    pub property: Property,
    pub value: Value,
}

/// A parsed subject as a document carries it; `Nested` marks a quoted
/// triple, which the engine rejects.
#[derive(Debug, Clone, PartialEq, Eq)]
pub enum RawSubject {
    Named(String),
    Blank(String),
    Nested,
}

/// A parsed object as a document carries it; `Nested` marks a quoted
/// triple, which the engine rejects.
#[derive(Debug, Clone, PartialEq, Eq)]
pub enum RawObject {
    Named(String),
    Blank(String),
    LiteralSimple(String),
    LiteralLang(String, String),
    LiteralTyped(String, String),
    Nested,
}

/// A parsed statement: the subject, the predicate's IRI, and the object,
/// all held by value.
#[derive(Debug, Clone, PartialEq, Eq)]
pub struct RawTriple {
    pub subject: RawSubject,
    pub predicate: String,
    pub object: RawObject,
}

/// The mathematical value of a `RawSubject`.
#[verifier::ext_equal]
pub ghost enum RawSubjectV {
    Named(Seq<char>),
    Blank(Seq<char>),
    Nested,
}

impl View for RawSubject {
    type V = RawSubjectV;

    open spec fn view(&self) -> RawSubjectV {
        match self {
            RawSubject::Named(iri) => RawSubjectV::Named(iri@),
            RawSubject::Blank(id) => RawSubjectV::Blank(id@),
            RawSubject::Nested => RawSubjectV::Nested,
        }
    }
}

/// The mathematical value of a `RawObject`.
#[verifier::ext_equal]
pub ghost enum RawObjectV {
    Named(Seq<char>),
    Blank(Seq<char>),
    LiteralSimple(Seq<char>),
    LiteralLang(Seq<char>, Seq<char>),
    LiteralTyped(Seq<char>, Seq<char>),
    Nested,
}

impl View for RawObject {
    type V = RawObjectV;

    open spec fn view(&self) -> RawObjectV {
        match self {
            RawObject::Named(iri) => RawObjectV::Named(iri@),
            RawObject::Blank(id) => RawObjectV::Blank(id@),
            RawObject::LiteralSimple(v) => RawObjectV::LiteralSimple(v@),
            RawObject::LiteralLang(v, l) => RawObjectV::LiteralLang(v@, l@),
            RawObject::LiteralTyped(v, d) => RawObjectV::LiteralTyped(v@, d@),
            RawObject::Nested => RawObjectV::Nested,
        }
    }
}

/// The mathematical value of a `RawTriple`.
#[verifier::ext_equal]
pub ghost struct RawTripleV {
    pub subject: RawSubjectV,
    pub predicate: Seq<char>,
    pub object: RawObjectV,
}

impl View for RawTriple {
    type V = RawTripleV;

    open spec fn view(&self) -> RawTripleV {
        RawTripleV { subject: self.subject@, predicate: self.predicate@, object: self.object@ }
    }
}

/// True when neither end of the statement is a quoted triple.
pub open spec fn no_nested(t: RawTripleV) -> bool {
    !(t.subject matches RawSubjectV::Nested) && !(t.object matches RawObjectV::Nested)
}

/// The number of bytes of the UTF-8 encoding of a text, as a machine word
/// holds it.
pub open spec fn utf8_len(s: Seq<char>) -> nat {
    (vstd::utf8::encode_utf8(s).len() as usize) as nat
}

/// The byte size a subject contributes to its triple's size.
pub open spec fn raw_subject_size(s: RawSubjectV) -> nat {
    match s {
        RawSubjectV::Named(iri) => utf8_len(iri),
        RawSubjectV::Blank(id) => utf8_len(id),
        RawSubjectV::Nested => 0,
    }
}

/// The byte size an object contributes to its triple's size; a literal's
/// size includes its language tag or datatype.
pub open spec fn raw_object_size(o: RawObjectV) -> nat {
    match o {
        RawObjectV::Named(iri) => utf8_len(iri),
        RawObjectV::Blank(id) => utf8_len(id),
        RawObjectV::LiteralSimple(v) => utf8_len(v),
        RawObjectV::LiteralLang(v, l) => utf8_len(v) + utf8_len(l),
        RawObjectV::LiteralTyped(v, d) => utf8_len(v) + utf8_len(d),
        RawObjectV::Nested => 0,
    }
}

/// The byte size of a statement: the sum of the UTF-8 lengths of its
/// subject, predicate and object texts.
pub open spec fn raw_triple_size(t: RawTripleV) -> nat {
    raw_subject_size(t.subject) + utf8_len(t.predicate) + raw_object_size(t.object)
}

/// The parsed form an already-resolved statement corresponds to.
pub open spec fn atom_raw(a: Atom) -> RawTripleV {
    RawTripleV {
        subject: match a.subject {
            SubjectValue::NamedNode(s) => RawSubjectV::Named(s@),
            SubjectValue::BlankNode(s) => RawSubjectV::Blank(s@),
        },
        predicate: a.property.0@,
        object: match a.value {
            Value::NamedNode(s) => RawObjectV::Named(s@),
            Value::BlankNode(s) => RawObjectV::Blank(s@),
            Value::LiteralSimple(s) => RawObjectV::LiteralSimple(s@),
            Value::LiteralLang(s, l) => RawObjectV::LiteralLang(s@, l@),
            Value::LiteralDatatype(s, d) => RawObjectV::LiteralTyped(s@, d@),
        },
    }
}

impl Atom {
    /// The parsed form of an already-resolved statement; an atom never
    /// holds a quoted triple.
    pub fn to_raw(&self) -> (r: RawTriple)
        ensures
            r@ == atom_raw(*self),
            no_nested(r@),
    {
        let subject = match &self.subject {
            SubjectValue::NamedNode(s) => RawSubject::Named(s.clone()),
            SubjectValue::BlankNode(s) => RawSubject::Blank(s.clone()),
        };
        let object = match &self.value {
            Value::NamedNode(s) => RawObject::Named(s.clone()),
            Value::BlankNode(s) => RawObject::Blank(s.clone()),
            Value::LiteralSimple(s) => RawObject::LiteralSimple(s.clone()),
            Value::LiteralLang(s, l) => RawObject::LiteralLang(s.clone(), l.clone()),
            Value::LiteralDatatype(s, d) => RawObject::LiteralTyped(s.clone(), d.clone()),
        };
        RawTriple { subject, predicate: self.property.0.clone(), object }
    }
}

} // verus!
