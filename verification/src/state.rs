use vstd::prelude::*;

verus! {

/// Adds one, staying put at the type's maximum instead of wrapping.
pub open spec fn sat_inc(x: u128) -> u128 {
    if x < u128::MAX {
        (x + 1) as u128
    } else {
        x
    }
}

/// Subtracts one, staying put at zero instead of wrapping.
pub open spec fn sat_dec(x: u128) -> u128 {
    if x > 0 {
        (x - 1) as u128
    } else {
        0
    }
}

/// An interned named term: the key of its namespace and its local name.
#[derive(Debug, Clone, PartialEq, Eq)]
pub struct Node {
    pub namespace: u128,
    pub value: String,
}

/// The mathematical value of a `Node`.
#[verifier::ext_equal]
pub ghost struct NodeV {
    pub namespace: u128,
    pub value: Seq<char>,
}

impl View for Node {
    type V = NodeV;

    open spec fn view(&self) -> NodeV {
        NodeV { namespace: self.namespace, value: self.value@ }
    }
}

impl Node {
    /// A field-by-field copy whose value is known to equal the original's.
    pub fn duplicate(&self) -> (r: Node)
        ensures
            r@ == self@,
    {
        Node { namespace: self.namespace, value: self.value.clone() }
    }
}

/// An interned subject: a named term or a blank node identifier.
#[derive(Debug, Clone, PartialEq, Eq)]
pub enum StoredSubject {
    Named(Node),
    Blank(String),
}

/// The mathematical value of a `StoredSubject`.
#[verifier::ext_equal]
pub ghost enum SubjectV {
    Named(NodeV),
    Blank(Seq<char>),
}

impl View for StoredSubject {
    type V = SubjectV;

    open spec fn view(&self) -> SubjectV {
        match self {
            StoredSubject::Named(n) => SubjectV::Named(n@),
            StoredSubject::Blank(id) => SubjectV::Blank(id@),
        }
    }
}

impl StoredSubject {
    /// A field-by-field copy whose value is known to equal the original's.
    pub fn duplicate(&self) -> (r: StoredSubject)
        ensures
            r@ == self@,
    {
        match self {
            StoredSubject::Named(n) => StoredSubject::Named(n.duplicate()),
            StoredSubject::Blank(id) => StoredSubject::Blank(id.clone()),
        }
    }
}

/// An interned literal: simple, language-tagged, or datatyped.
#[derive(Debug, Clone, PartialEq, Eq)]
pub enum StoredLiteral {
    Simple { value: String },
    I18NString { value: String, language: String },
    Typed { value: String, datatype: Node },
}

/// The mathematical value of a `StoredLiteral`.
#[verifier::ext_equal]
pub ghost enum LiteralV {
    Simple { value: Seq<char> },
    I18NString { value: Seq<char>, language: Seq<char> },
    Typed { value: Seq<char>, datatype: NodeV },
}

impl View for StoredLiteral {
    type V = LiteralV;

    open spec fn view(&self) -> LiteralV {
        match self {
            StoredLiteral::Simple { value } => LiteralV::Simple { value: value@ },
            StoredLiteral::I18NString { value, language } => LiteralV::I18NString {
                value: value@,
                language: language@,
            },
            StoredLiteral::Typed { value, datatype } => LiteralV::Typed {
                value: value@,
                datatype: datatype@,
            },
        }
    }
}

/// An interned object: a named term, a blank node, or a literal.
#[derive(Debug, Clone, PartialEq, Eq)]
pub enum Object {
    Named(Node),
    Blank(String),
    Literal(StoredLiteral),
}

/// The mathematical value of an `Object`.
#[verifier::ext_equal]
pub ghost enum ObjectV {
    Named(NodeV),
    Blank(Seq<char>),
    Literal(LiteralV),
}

impl View for Object {
    type V = ObjectV;

    open spec fn view(&self) -> ObjectV {
        match self {
            Object::Named(n) => ObjectV::Named(n@),
            Object::Blank(id) => ObjectV::Blank(id@),
            Object::Literal(l) => ObjectV::Literal(l@),
        }
    }
}

/// An interned statement as it is persisted.
#[derive(Debug, Clone, PartialEq, Eq)]
pub struct StoredTriple {
    pub subject: StoredSubject,
    pub predicate: Node,
    pub object: Object,
}

/// The mathematical value of a `StoredTriple`.
#[verifier::ext_equal]
pub ghost struct TripleV {
    pub subject: SubjectV,
    pub predicate: NodeV,
    pub object: ObjectV,
}

impl View for StoredTriple {
    type V = TripleV;

    open spec fn view(&self) -> TripleV {
        TripleV { subject: self.subject@, predicate: self.predicate@, object: self.object@ }
    }
}

/// An interned namespace record: its text, its stable key, and the number of
/// live references to it.
#[derive(Debug, Clone, PartialEq, Eq)]
pub struct Namespace {
    pub value: String,
    pub key: u128,
    pub counter: u128,
}

/// The mathematical value of a `Namespace`.
#[verifier::ext_equal]
pub ghost struct NamespaceV {
    pub value: Seq<char>,
    pub key: u128,
    pub counter: u128,
}

impl View for Namespace {
    type V = NamespaceV;

    open spec fn view(&self) -> NamespaceV {
        NamespaceV { value: self.value@, key: self.key, counter: self.counter }
    }
}

impl Namespace {
    /// A field-by-field copy whose value is known to equal the original's.
    pub fn duplicate(&self) -> (r: Namespace)
        ensures
            r@ == self@,
    {
        Namespace { value: self.value.clone(), key: self.key, counter: self.counter }
    }
}

/// Running statistics of the store, mutated only through the engine's
/// validated insert and delete path.
#[derive(Debug, Clone, Copy, PartialEq, Eq)]
pub struct StoreStat {
    pub triple_count: u128,
    pub namespace_count: u128,
    pub byte_size: u128,
}

/// The configured resource quotas, immutable during a batch.
#[derive(Debug, Clone, Copy, PartialEq, Eq)]
pub struct StoreLimits {
    pub max_triple_count: u128,
    pub max_byte_size: u128,
    pub max_triple_byte_size: u128,
    pub max_insert_data_byte_size: u128,
    pub max_insert_data_triple_count: u128,
}

/// The store's persisted configuration and statistics record.
#[derive(Debug, Clone, Copy, PartialEq, Eq)]
pub struct Store {
    pub limits: StoreLimits,
    pub stat: StoreStat,
}

/// The composite key a persisted triple is placed under: the digest of its
/// object first, then its interned predicate, then its interned subject.
#[derive(Debug, Clone, PartialEq, Eq)]
pub struct TripleKey {
    pub object_hash: Vec<u8>,
    pub predicate: Node,
    pub subject: StoredSubject,
}

/// The mathematical value of a `TripleKey`.
#[verifier::ext_equal]
pub ghost struct TripleKeyV {
    pub object_hash: Seq<u8>,
    pub predicate: NodeV,
    pub subject: SubjectV,
}

impl View for TripleKey {
    type V = TripleKeyV;

    open spec fn view(&self) -> TripleKeyV {
        TripleKeyV {
            object_hash: self.object_hash@,
            predicate: self.predicate@,
            subject: self.subject@,
        }
    }
}

} // verus!
