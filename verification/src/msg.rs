use vstd::prelude::*;

verus! {

/// The serialization formats the codec understands; the caller selects one
/// per call, none is auto-detected.
#[derive(Debug, Clone, Copy, PartialEq, Eq)]
pub enum DataFormat {
    RDFXml,
    Turtle,
    NTriples,
    NQuads,
}

/// An IRI as a caller describes it: either written out in full, or as a
/// compact `prefix:local` form to be expanded through a prefix map.
#[derive(Debug, Clone, PartialEq, Eq)]
pub enum IRI {
    Full(String),
    Prefixed(String),
}

/// A caller-supplied description of a term, before resolution.
///
/// A literal carries at most one qualifier: a language tag or a datatype,
/// never both.
#[derive(Debug, Clone, PartialEq, Eq)]
pub enum Value {
    URI { value: IRI },
    Literal { value: String, lang: Option<String>, datatype: Option<IRI> },
    BlankNode { value: String },
}

/// A caller-supplied description of a node: a named node or a blank node.
#[derive(Debug, Clone, PartialEq, Eq)]
pub enum Node {
    NamedNode(IRI),
    BlankNode(String),
}

/// A caller-supplied description of a literal.
#[derive(Debug, Clone, PartialEq, Eq)]
pub enum LiteralValue {
    Simple(String),
    LanguageTaggedString { value: String, language: String },
    TypedValue { value: String, datatype: IRI },
}

/// One entry of the declarative prefix list a prefix map is built from.
#[derive(Debug, Clone, PartialEq, Eq)]
pub struct Prefix {
    pub prefix: String,
    pub namespace: String,
}

} // verus!
