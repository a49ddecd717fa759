use vstd::prelude::*;
use crate::errors::TermError;
use crate::msg;
use crate::rdf::{Property, SubjectValue, Value};

verus! {

/// Maps short prefixes to full namespace texts; built once per call from a
/// caller-supplied list, later entries shadowing earlier ones.
pub struct PrefixMap(Vec<msg::Prefix>);

impl View for PrefixMap {
    type V = Seq<msg::Prefix>;

    closed spec fn view(&self) -> Seq<msg::Prefix> {
        self.0@
    }
}

/// The namespace bound to `p`, taking the last binding when `p` occurs
/// more than once, or `None` when it does not occur at all.
pub open spec fn prefix_lookup(entries: Seq<msg::Prefix>, p: Seq<char>) -> Option<Seq<char>>
    decreases entries.len(),
{
    if entries.len() == 0 {
        None
    } else if entries.last().prefix@ == p {
        Some(entries.last().namespace@)
    } else {
        prefix_lookup(entries.drop_last(), p)
    }
}

/// The index of the leftmost `:` in the text, or -1 when there is none.
pub open spec fn leftmost_colon(s: Seq<char>) -> int
    decreases s.len(),
{
    if s.len() == 0 {
        -1
    } else if s[0] == ':' {
        0
    } else {
        let t = leftmost_colon(s.drop_first());
        if t < 0 {
            -1
        } else {
            t + 1
        }
    }
}

/// What expanding a CURIE against a prefix list yields, when it succeeds:
/// the namespace bound to the part before the first `:`, followed by the
/// part after it.
pub open spec fn expand_ok(curie: Seq<char>, entries: Seq<msg::Prefix>) -> Option<Seq<char>> {
    let i = leftmost_colon(curie);
    if i < 0 {
        None
    } else {
        match prefix_lookup(entries, curie.subrange(0, i)) {
            Some(ns) => Some(ns + curie.subrange(i + 1, curie.len() as int)),
            None => None,
        }
    }
}

/// The error expansion of `curie` must report: a malformed CURIE when it has
/// no `:`, otherwise an unknown prefix.
pub open spec fn expand_errs_as(curie: Seq<char>, e: TermError) -> bool {
    if leftmost_colon(curie) < 0 {
        e matches TermError::MalformedCurie(q) && q@ == curie
    } else {
        e matches TermError::PrefixNotFound(q) && q@ == curie.subrange(
            0,
            leftmost_colon(curie),
        )
    }
}

impl Default for PrefixMap {
    /// An empty prefix map.
    fn default() -> (r: Self)
        ensures
            r@.len() == 0,
    {
        PrefixMap(Vec::new())
    }
}

impl PrefixMap {
    /// Builds the map from a declarative prefix list; duplicate prefixes
    /// resolve to the last entry.
    pub fn from_prefixes(list: Vec<msg::Prefix>) -> (r: Self)
        ensures
            r@ == list@,
    {
        PrefixMap(list)
    }

    /// Hands the prefix list back out.
    pub fn into_inner(self) -> (r: Vec<msg::Prefix>)
        ensures
            r@ == self@,
    {
        self.0
    }

    /// The namespace bound to `prefix`, the last binding winning.
    pub fn resolve(&self, prefix: &String) -> (r: Option<String>)
        ensures
            match r {
                Some(ns) => prefix_lookup(self@, prefix@) matches Some(n) && n == ns@,
                None => prefix_lookup(self@, prefix@) is None,
            },
    {
        let n = self.0.len();
        let mut i = n;
        proof {
            assert(self@.subrange(0, n as int) =~= self@);
        }
        while i > 0
            invariant
                i <= n,
                n == self@.len(),
                prefix_lookup(self@, prefix@) == prefix_lookup(
                    self@.subrange(0, i as int),
                    prefix@,
                ),
            decreases i,
        {
            let e = &self.0[i - 1];
            proof {
                assert(self@.subrange(0, i as int).last() == self@[i - 1]);
                assert(self@.subrange(0, i as int).drop_last() =~= self@.subrange(
                    0,
                    i - 1,
                ));
            }
            if e.prefix == *prefix {
                return Some(e.namespace.clone());
            }
            i = i - 1;
        }
        proof {
            assert(self@.subrange(0, 0) =~= Seq::<msg::Prefix>::empty());
        }
        None
    }
}

/// Expands a `prefix:local` CURIE through the prefix map: the part before
/// the first `:` is looked up, and the namespace found replaces it.
///
/// Fails with a malformed-CURIE error when no `:` occurs, and with an
/// unknown-prefix error when the prefix is not in the map.
pub fn expand_uri(curie: &String, prefixes: &PrefixMap) -> (r: Result<String, TermError>)
    ensures
        match r {
            Ok(u) => expand_ok(curie@, prefixes@) matches Some(x) && x == u@,
            Err(e) => expand_ok(curie@, prefixes@) is None && expand_errs_as(curie@, e),
        },
{
    let len = curie.as_str().unicode_len();
    let mut i: usize = 0;
    while i < len
        invariant
            i <= len,
            len == curie@.len(),
            forall|j: int| 0 <= j < i ==> curie@[j] != ':',
        decreases len - i,
    {
        let c = curie.as_str().get_char(i);
        if c == ':' {
            proof {
                lemma_leftmost_colon(curie@, i as int);
            }
            let prefix = curie.as_str().substring_char(0, i).to_owned();
            let suffix = curie.as_str().substring_char(i + 1, len);
            match prefixes.resolve(&prefix) {
                Some(ns) => {
                    return Ok(ns.concat(suffix));
                },
                None => {
                    return Err(TermError::PrefixNotFound(prefix));
                },
            }
        }
        i = i + 1;
    }
    proof {
        lemma_no_colon(curie@);
    }
    Err(TermError::MalformedCurie(curie.clone()))
}

impl SubjectValue {
    /// Resolves an external term description into a subject: a URI (full or
    /// prefixed) or a blank node; anything else is unsupported in this
    /// position.
    pub fn try_from_value(value: msg::Value, prefixes: &PrefixMap) -> (r: Result<
        SubjectValue,
        TermError,
    >)
        ensures
            match value {
                msg::Value::URI { value: iri } => match iri {
                    msg::IRI::Full(uri) => r matches Ok(s) && (s matches SubjectValue::NamedNode(u)
                        && u@ == uri@),
                    msg::IRI::Prefixed(c) => match expand_ok(c@, prefixes@) {
                        Some(x) => r matches Ok(s) && (s matches SubjectValue::NamedNode(u) && u@
                            == x),
                        None => r matches Err(e) && expand_errs_as(c@, e),
                    },
                },
                msg::Value::BlankNode { value: id } => r matches Ok(s) && (s
                    matches SubjectValue::BlankNode(b) && b@ == id@),
                msg::Value::Literal { .. } => r == Err::<SubjectValue, TermError>(
                    TermError::UnsupportedSubject,
                ),
            },
    {
        match value {
            msg::Value::URI { value: msg::IRI::Full(uri) } => Ok(SubjectValue::NamedNode(uri)),
            msg::Value::URI { value: msg::IRI::Prefixed(curie) } => match expand_uri(
                &curie,
                prefixes,
            ) {
                Ok(u) => Ok(SubjectValue::NamedNode(u)),
                Err(e) => Err(e),
            },
            msg::Value::BlankNode { value: id } => Ok(SubjectValue::BlankNode(id)),
            msg::Value::Literal { .. } => Err(TermError::UnsupportedSubject),
        }
    }

    /// Resolves an external node description into a subject.
    pub fn try_from_node(node: msg::Node, prefixes: &PrefixMap) -> (r: Result<
        SubjectValue,
        TermError,
    >)
        ensures
            match node {
                msg::Node::NamedNode(iri) => match iri {
                    msg::IRI::Full(uri) => r matches Ok(s) && (s matches SubjectValue::NamedNode(u)
                        && u@ == uri@),
                    msg::IRI::Prefixed(c) => match expand_ok(c@, prefixes@) {
                        Some(x) => r matches Ok(s) && (s matches SubjectValue::NamedNode(u) && u@
                            == x),
                        None => r matches Err(e) && expand_errs_as(c@, e),
                    },
                },
                msg::Node::BlankNode(id) => r matches Ok(s) && (s matches SubjectValue::BlankNode(b)
                    && b@ == id@),
            },
    {
        match node {
            msg::Node::BlankNode(id) => Ok(SubjectValue::BlankNode(id)),
            msg::Node::NamedNode(msg::IRI::Full(uri)) => Ok(SubjectValue::NamedNode(uri)),
            msg::Node::NamedNode(msg::IRI::Prefixed(curie)) => match expand_uri(
                &curie,
                prefixes,
            ) {
                Ok(u) => Ok(SubjectValue::NamedNode(u)),
                Err(e) => Err(e),
            },
        }
    }
}

impl Property {
    /// Resolves an external term description into a predicate: a URI only;
    /// anything else is unsupported in this position.
    pub fn try_from_value(value: msg::Value, prefixes: &PrefixMap) -> (r: Result<
        Property,
        TermError,
    >)
        ensures
            match value {
                msg::Value::URI { value: iri } => match iri {
                    msg::IRI::Full(uri) => r matches Ok(p) && p.0@ == uri@,
                    msg::IRI::Prefixed(c) => match expand_ok(c@, prefixes@) {
                        Some(x) => r matches Ok(p) && p.0@ == x,
                        None => r matches Err(e) && expand_errs_as(c@, e),
                    },
                },
                _ => r == Err::<Property, TermError>(TermError::UnsupportedPredicate),
            },
    {
        match value {
            msg::Value::URI { value: msg::IRI::Full(uri) } => Ok(Property(uri)),
            msg::Value::URI { value: msg::IRI::Prefixed(curie) } => match expand_uri(
                &curie,
                prefixes,
            ) {
                Ok(u) => Ok(Property(u)),
                Err(e) => Err(e),
            },
            _ => Err(TermError::UnsupportedPredicate),
        }
    }

    /// Resolves an external node description into a predicate: a named node
    /// only.
    pub fn try_from_node(node: msg::Node, prefixes: &PrefixMap) -> (r: Result<
        Property,
        TermError,
    >)
        ensures
            match node {
                msg::Node::NamedNode(iri) => match iri {
                    msg::IRI::Full(uri) => r matches Ok(p) && p.0@ == uri@,
                    msg::IRI::Prefixed(c) => match expand_ok(c@, prefixes@) {
                        Some(x) => r matches Ok(p) && p.0@ == x,
                        None => r matches Err(e) && expand_errs_as(c@, e),
                    },
                },
                msg::Node::BlankNode(_) => r == Err::<Property, TermError>(
                    TermError::UnsupportedPredicate,
                ),
            },
    {
        match node {
            msg::Node::NamedNode(msg::IRI::Full(uri)) => Ok(Property(uri)),
            msg::Node::NamedNode(msg::IRI::Prefixed(curie)) => match expand_uri(
                &curie,
                prefixes,
            ) {
                Ok(u) => Ok(Property(u)),
                Err(e) => Err(e),
            },
            msg::Node::BlankNode(_) => Err(TermError::UnsupportedPredicate),
        }
    }
}

impl Value {
    /// Resolves an external term description into an object: a URI, a blank
    /// node, or a literal carrying at most one qualifier; a literal
    /// asserting both a language tag and a datatype is rejected.
    pub fn try_from_value(value: msg::Value, prefixes: &PrefixMap) -> (r: Result<
        Value,
        TermError,
    >)
        ensures
            match value {
                msg::Value::URI { value: iri } => match iri {
                    msg::IRI::Full(uri) => r matches Ok(v) && (v matches Value::NamedNode(u)
                        && u@ == uri@),
                    msg::IRI::Prefixed(c) => match expand_ok(c@, prefixes@) {
                        Some(x) => r matches Ok(v) && (v matches Value::NamedNode(u) && u@
                            == x),
                        None => r matches Err(e) && expand_errs_as(c@, e),
                    },
                },
                msg::Value::BlankNode { value: id } => r matches Ok(v) && (v
                    matches Value::BlankNode(b) && b@ == id@),
                msg::Value::Literal { value: lx, lang, datatype } => match (lang, datatype) {
                    (None, None) => r matches Ok(v) && (v matches Value::LiteralSimple(x) && x@
                        == lx@),
                    (Some(lg), None) => r matches Ok(v) && (v matches Value::LiteralLang(x, l)
                        && x@ == lx@ && l@ == lg@),
                    (None, Some(msg::IRI::Full(uri))) => r matches Ok(v) && (v
                        matches Value::LiteralDatatype(x, d) && x@ == lx@ && d@ == uri@),
                    (None, Some(msg::IRI::Prefixed(c))) => match expand_ok(c@, prefixes@) {
                        Some(ex) => r matches Ok(v) && (v matches Value::LiteralDatatype(x, d)
                            && x@ == lx@ && d@ == ex),
                        None => r matches Err(e) && expand_errs_as(c@, e),
                    },
                    (Some(_), Some(_)) => r == Err::<Value, TermError>(
                        TermError::UnsupportedObject,
                    ),
                },
            },
    {
        match value {
            msg::Value::URI { value: msg::IRI::Full(uri) } => Ok(Value::NamedNode(uri)),
            msg::Value::URI { value: msg::IRI::Prefixed(curie) } => match expand_uri(
                &curie,
                prefixes,
            ) {
                Ok(u) => Ok(Value::NamedNode(u)),
                Err(e) => Err(e),
            },
            msg::Value::Literal { value: lx, lang: None, datatype: None } => Ok(
                Value::LiteralSimple(lx),
            ),
            msg::Value::Literal { value: lx, lang: Some(lg), datatype: None } => Ok(
                Value::LiteralLang(lx, lg),
            ),
            msg::Value::Literal { value: lx, lang: None, datatype: Some(msg::IRI::Full(uri)) }
                => Ok(Value::LiteralDatatype(lx, uri)),
            msg::Value::Literal {
                value: lx,
                lang: None,
                datatype: Some(msg::IRI::Prefixed(curie)),
            } => match expand_uri(&curie, prefixes) {
                Ok(u) => Ok(Value::LiteralDatatype(lx, u)),
                Err(e) => Err(e),
            },
            msg::Value::Literal { value: _, lang: Some(_), datatype: Some(_) } => Err(
                TermError::UnsupportedObject,
            ),
            msg::Value::BlankNode { value: id } => Ok(Value::BlankNode(id)),
        }
    }

    /// Resolves an external node description into an object.
    pub fn try_from_node(node: msg::Node, prefixes: &PrefixMap) -> (r: Result<
        Value,
        TermError,
    >)
        ensures
            match node {
                msg::Node::NamedNode(iri) => match iri {
                    msg::IRI::Full(uri) => r matches Ok(v) && (v matches Value::NamedNode(u)
                        && u@ == uri@),
                    msg::IRI::Prefixed(c) => match expand_ok(c@, prefixes@) {
                        Some(x) => r matches Ok(v) && (v matches Value::NamedNode(u) && u@
                            == x),
                        None => r matches Err(e) && expand_errs_as(c@, e),
                    },
                },
                msg::Node::BlankNode(id) => r matches Ok(v) && (v matches Value::BlankNode(b)
                    && b@ == id@),
            },
    {
        match node {
            msg::Node::NamedNode(msg::IRI::Full(uri)) => Ok(Value::NamedNode(uri)),
            msg::Node::NamedNode(msg::IRI::Prefixed(curie)) => match expand_uri(
                &curie,
                prefixes,
            ) {
                Ok(u) => Ok(Value::NamedNode(u)),
                Err(e) => Err(e),
            },
            msg::Node::BlankNode(id) => Ok(Value::BlankNode(id)),
        }
    }

    /// Resolves an external literal description into an object.
    pub fn try_from_literal(literal: msg::LiteralValue, prefixes: &PrefixMap) -> (r: Result<
        Value,
        TermError,
    >)
        ensures
            match literal {
                msg::LiteralValue::Simple(lx) => r matches Ok(v) && (v matches Value::LiteralSimple(
                    x,
                ) && x@ == lx@),
                msg::LiteralValue::LanguageTaggedString { value: lx, language: lg } => r matches Ok(
                    v,
                ) && (v matches Value::LiteralLang(x, l) && x@ == lx@ && l@ == lg@),
                msg::LiteralValue::TypedValue { value: lx, datatype: dt } => match dt {
                    msg::IRI::Full(uri) => r matches Ok(v) && (v
                        matches Value::LiteralDatatype(x, d) && x@ == lx@ && d@ == uri@),
                    msg::IRI::Prefixed(c) => match expand_ok(c@, prefixes@) {
                        Some(ex) => r matches Ok(v) && (v matches Value::LiteralDatatype(x, d)
                            && x@ == lx@ && d@ == ex),
                        None => r matches Err(e) && expand_errs_as(c@, e),
                    },
                },
            },
    {
        match literal {
            msg::LiteralValue::Simple(lx) => Ok(Value::LiteralSimple(lx)),
            msg::LiteralValue::LanguageTaggedString { value: lx, language: lg } => Ok(
                Value::LiteralLang(lx, lg),
            ),
            msg::LiteralValue::TypedValue { value: lx, datatype: msg::IRI::Full(uri) } => Ok(
                Value::LiteralDatatype(lx, uri),
            ),
            msg::LiteralValue::TypedValue { value: lx, datatype: msg::IRI::Prefixed(curie) } => match expand_uri(
                &curie,
                prefixes,
            ) {
                Ok(u) => Ok(Value::LiteralDatatype(lx, u)),
                Err(e) => Err(e),
            },
        }
    }
}

/// When `s[i]` is the first `:`, `leftmost_colon(s)` is `i`.
proof fn lemma_leftmost_colon(s: Seq<char>, i: int)
    requires
        0 <= i < s.len(),
        s[i] == ':',
        forall|j: int| 0 <= j < i ==> s[j] != ':',
    ensures
        leftmost_colon(s) == i,
    decreases s.len(),
{
    if i == 0 {
    } else {
        lemma_leftmost_colon(s.drop_first(), i - 1);
    }
}

/// When no `:` occurs in `s`, `leftmost_colon(s)` is -1.
proof fn lemma_no_colon(s: Seq<char>)
    requires
        forall|j: int| 0 <= j < s.len() ==> s[j] != ':',
    ensures
        leftmost_colon(s) < 0,
    decreases s.len(),
{
    if s.len() > 0 {
        lemma_no_colon(s.drop_first());
    }
}

} // verus!
