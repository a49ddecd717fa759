use vstd::prelude::*;
use vstd::string::StringExecFns;

verus! {

/// The character a single decimal digit prints as.
pub open spec fn digit_char(d: nat) -> char {
    if d == 0 {
        '0'
    } else if d == 1 {
        '1'
    } else if d == 2 {
        '2'
    } else if d == 3 {
        '3'
    } else if d == 4 {
        '4'
    } else if d == 5 {
        '5'
    } else if d == 6 {
        '6'
    } else if d == 7 {
        '7'
    } else if d == 8 {
        '8'
    } else {
        '9'
    }
}

/// The decimal digits of `x`, most significant first.
pub open spec fn dec_digits(x: nat) -> Seq<char>
    decreases x,
{
    if x < 10 {
        seq![digit_char(x)]
    } else {
        dec_digits(x / 10) + seq![digit_char(x % 10)]
    }
}

/// The text of a single decimal digit.
fn digit_str(d: u128) -> (r: &'static str)
    requires
        d < 10,
    ensures
        r@ == seq![digit_char(d as nat)],
{
    proof {
        reveal_strlit("0");
        reveal_strlit("1");
        reveal_strlit("2");
        reveal_strlit("3");
        reveal_strlit("4");
        reveal_strlit("5");
        reveal_strlit("6");
        reveal_strlit("7");
        reveal_strlit("8");
        reveal_strlit("9");
    }
    let r = if d == 0 {
        "0"
    } else if d == 1 {
        "1"
    } else if d == 2 {
        "2"
    } else if d == 3 {
        "3"
    } else if d == 4 {
        "4"
    } else if d == 5 {
        "5"
    } else if d == 6 {
        "6"
    } else if d == 7 {
        "7"
    } else if d == 8 {
        "8"
    } else {
        "9"
    };
    proof {
        assert(r@ =~= seq![digit_char(d as nat)]);
    }
    r
}

/// Writes a number in decimal, most significant digit first.
pub fn u128_to_dec(x: u128) -> (r: String)
    ensures
        r@ == dec_digits(x as nat),
    decreases x,
{
    if x < 10 {
        digit_str(x).to_owned()
    } else {
        let mut s = u128_to_dec(x / 10);
        s.append(digit_str(x % 10));
        s
    }
}

/// Errors raised by the storage engine while a batch is running.
///
/// Each quota variant carries the configured limit that was exceeded, so a
/// caller can display the offending bound; `TripleByteSize` also carries the
/// size of the rejected triple.
#[derive(Debug, Clone, PartialEq, Eq)]
pub enum StoreError {
    /// The running triple count would exceed the store-wide maximum.
    TripleCount(u128),
    /// The number of triples inserted by this batch would exceed its maximum.
    InsertDataTripleCount(u128),
    /// One triple's own byte size exceeds the per-triple maximum.
    TripleByteSize(u128, u128),
    /// The running byte size would exceed the store-wide maximum.
    ByteSize(u128),
    /// The number of bytes inserted by this batch would exceed its maximum.
    InsertDataByteSize(u128),
    /// An IRI holds none of the delimiters `#`, `/`, `:`.
    IriNamespace,
    /// A deletion referenced a namespace that is neither cached nor stored.
    NamespaceNotFound(String),
    /// A nested (quoted) triple was met; those are unsupported.
    NestedTriple,
    /// The selected codec reported a structural parse failure.
    Parse(String),
    /// The selected codec reported a formatting failure.
    Format(String),
}

impl StoreError {
    /// The diagnostic text of the error, naming the configured limit where
    /// one was exceeded.
    pub fn message(&self) -> (r: String)
        ensures
            r@ == match self {
                StoreError::TripleCount(l) => "Maximum triple count exceeded: "@ + dec_digits(
                    *l as nat,
                ),
                StoreError::InsertDataTripleCount(l) => {
                    "Maximum triple count per insertion exceeded: "@ + dec_digits(*l as nat)
                },
                StoreError::TripleByteSize(sz, l) => "Maximum triple byte size exceeded: "@
                    + dec_digits(*sz as nat) + " > "@ + dec_digits(*l as nat),
                StoreError::ByteSize(l) => "Maximum byte size exceeded: "@ + dec_digits(
                    *l as nat,
                ),
                StoreError::InsertDataByteSize(l) => {
                    "Maximum byte size per insertion exceeded: "@ + dec_digits(*l as nat)
                },
                StoreError::IriNamespace => "Couldn't extract IRI namespace"@,
                StoreError::NamespaceNotFound(ns) => "Namespace not found: "@ + ns@,
                StoreError::NestedTriple => "RDF star syntax unsupported"@,
                StoreError::Parse(d) => "Parse error: "@ + d@,
                StoreError::Format(d) => "Format error: "@ + d@,
            },
    {
        match self {
            StoreError::TripleCount(limit) => "Maximum triple count exceeded: ".to_owned()
                .concat(u128_to_dec(*limit).as_str()),
            StoreError::InsertDataTripleCount(limit) => {
                "Maximum triple count per insertion exceeded: ".to_owned().concat(
                    u128_to_dec(*limit).as_str(),
                )
            },
            StoreError::TripleByteSize(size, limit) => "Maximum triple byte size exceeded: "
                .to_owned().concat(u128_to_dec(*size).as_str()).concat(" > ").concat(
                u128_to_dec(*limit).as_str(),
            ),
            StoreError::ByteSize(limit) => "Maximum byte size exceeded: ".to_owned().concat(
                u128_to_dec(*limit).as_str(),
            ),
            StoreError::InsertDataByteSize(limit) => {
                "Maximum byte size per insertion exceeded: ".to_owned().concat(
                    u128_to_dec(*limit).as_str(),
                )
            },
            StoreError::IriNamespace => "Couldn't extract IRI namespace".to_owned(),
            StoreError::NamespaceNotFound(ns) => "Namespace not found: ".to_owned().concat(
                ns.as_str(),
            ),
            StoreError::NestedTriple => "RDF star syntax unsupported".to_owned(),
            StoreError::Parse(d) => "Parse error: ".to_owned().concat(d.as_str()),
            StoreError::Format(d) => "Format error: ".to_owned().concat(d.as_str()),
        }
    }
}

/// Errors raised while resolving an externally-described term.
#[derive(Debug, Clone, PartialEq, Eq)]
pub enum TermError {
    /// The subject position takes a URI or a blank node only.
    UnsupportedSubject,
    /// The predicate position takes a URI only.
    UnsupportedPredicate,
    /// The object position takes a URI, a blank node or a literal only.
    UnsupportedObject,
    /// A CURIE has no `:` separating its prefix from its local part.
    MalformedCurie(String),
    /// A CURIE's prefix is absent from the supplied prefix map.
    PrefixNotFound(String),
}

impl TermError {
    /// The diagnostic text of the error, naming the set of term kinds the
    /// position accepts where one was rejected.
    pub fn message(&self) -> (r: String)
        ensures
            r@ == match self {
                TermError::UnsupportedSubject => {
                    "Unsupported subject value. Expected URI or BlankNode"@
                },
                TermError::UnsupportedPredicate => {
                    "Unsupported predicate value. Expected URI"@
                },
                TermError::UnsupportedObject => {
                    "Unsupported object value. Expected URI, BlankNode or Literal"@
                },
                TermError::MalformedCurie(c) => "Malformed CURIE: "@ + c@,
                TermError::PrefixNotFound(p) => "Prefix not found: "@ + p@,
            },
    {
        match self {
            TermError::UnsupportedSubject => {
                "Unsupported subject value. Expected URI or BlankNode".to_owned()
            },
            TermError::UnsupportedPredicate => {
                "Unsupported predicate value. Expected URI".to_owned()
            },
            TermError::UnsupportedObject => {
                "Unsupported object value. Expected URI, BlankNode or Literal".to_owned()
            },
            TermError::MalformedCurie(c) => "Malformed CURIE: ".to_owned().concat(c.as_str()),
            TermError::PrefixNotFound(p) => "Prefix not found: ".to_owned().concat(
                p.as_str(),
            ),
        }
    }
}

/// Errors raised while decoding an opaque pagination cursor.
#[derive(Debug, Clone, PartialEq, Eq)]
pub enum CursorError {
    /// The cursor text is not valid base-58; carries the decoder's diagnostic.
    InvalidBase58(String),
    /// The decoded bytes are not valid UTF-8; carries the decoder's diagnostic.
    InvalidUtf8(String),
}

impl CursorError {
    /// The diagnostic text of the error, carrying the decoder's own.
    pub fn message(&self) -> (r: String)
        ensures
            r@ == match self {
                CursorError::InvalidBase58(d) => "Error parsing into type Cursor: "@ + d@,
                CursorError::InvalidUtf8(d) => "Error parsing into type Cursor: "@ + d@,
            },
    {
        match self {
            CursorError::InvalidBase58(d) => "Error parsing into type Cursor: ".to_owned()
                .concat(d.as_str()),
            CursorError::InvalidUtf8(d) => "Error parsing into type Cursor: ".to_owned()
                .concat(d.as_str()),
        }
    }
}

#[verifier::external_type_specification]
#[verifier::external_body]
pub struct ExUrlParseError(url::ParseError);

#[verifier::external_type_specification]
#[verifier::external_body]
pub struct ExFromUtf8Error(std::string::FromUtf8Error);

/// Errors raised while handling an engine-addressed URI.
#[derive(Debug, PartialEq, Eq)]
pub enum CosmwasmUriError {
    /// The text is not a well-formed URI.
    ParseURI(url::ParseError),
    /// The URI's query part does not describe a request.
    ParseQuery(String),
    /// A request could not be written into a query part.
    SerializeQuery(String),
    /// The URI is well-formed but not of the expected shape.
    Malformed(String),
}

/// Errors raised while reading a logic term back from its text.
#[derive(Debug, PartialEq, Eq)]
pub enum TermParseError {
    /// The term's bytes are not UTF-8 encoded.
    NotUtf8Value(std::string::FromUtf8Error),
    /// The text ended where more of a term was expected.
    Eof,
    /// Something other than `,` or the end of a sequence followed an
    /// element.
    ExpectedSeqToken(char),
    /// An array or tuple ended where an element was expected.
    UnexpectedEndOfSeq,
    /// A character that cannot occur inside a value.
    UnexpectedValueToken(char),
    /// A character that cannot start a term.
    UnexpectedRootToken(char),
    /// An array or tuple holds an empty element.
    EmptyValue,
    /// A tuple with no elements.
    EmptyTuple,
}

} // verus!
