use vstd::prelude::*;
use crate::errors::StoreError;
use crate::msg::DataFormat;
use crate::rdf::{no_nested, RawObject, RawSubject, RawTriple, RawTripleV};
use rio_api::formatter::{QuadsFormatter, TriplesFormatter};
use rio_api::parser::{QuadsParser, TriplesParser};
use rio_turtle::{NQuadsFormatter, NTriplesFormatter, TurtleFormatter};
use rio_xml::RdfXmlFormatter;

verus! {

/// The mathematical values of a parsed document's statements.
pub open spec fn raw_seq_v(ts: Seq<RawTriple>) -> Seq<RawTripleV> {
    Seq::new(ts.len(), |i: int| ts[i]@)
}

#[verifier::external_type_specification]
#[verifier::external_body]
pub struct ExRioTriple<'a>(rio_api::model::Triple<'a>);

#[verifier::external_type_specification]
#[verifier::external_body]
pub struct ExRioSubject<'a>(rio_api::model::Subject<'a>);

#[verifier::external_type_specification]
#[verifier::external_body]
pub struct ExRioTerm<'a>(rio_api::model::Term<'a>);

#[verifier::external_type_specification]
#[verifier::external_body]
pub struct ExRioLiteral<'a>(rio_api::model::Literal<'a>);

/// Holds rio_turtle's stateful N-Triples formatter over an in-memory sink.
#[verifier::external_body]
pub struct NtFormatter {
    inner: NTriplesFormatter<Vec<u8>>,
}

/// Holds rio_turtle's stateful Turtle formatter over an in-memory sink.
#[verifier::external_body]
pub struct TtlFormatter {
    inner: TurtleFormatter<Vec<u8>>,
}

/// Holds rio_turtle's stateful N-Quads formatter over an in-memory sink.
#[verifier::external_body]
pub struct NqFormatter {
    inner: NQuadsFormatter<Vec<u8>>,
}

/// Holds rio_xml's stateful RDF/XML formatter over an in-memory sink.
#[verifier::external_body]
pub struct XmlFormatter {
    inner: RdfXmlFormatter<Vec<u8>>,
}

/// Converts one borrowed subject of rio's model into an owned one, one
/// variant to one variant.
#[verifier::external_body]
fn parsed_subject(s: rio_api::model::Subject<'_>) -> RawSubject {
    match s {
        rio_api::model::Subject::NamedNode(n) => RawSubject::Named(n.iri.to_string()),
        rio_api::model::Subject::BlankNode(b) => RawSubject::Blank(b.id.to_string()),
        rio_api::model::Subject::Triple(_) => RawSubject::Nested,
    }
}

/// Converts one borrowed literal of rio's model into an owned object, one
/// variant to one variant.
#[verifier::external_body]
fn parsed_literal(l: rio_api::model::Literal<'_>) -> RawObject {
    match l {
        rio_api::model::Literal::Simple { value } => RawObject::LiteralSimple(
            value.to_string(),
        ),
        rio_api::model::Literal::LanguageTaggedString { value, language } => {
            RawObject::LiteralLang(value.to_string(), language.to_string())
        },
        rio_api::model::Literal::Typed { value, datatype } => RawObject::LiteralTyped(
            value.to_string(),
            datatype.iri.to_string(),
        ),
    }
}

/// Converts one borrowed object term of rio's model into an owned one, one
/// variant to one variant.
#[verifier::external_body]
fn parsed_object(o: rio_api::model::Term<'_>) -> RawObject {
    match o {
        rio_api::model::Term::NamedNode(n) => RawObject::Named(n.iri.to_string()),
        rio_api::model::Term::BlankNode(b) => RawObject::Blank(b.id.to_string()),
        rio_api::model::Term::Literal(l) => parsed_literal(l),
        rio_api::model::Term::Triple(_) => RawObject::Nested,
    }
}

/// Converts one borrowed statement of rio's model into an owned one.
#[verifier::external_body]
fn parsed_of_rio(t: rio_api::model::Triple<'_>) -> RawTriple {
    RawTriple {
        subject: parsed_subject(t.subject),
        predicate: t.predicate.iri.to_string(),
        object: parsed_object(t.object),
    }
}

/// Borrows an owned subject as one of rio's model; a nested marker cannot
/// be represented, so it is left out by the callers' preconditions.
#[verifier::external_body]
fn rio_subject_of<'a>(s: &'a RawSubject) -> rio_api::model::Subject<'a>
    requires
        !(s@ matches crate::rdf::RawSubjectV::Nested),
{
    match s {
        RawSubject::Named(iri) => rio_api::model::Subject::NamedNode(
            rio_api::model::NamedNode { iri },
        ),
        RawSubject::Blank(id) => rio_api::model::Subject::BlankNode(
            rio_api::model::BlankNode { id },
        ),
        // excluded by the precondition
        RawSubject::Nested => rio_api::model::Subject::BlankNode(rio_api::model::BlankNode {
            id: "",
        }),
    }
}

/// Borrows an owned literal object as one of rio's model literals.
#[verifier::external_body]
fn rio_literal_of<'a>(o: &'a RawObject) -> rio_api::model::Literal<'a>
    requires
        o@ matches crate::rdf::RawObjectV::LiteralSimple(_) || o@
            matches crate::rdf::RawObjectV::LiteralLang(_, _) || o@
            matches crate::rdf::RawObjectV::LiteralTyped(_, _),
{
    match o {
        RawObject::LiteralSimple(value) => rio_api::model::Literal::Simple { value },
        RawObject::LiteralLang(value, language) => {
            rio_api::model::Literal::LanguageTaggedString { value, language }
        },
        RawObject::LiteralTyped(value, datatype) => rio_api::model::Literal::Typed {
            value,
            datatype: rio_api::model::NamedNode { iri: datatype },
        },
        // excluded by the precondition
        _ => rio_api::model::Literal::Simple { value: "" },
    }
}

/// Borrows an owned object as one of rio's model terms.
#[verifier::external_body]
fn rio_term_of<'a>(o: &'a RawObject) -> rio_api::model::Term<'a>
    requires
        !(o@ matches crate::rdf::RawObjectV::Nested),
{
    match o {
        RawObject::Named(iri) => rio_api::model::Term::NamedNode(rio_api::model::NamedNode {
            iri,
        }),
        RawObject::Blank(id) => rio_api::model::Term::BlankNode(rio_api::model::BlankNode {
            id,
        }),
        // excluded by the precondition
        RawObject::Nested => rio_api::model::Term::BlankNode(rio_api::model::BlankNode {
            id: "",
        }),
        _ => rio_api::model::Term::Literal(rio_literal_of(o)),
    }
}

/// Borrows an owned statement as one of rio's model.
#[verifier::external_body]
fn rio_of_raw<'a>(t: &'a RawTriple) -> rio_api::model::Triple<'a>
    requires
        no_nested(t@),
{
    rio_api::model::Triple {
        subject: rio_subject_of(&t.subject),
        predicate: rio_api::model::NamedNode { iri: &t.predicate },
        object: rio_term_of(&t.object),
    }
}

/// What parsing a byte stream as N-Triples yields, when it parses.
pub uninterp spec fn nt_parse(input: Seq<u8>) -> Option<Seq<RawTripleV>>;

/// What parsing a byte stream as Turtle yields, when it parses.
pub uninterp spec fn turtle_parse(input: Seq<u8>) -> Option<Seq<RawTripleV>>;

/// What parsing a byte stream as N-Quads yields, when it parses; the
/// graph component of each quad is discarded.
pub uninterp spec fn nq_parse(input: Seq<u8>) -> Option<Seq<RawTripleV>>;

/// What parsing a byte stream as RDF/XML yields, when it parses.
pub uninterp spec fn xml_parse(input: Seq<u8>) -> Option<Seq<RawTripleV>>;

/// Relies on rio_turtle's NTriplesParser: the statements a byte stream
/// holds, read in order, or the first structural failure's diagnostic.
#[verifier::external_body]
fn parse_ntriples(input: &[u8]) -> (r: Result<Vec<RawTriple>, String>)
    ensures
        r is Ok <==> nt_parse(input@) is Some,
        r matches Ok(v) ==> raw_seq_v(v@) == nt_parse(input@)->Some_0,
{
    let mut out: Vec<RawTriple> = Vec::new();
    let res = rio_turtle::NTriplesParser::new(input).parse_all(
        &mut |t: rio_api::model::Triple<'_>| -> Result<(), rio_turtle::TurtleError> {
            out.push(parsed_of_rio(t));
            Ok(())
        },
    );
    match res {
        Ok(()) => Ok(out),
        Err(e) => Err(e.to_string()),
    }
}

/// Relies on rio_turtle's TurtleParser: the statements a byte stream
/// holds, read in order, or the first structural failure's diagnostic.
#[verifier::external_body]
fn parse_turtle(input: &[u8]) -> (r: Result<Vec<RawTriple>, String>)
    ensures
        r is Ok <==> turtle_parse(input@) is Some,
        r matches Ok(v) ==> raw_seq_v(v@) == turtle_parse(input@)->Some_0,
{
    let mut out: Vec<RawTriple> = Vec::new();
    let res = rio_turtle::TurtleParser::new(input, None).parse_all(
        &mut |t: rio_api::model::Triple<'_>| -> Result<(), rio_turtle::TurtleError> {
            out.push(parsed_of_rio(t));
            Ok(())
        },
    );
    match res {
        Ok(()) => Ok(out),
        Err(e) => Err(e.to_string()),
    }
}

/// Relies on rio_turtle's NQuadsParser: the statements a byte stream
/// holds, each quad projected onto a triple with its graph component
/// discarded, or the first structural failure's diagnostic.
#[verifier::external_body]
fn parse_nquads(input: &[u8]) -> (r: Result<Vec<RawTriple>, String>)
    ensures
        r is Ok <==> nq_parse(input@) is Some,
        r matches Ok(v) ==> raw_seq_v(v@) == nq_parse(input@)->Some_0,
{
    let mut out: Vec<RawTriple> = Vec::new();
    let res = rio_turtle::NQuadsParser::new(input).parse_all(
        &mut |q: rio_api::model::Quad<'_>| -> Result<(), rio_turtle::TurtleError> {
            out.push(parsed_of_rio(rio_api::model::Triple {
                subject: q.subject,
                predicate: q.predicate,
                object: q.object,
            }));
            Ok(())
        },
    );
    match res {
        Ok(()) => Ok(out),
        Err(e) => Err(e.to_string()),
    }
}

/// Relies on rio_xml's RdfXmlParser: the statements a byte stream holds,
/// read in order, or the first structural failure's diagnostic.
#[verifier::external_body]
fn parse_rdfxml(input: &[u8]) -> (r: Result<Vec<RawTriple>, String>)
    ensures
        r is Ok <==> xml_parse(input@) is Some,
        r matches Ok(v) ==> raw_seq_v(v@) == xml_parse(input@)->Some_0,
{
    let mut out: Vec<RawTriple> = Vec::new();
    let res = rio_xml::RdfXmlParser::new(input, None).parse_all(
        &mut |t: rio_api::model::Triple<'_>| -> Result<(), rio_xml::RdfXmlError> {
            out.push(parsed_of_rio(t));
            Ok(())
        },
    );
    match res {
        Ok(()) => Ok(out),
        Err(e) => Err(e.to_string()),
    }
}

/// What parsing a byte stream in the selected format yields.
pub open spec fn parse_of(format: DataFormat, input: Seq<u8>) -> Option<Seq<RawTripleV>> {
    match format {
        DataFormat::NTriples => nt_parse(input),
        DataFormat::Turtle => turtle_parse(input),
        DataFormat::NQuads => nq_parse(input),
        DataFormat::RDFXml => xml_parse(input),
    }
}

/// Reads statements out of an in-memory document in one of the four
/// formats.
pub struct TripleReader {
    pub format: DataFormat,
    pub src: Vec<u8>,
}

impl TripleReader {
    /// A reader over a document in the selected format.
    pub fn new(format: DataFormat, src: Vec<u8>) -> (r: Self)
        ensures
            r.format == format,
            r.src@ == src@,
    {
        TripleReader { format, src }
    }

    /// Parses the whole document: all its statements in order, or the
    /// format-specific diagnostic of the first structural failure.
    pub fn read_all(&self) -> (r: Result<Vec<RawTriple>, StoreError>)
        ensures
            r is Ok <==> parse_of(self.format, self.src@) is Some,
            r matches Ok(v) ==> raw_seq_v(v@) == parse_of(self.format, self.src@)->Some_0,
            r matches Err(e) ==> e matches StoreError::Parse(_),
    {
        let parsed = match self.format {
            DataFormat::NTriples => parse_ntriples(self.src.as_slice()),
            DataFormat::Turtle => parse_turtle(self.src.as_slice()),
            DataFormat::NQuads => parse_nquads(self.src.as_slice()),
            DataFormat::RDFXml => parse_rdfxml(self.src.as_slice()),
        };
        match parsed {
            Ok(v) => Ok(v),
            Err(d) => Err(StoreError::Parse(d)),
        }
    }
}

/// What an N-Triples formatter has been handed so far.
pub uninterp spec fn nt_written(f: NtFormatter) -> Seq<RawTripleV>;

/// What a Turtle formatter has been handed so far.
pub uninterp spec fn turtle_written(f: TtlFormatter) -> Seq<RawTripleV>;

/// What an N-Quads formatter has been handed so far.
pub uninterp spec fn nq_written(f: NqFormatter) -> Seq<RawTripleV>;

/// What an RDF/XML formatter has been handed so far.
pub uninterp spec fn xml_written(f: XmlFormatter) -> Seq<RawTripleV>;

/// The bytes the N-Triples formatter emits for a sequence of statements.
pub uninterp spec fn nt_bytes(ts: Seq<RawTripleV>) -> Seq<u8>;

/// The bytes the Turtle formatter emits for a sequence of statements.
pub uninterp spec fn turtle_bytes(ts: Seq<RawTripleV>) -> Seq<u8>;

/// The bytes the N-Quads formatter emits for a sequence of statements,
/// each wrapped with the default (absent) graph component.
pub uninterp spec fn nq_bytes(ts: Seq<RawTripleV>) -> Seq<u8>;

/// The bytes the RDF/XML formatter emits for a sequence of statements.
pub uninterp spec fn xml_bytes(ts: Seq<RawTripleV>) -> Seq<u8>;

/// Relies on rio_turtle's NTriplesFormatter::new: a fresh formatter has
/// been handed nothing.
#[verifier::external_body]
fn new_ntriples() -> (f: NtFormatter)
    ensures
        nt_written(f) == Seq::<RawTripleV>::empty(),
{
    NtFormatter { inner: NTriplesFormatter::new(Vec::new()) }
}

/// Relies on rio_turtle's TurtleFormatter::new: a fresh formatter has
/// been handed nothing.
#[verifier::external_body]
fn new_turtle() -> (f: TtlFormatter)
    ensures
        turtle_written(f) == Seq::<RawTripleV>::empty(),
{
    TtlFormatter { inner: TurtleFormatter::new(Vec::new()) }
}

/// Relies on rio_turtle's NQuadsFormatter::new: a fresh formatter has
/// been handed nothing.
#[verifier::external_body]
fn new_nquads() -> (f: NqFormatter)
    ensures
        nq_written(f) == Seq::<RawTripleV>::empty(),
{
    NqFormatter { inner: NQuadsFormatter::new(Vec::new()) }
}

/// Relies on rio_xml's RdfXmlFormatter::new: a fresh formatter has been
/// handed nothing; building it may fail while writing the document head.
#[verifier::external_body]
fn new_rdfxml() -> (r: Result<XmlFormatter, String>)
    ensures
        r matches Ok(f) ==> xml_written(f) == Seq::<RawTripleV>::empty(),
{
    match RdfXmlFormatter::new(Vec::new()) {
        Ok(f) => Ok(XmlFormatter { inner: f }),
        Err(e) => Err(e.to_string()),
    }
}

/// Relies on rio_api's TriplesFormatter::format for N-Triples: the
/// statement joins what was handed before.  Its only failure path is an
/// error of the sink, and the in-memory sink cannot fail.
#[verifier::external_body]
fn format_ntriples(f: &mut NtFormatter, t: &RawTriple) -> (r: Result<
    (),
    String,
>)
    requires
        no_nested(t@),
    ensures
        r is Ok,
        nt_written(*final(f)) == nt_written(*old(f)).push(t@),
{
    f.inner.format(&rio_of_raw(t)).map_err(|e| e.to_string())
}

/// Relies on rio_api's TriplesFormatter::format for Turtle: the
/// statement joins what was handed before.  Its only failure paths are
/// errors of the sink, and the in-memory sink cannot fail.
#[verifier::external_body]
fn format_turtle(f: &mut TtlFormatter, t: &RawTriple) -> (r: Result<(), String>)
    requires
        no_nested(t@),
    ensures
        r is Ok,
        turtle_written(*final(f)) == turtle_written(*old(f)).push(t@),
{
    f.inner.format(&rio_of_raw(t)).map_err(|e| e.to_string())
}

/// Relies on rio_api's QuadsFormatter::format for N-Quads: the statement
/// is wrapped with the default graph and joins what was handed before.
/// Its only failure path is an error of the sink, and the in-memory sink
/// cannot fail.
#[verifier::external_body]
fn format_nquads(f: &mut NqFormatter, t: &RawTriple) -> (r: Result<(), String>)
    requires
        no_nested(t@),
    ensures
        r is Ok,
        nq_written(*final(f)) == nq_written(*old(f)).push(t@),
{
    let triple = rio_of_raw(t);
    let quad = rio_api::model::Quad {
        subject: triple.subject,
        predicate: triple.predicate,
        object: triple.object,
        graph_name: None,
    };
    f.inner.format(&quad).map_err(|e| e.to_string())
}

/// Relies on rio_api's TriplesFormatter::format for RDF/XML: the
/// statement joins what was handed before.  Its non-sink failure paths
/// concern quoted (nested) terms only, which the precondition excludes;
/// the remaining paths are errors of the sink, and the in-memory sink
/// cannot fail.
#[verifier::external_body]
fn format_rdfxml(f: &mut XmlFormatter, t: &RawTriple) -> (r: Result<(), String>)
    requires
        no_nested(t@),
    ensures
        r is Ok,
        xml_written(*final(f)) == xml_written(*old(f)).push(t@),
{
    f.inner.format(&rio_of_raw(t)).map_err(|e| e.to_string())
}

/// Relies on rio_turtle's NTriplesFormatter::finish: the sink holds the
/// bytes for exactly the statements handed in.  Its only failure paths
/// are errors of the sink, and flushing the in-memory sink cannot fail.
#[verifier::external_body]
fn finish_ntriples(f: NtFormatter) -> (r: Result<Vec<u8>, String>)
    ensures
        r is Ok,
        r matches Ok(b) ==> b@ == nt_bytes(nt_written(f)),
{
    f.inner.finish().map_err(|e| e.to_string())
}

/// Relies on rio_turtle's TurtleFormatter::finish: the sink holds the
/// bytes for exactly the statements handed in.  Its only failure paths
/// are errors of the sink, and flushing the in-memory sink cannot fail.
#[verifier::external_body]
fn finish_turtle(f: TtlFormatter) -> (r: Result<Vec<u8>, String>)
    ensures
        r is Ok,
        r matches Ok(b) ==> b@ == turtle_bytes(turtle_written(f)),
{
    f.inner.finish().map_err(|e| e.to_string())
}

/// Relies on rio_turtle's NQuadsFormatter::finish: the sink holds the
/// bytes for exactly the statements handed in.  Its only failure paths
/// are errors of the sink, and flushing the in-memory sink cannot fail.
#[verifier::external_body]
fn finish_nquads(f: NqFormatter) -> (r: Result<Vec<u8>, String>)
    ensures
        r is Ok,
        r matches Ok(b) ==> b@ == nq_bytes(nq_written(f)),
{
    f.inner.finish().map_err(|e| e.to_string())
}

/// Relies on rio_xml's RdfXmlFormatter::finish: the sink holds the bytes
/// for exactly the statements handed in, the document closed.  Its only
/// failure paths are errors of the sink (the closing tags are written
/// into it), and the in-memory sink cannot fail.
#[verifier::external_body]
fn finish_rdfxml(f: XmlFormatter) -> (r: Result<Vec<u8>, String>)
    ensures
        r is Ok,
        r matches Ok(b) ==> b@ == xml_bytes(xml_written(f)),
{
    f.inner.finish().map_err(|e| e.to_string())
}

/// The four stateful formatters; the RDF/XML one carries its
/// construction failure, surfaced at the first write, as the head of the
/// document is emitted when it is built.
pub enum TriplesWriterKind {
    NTriples(NtFormatter),
    Turtle(TtlFormatter),
    RdfXml(Result<XmlFormatter, String>),
    NQuads(NqFormatter),
}

/// Writes statements one at a time into an in-memory document in one of
/// the four formats; `finish` closes the document and hands the bytes
/// out.
pub struct TripleWriter {
    writer: TriplesWriterKind,
}

/// The bytes the selected format's formatter emits for a sequence of
/// statements.
pub open spec fn bytes_of(format: DataFormat, ts: Seq<RawTripleV>) -> Seq<u8> {
    match format {
        DataFormat::NTriples => nt_bytes(ts),
        DataFormat::Turtle => turtle_bytes(ts),
        DataFormat::NQuads => nq_bytes(ts),
        DataFormat::RDFXml => xml_bytes(ts),
    }
}

impl TripleWriter {
    /// The statements handed in so far.
    pub closed spec fn written(self) -> Seq<RawTripleV> {
        match self.writer {
            TriplesWriterKind::NTriples(f) => nt_written(f),
            TriplesWriterKind::Turtle(f) => turtle_written(f),
            TriplesWriterKind::NQuads(f) => nq_written(f),
            TriplesWriterKind::RdfXml(r) => match r {
                Ok(f) => xml_written(f),
                Err(_) => Seq::empty(),
            },
        }
    }

    /// The format this writer emits.
    pub closed spec fn format_tag(self) -> DataFormat {
        match self.writer {
            TriplesWriterKind::NTriples(_) => DataFormat::NTriples,
            TriplesWriterKind::Turtle(_) => DataFormat::Turtle,
            TriplesWriterKind::NQuads(_) => DataFormat::NQuads,
            TriplesWriterKind::RdfXml(_) => DataFormat::RDFXml,
        }
    }

    /// True when the writer carries the RDF/XML construction failure it
    /// was built with; every write and the final flush then surface its
    /// diagnostic as a formatting error.
    pub closed spec fn failed(self) -> bool {
        self.writer matches TriplesWriterKind::RdfXml(state) && state is Err
    }

    /// The stored construction diagnostic, when the writer failed.
    pub closed spec fn fail_diag(self) -> Seq<char> {
        match self.writer {
            TriplesWriterKind::RdfXml(state) => match state {
                Ok(_) => Seq::empty(),
                Err(d) => d@,
            },
            _ => Seq::empty(),
        }
    }

    /// A writer emitting the selected format into an in-memory document.
    pub fn new(format: DataFormat) -> (r: Self)
        ensures
            r.format_tag() == format,
            r.written() == Seq::<RawTripleV>::empty(),
            format != DataFormat::RDFXml ==> !r.failed(),
    {
        TripleWriter {
            writer: match format {
                DataFormat::NTriples => TriplesWriterKind::NTriples(new_ntriples()),
                DataFormat::Turtle => TriplesWriterKind::Turtle(new_turtle()),
                DataFormat::NQuads => TriplesWriterKind::NQuads(new_nquads()),
                DataFormat::RDFXml => TriplesWriterKind::RdfXml(new_rdfxml()),
            },
        }
    }

    /// Writes one statement.  A nested statement is rejected with the
    /// dedicated error; a writer carrying its construction failure
    /// surfaces that diagnostic as a formatting error and writes nothing;
    /// every other write succeeds and the statement joins the document.
    pub fn write(&mut self, triple: &RawTriple) -> (r: Result<(), StoreError>)
        ensures
            final(self).format_tag() == old(self).format_tag(),
            final(self).failed() == old(self).failed(),
            final(self).fail_diag() == old(self).fail_diag(),
            !no_nested(triple@) ==> r == Err::<(), StoreError>(StoreError::NestedTriple)
                && *final(self) == *old(self),
            no_nested(triple@) && old(self).failed() ==> (r matches Err(e) && (e
                matches StoreError::Format(d) && d@ == old(self).fail_diag()))
                && final(self).written() == old(self).written(),
            no_nested(triple@) && !old(self).failed() ==> r is Ok && final(self).written()
                == old(self).written().push(triple@),
    {
        let nested = match &triple.subject {
            RawSubject::Nested => true,
            _ => match &triple.object {
                RawObject::Nested => true,
                _ => false,
            },
        };
        if nested {
            return Err(StoreError::NestedTriple);
        }
        let res = match &mut self.writer {
            TriplesWriterKind::NTriples(f) => format_ntriples(f, triple),
            TriplesWriterKind::Turtle(f) => format_turtle(f, triple),
            TriplesWriterKind::NQuads(f) => format_nquads(f, triple),
            TriplesWriterKind::RdfXml(state) => match state {
                Ok(f) => format_rdfxml(f, triple),
                Err(d) => Err(d.clone()),
            },
        };
        match res {
            Ok(()) => Ok(()),
            Err(d) => Err(StoreError::Format(d)),
        }
    }

    /// Writes a batch of statements in order; a batch free of nested
    /// statements, on a writer not carrying a construction failure, is
    /// written whole.
    pub fn write_all(&mut self, triples: &Vec<RawTriple>) -> (r: Result<(), StoreError>)
        ensures
            final(self).format_tag() == old(self).format_tag(),
            final(self).failed() == old(self).failed(),
            final(self).fail_diag() == old(self).fail_diag(),
            r is Ok ==> final(self).written() == old(self).written() + raw_seq_v(triples@),
            (!old(self).failed() && (forall|i: int|
                0 <= i < triples@.len() ==> no_nested(#[trigger] triples@[i]@))) ==> r
                is Ok,
    {
        let n = triples.len();
        let mut i: usize = 0;
        while i < n
            invariant
                i <= n,
                n == triples@.len(),
                self.format_tag() == old(self).format_tag(),
                self.failed() == old(self).failed(),
                self.fail_diag() == old(self).fail_diag(),
                self.written() == old(self).written() + raw_seq_v(triples@).take(i as int),
            decreases n - i,
        {
            proof {
                assert(raw_seq_v(triples@).take(i + 1) =~= raw_seq_v(triples@).take(
                    i as int,
                ).push(triples@[i as int]@));
            }
            match self.write(&triples[i]) {
                Ok(()) => {
                    proof {
                        assert(self.written() =~= old(self).written() + raw_seq_v(
                            triples@,
                        ).take(i + 1));
                    }
                },
                Err(e) => {
                    return Err(e);
                },
            }
            i = i + 1;
        }
        proof {
            assert(raw_seq_v(triples@).take(n as int) =~= raw_seq_v(triples@));
        }
        Ok(())
    }

    /// Closes the document and hands its bytes out: exactly what the
    /// selected format's formatter emits for the statements written.  It
    /// fails only on a writer carrying its construction failure, whose
    /// diagnostic it surfaces as a formatting error.
    pub fn finish(self) -> (r: Result<Vec<u8>, StoreError>)
        ensures
            !self.failed() ==> (r matches Ok(b) && b@ == bytes_of(
                self.format_tag(),
                self.written(),
            )),
            self.failed() ==> (r matches Err(e) && (e matches StoreError::Format(d) && d@
                == self.fail_diag())),
    {
        let res = match self.writer {
            TriplesWriterKind::NTriples(f) => finish_ntriples(f),
            TriplesWriterKind::Turtle(f) => finish_turtle(f),
            TriplesWriterKind::NQuads(f) => finish_nquads(f),
            TriplesWriterKind::RdfXml(state) => match state {
                Ok(f) => finish_rdfxml(f),
                Err(d) => Err(d),
            },
        };
        match res {
            Ok(b) => Ok(b),
            Err(d) => Err(StoreError::Format(d)),
        }
    }
}

} // verus!
