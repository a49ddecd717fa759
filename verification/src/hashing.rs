use vstd::prelude::*;
use vstd::utf8::encode_utf8;
use crate::state::{NodeV, Object, ObjectV};

verus! {

/// Byte `i` (big-endian) of a 128-bit integer.
pub open spec fn be_byte(x: u128, i: int) -> u8 {
    ((x >> (((15 - i) * 8) as u128)) & 0xff) as u8
}

/// The 16-byte big-endian encoding of a 128-bit integer.
pub open spec fn u128_be(x: u128) -> Seq<u8> {
    Seq::new(16, |i| be_byte(x, i))
}

/// The canonical encoding of an interned named term: its namespace key in
/// big-endian, then the UTF-8 bytes of its local name.
pub open spec fn canon_node(n: NodeV) -> Seq<u8> {
    u128_be(n.namespace) + encode_utf8(n.value)
}

/// The canonical encoding of an interned object, the digest's input: a tag
/// byte for the object's kind, then its parts.  The parts of a two-part
/// literal are separated by `0xFF`, a byte no UTF-8 text contains.
pub open spec fn canon_object(o: ObjectV) -> Seq<u8> {
    match o {
        ObjectV::Named(n) => seq![1u8] + canon_node(n),
        ObjectV::Blank(id) => seq![2u8] + encode_utf8(id),
        ObjectV::Literal(l) => match l {
            crate::state::LiteralV::Simple { value } => seq![3u8] + encode_utf8(value),
            crate::state::LiteralV::I18NString { value, language } => seq![4u8] + encode_utf8(
                value,
            ) + seq![0xffu8] + encode_utf8(language),
            crate::state::LiteralV::Typed { value, datatype } => seq![5u8] + encode_utf8(value)
                + seq![0xffu8] + canon_node(datatype),
        },
    }
}

/// The digest an object is clustered under in the triple table.
pub uninterp spec fn blake3_of(input: Seq<u8>) -> Seq<u8>;

/// Relies on blake3::hash: a 32-byte digest that depends on the input
/// bytes alone.
#[verifier::external_body]
fn blake3_hash(input: &[u8]) -> (r: Vec<u8>)
    ensures
        r@ == blake3_of(input@),
        r@.len() == 32,
{
    blake3::hash(input).as_bytes().to_vec()
}

/// Appends the 16-byte big-endian encoding of `x`.
fn push_u128_be(dst: &mut Vec<u8>, x: u128)
    ensures
        final(dst)@ == old(dst)@ + u128_be(x),
{
    let ghost base = dst@;
    let mut i: usize = 0;
    while i < 16
        invariant
            i <= 16,
            dst@ == base + u128_be(x).take(i as int),
        decreases 16 - i,
    {
        let sh: u128 = ((15 - i) * 8) as u128;
        let b: u8 = ((x >> sh) & 0xff) as u8;
        dst.push(b);
        proof {
            assert(b == be_byte(x, i as int));
            assert(u128_be(x).take(i + 1) =~= u128_be(x).take(i as int).push(
                be_byte(x, i as int),
            ));
            assert(dst@ =~= base + u128_be(x).take(i + 1));
        }
        i = i + 1;
    }
    proof {
        assert(u128_be(x).take(16) =~= u128_be(x));
    }
}

/// Appends the canonical encoding of a named term.
fn push_node(dst: &mut Vec<u8>, n: &crate::state::Node)
    ensures
        final(dst)@ == old(dst)@ + canon_node(n@),
{
    push_u128_be(dst, n.namespace);
    dst.extend_from_slice(n.value.as_str().as_bytes());
    proof {
        assert(dst@ =~= old(dst)@ + canon_node(n@));
    }
}

/// The canonical byte encoding of an interned object.
pub fn canonical_bytes(o: &Object) -> (r: Vec<u8>)
    ensures
        r@ == canon_object(o@),
{
    let mut out: Vec<u8> = Vec::new();
    match o {
        Object::Named(n) => {
            out.push(1u8);
            push_node(&mut out, n);
        },
        Object::Blank(id) => {
            out.push(2u8);
            out.extend_from_slice(id.as_str().as_bytes());
        },
        Object::Literal(crate::state::StoredLiteral::Simple { value }) => {
            out.push(3u8);
            out.extend_from_slice(value.as_str().as_bytes());
        },
        Object::Literal(crate::state::StoredLiteral::I18NString { value, language }) => {
            out.push(4u8);
            out.extend_from_slice(value.as_str().as_bytes());
            out.push(0xffu8);
            out.extend_from_slice(language.as_str().as_bytes());
        },
        Object::Literal(crate::state::StoredLiteral::Typed { value, datatype }) => {
            out.push(5u8);
            out.extend_from_slice(value.as_str().as_bytes());
            out.push(0xffu8);
            push_node(&mut out, datatype);
        },
    }
    proof {
        assert(out@ =~= canon_object(o@));
    }
    out
}

/// The 32-byte digest an object's persisted placement is derived from.
pub fn object_hash(o: &Object) -> (r: Vec<u8>)
    ensures
        r@ == blake3_of(canon_object(o@)),
        r@.len() == 32,
{
    let bytes = canonical_bytes(o);
    blake3_hash(bytes.as_slice())
}

} // verus!
