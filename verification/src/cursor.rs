use vstd::prelude::*;
use crate::errors::CursorError;

verus! {

/// The base-58 text that encodes a byte string.
pub uninterp spec fn b58_of(bytes: Seq<u8>) -> Seq<char>;

/// The byte string a base-58 text denotes, when it is valid base-58.
pub uninterp spec fn b58_decode_of(s: Seq<char>) -> Option<Seq<u8>>;

/// The text a byte string spells, when it is valid UTF-8.
pub uninterp spec fn utf8_decode_of(bytes: Seq<u8>) -> Option<Seq<char>>;

/// Relies on bs58::encode: the base-58 text of the bytes, a function of
/// them alone; empty input encodes to empty text.
#[verifier::external_body]
fn bs58_encode(id: &[u8]) -> (r: String)
    ensures
        r@ == b58_of(id@),
        id@.len() == 0 ==> r@.len() == 0,
{
    bs58::encode(id).into_string()
}

/// Relies on bs58::decode: the bytes a base-58 text denotes, a function
/// of it alone, or the decoder's diagnostic.
#[verifier::external_body]
fn bs58_decode(cursor: &str) -> (r: Result<Vec<u8>, String>)
    ensures
        r is Ok <==> b58_decode_of(cursor@) is Some,
        r matches Ok(v) ==> v@ == b58_decode_of(cursor@)->Some_0,
{
    bs58::decode(cursor).into_vec().map_err(|e| e.to_string())
}

/// Relies on String::from_utf8: the text the bytes spell, when they are
/// valid UTF-8, or the diagnostic.
#[verifier::external_body]
fn utf8_to_string(raw: Vec<u8>) -> (r: Result<String, String>)
    ensures
        r is Ok <==> utf8_decode_of(raw@) is Some,
        r matches Ok(s) ==> s@ == utf8_decode_of(raw@)->Some_0,
{
    String::from_utf8(raw).map_err(|e| e.to_string())
}

/// Encodes an identifier as an opaque base-58 pagination cursor.
pub fn encode(id: &String) -> (r: String)
    ensures
        r@ == b58_of(vstd::utf8::encode_utf8(id@)),
        id@.len() == 0 ==> r@.len() == 0,
{
    proof {
        if id@.len() == 0 {
            assert(vstd::utf8::encode_utf8(id@) =~= Seq::<u8>::empty());
        }
    }
    bs58_encode(id.as_str().as_bytes())
}

/// Decodes an opaque pagination cursor back to the identifier it encodes:
/// the cursor must be valid base-58 and its bytes valid UTF-8, and each
/// failure carries the decoder's diagnostic.
pub fn decode(cursor: &String) -> (r: Result<String, CursorError>)
    ensures
        r is Ok <==> (b58_decode_of(cursor@) matches Some(raw) && utf8_decode_of(raw)
            is Some),
        r matches Ok(s) ==> b58_decode_of(cursor@) matches Some(raw) && utf8_decode_of(raw)
            matches Some(t) && t == s@,
        r matches Err(e) ==> match b58_decode_of(cursor@) {
            None => e matches CursorError::InvalidBase58(_),
            Some(raw) => utf8_decode_of(raw) is None && e matches CursorError::InvalidUtf8(
                _,
            ),
        },
{
    let raw = match bs58_decode(cursor.as_str()) {
        Ok(v) => v,
        Err(d) => {
            return Err(CursorError::InvalidBase58(d));
        },
    };
    match utf8_to_string(raw) {
        Ok(s) => Ok(s),
        Err(d) => Err(CursorError::InvalidUtf8(d)),
    }
}

/// Paginated listings hand an opaque cursor out for an item and read one
/// back; an implementor ties its own key type to the cursor text.
pub trait AsCursor<PK> {
    /// The cursor standing for this item.
    fn encode(&self) -> String;

    /// The key a cursor stands for.
    fn decode(cursor: String) -> Result<PK, CursorError>;
}

} // verus!
