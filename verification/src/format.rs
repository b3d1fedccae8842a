//! Tools to encode and decode field data to binary representations.
//!
//! * [`fldx`]: the community `.fldx` format, with support for dynamic width
//!   and height values.
//! * [`fld`]: the game's own `.fld` format.
//!
//! Either byte stream can also travel as a URL-safe, padded Base64 string; a
//! pure wrapper with no effect on the formats themselves.

pub mod fld;
pub mod fldx;

use vstd::prelude::*;

verus! {

/// An error that indicates an invalid size of the input data.
#[derive(Clone, Copy, Debug, PartialEq, Eq, Structural)]
pub struct InvalidSize {
    /// The panel count the dimensions call for.
    pub expected: usize,
    /// The panel count the stream actually holds.
    pub got: usize,
}

impl InvalidSize {
    /// Creates a new `InvalidSize`.
    pub fn new(expected: usize, got: usize) -> (r: InvalidSize)
        ensures
            r.expected == expected,
            r.got == got,
    {
        InvalidSize { expected, got }
    }
}

/// An error raised while decoding field data.
#[derive(Clone, Copy, Debug, PartialEq, Eq, Structural)]
pub enum FormatError {
    /// A kind byte does not map to any panel kind; carries the byte.
    UnknownPanelKind(u8),
    /// The decoded panel count does not match the required dimensions.
    SizeMismatch(InvalidSize),
    /// Fewer bytes than a header or a whole panel record requires.
    UnexpectedEndOfInput,
    /// The textual transport does not hold valid Base64.
    InvalidBase64,
}

/// The value of a little-endian 16-bit integer with the given two bytes.
pub open spec fn spec_u16_le(b0: u8, b1: u8) -> u16 {
    (b0 + b1 * 256) as u16
}

/// The two little-endian bytes of a 16-bit integer.
pub open spec fn spec_u16_le_bytes(v: u16) -> Seq<u8> {
    seq![(v % 256) as u8, (v / 256) as u8]
}

/// The two little-endian bytes of a value read back as that value.
pub proof fn lemma_u16_le_roundtrip(v: u16)
    ensures
        spec_u16_le(spec_u16_le_bytes(v)[0], spec_u16_le_bytes(v)[1]) == v,
{
}

/// Reads the little-endian 16-bit integer at byte offset `pos` of `input`.
pub fn read_u16(input: &[u8], pos: usize) -> (r: u16)
    requires
        pos + 2 <= input@.len(),
    ensures
        r == spec_u16_le(input@[pos as int], input@[pos + 1]),
{
    (input[pos] as u16) + (input[pos + 1] as u16) * 256
}

/// Appends a 16-bit integer to `output` as two little-endian bytes.
pub fn write_u16(output: &mut Vec<u8>, data: u16)
    ensures
        final(output)@ == old(output)@ + spec_u16_le_bytes(data),
{
    output.push((data % 256) as u8);
    output.push((data / 256) as u8);
    proof {
        assert(output@ =~= old(output)@ + spec_u16_le_bytes(data));
    }
}

/// The URL-safe, padded Base64 text of a byte sequence.
pub uninterp spec fn spec_base64(bytes: Seq<u8>) -> Seq<char>;

/// Relies on base64's `URL_SAFE` engine, `Engine::encode`: the text it
/// returns is a function of the input bytes alone. The length bound keeps
/// the engine's output-size calculation from overflowing.
#[verifier::external_body]
pub(crate) fn base64_encode(bytes: &Vec<u8>) -> (r: String)
    requires
        bytes@.len() <= usize::MAX / 2,
    ensures
        r@ == spec_base64(bytes@),
{
    base64::Engine::encode(&base64::engine::general_purpose::URL_SAFE, bytes)
}

/// Relies on base64's `URL_SAFE` engine, `Engine::decode`: decoding is strict
/// (canonical padding, no trailing bits), so any text this engine produced
/// decodes back to exactly the bytes it was produced from.
#[verifier::external_body]
pub(crate) fn base64_decode(s: &str) -> (r: Option<Vec<u8>>)
    ensures
        forall|bs: Seq<u8>| s@ == spec_base64(bs) ==> r is Some && r.unwrap()@ == bs,
{
    match base64::Engine::decode(&base64::engine::general_purpose::URL_SAFE, s) {
        Ok(v) => Some(v),
        Err(_) => None,
    }
}

} // verus!
