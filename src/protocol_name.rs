//! The protocol-name field of a CONNECT variable header.
//!
//! On the wire it is a length-prefixed UTF-8 string; for "MQTT":
//!
//! ```plain
//! 7                          3                          0
//! +--------------------------+--------------------------+
//! | Length MSB (0)                                      |
//! | Length LSB (4)                                      |
//! | 0100                     | 1101                     | 'M'
//! | 0101                     | 0001                     | 'Q'
//! | 0101                     | 0100                     | 'T'
//! | 0101                     | 0100                     | 'T'
//! +--------------------------+--------------------------+
//! ```
use vstd::prelude::*;
use vstd::utf8::*;

use crate::codec::{
    be_u16_bytes, declared_length, decode_utf8_string, encode_utf8_string, length_prefixed,
    spec_decode_prefixed, spec_decode_utf8_string, spec_encode_utf8_string,
    spec_utf8_string_encoded_length, utf8_string_encoded_length, CodecError,
};

verus! {

/// Protocol name in a variable header: a text value that is written exactly as
/// a length-prefixed UTF-8 string.
#[derive(Debug, Eq, PartialEq, Clone)]
pub struct ProtocolName(pub String);

impl View for ProtocolName {
    type V = Seq<char>;

    open spec fn view(&self) -> Seq<char> {
        self.0@
    }
}

impl ProtocolName {
    /// Writes the name at the end of `out` as a length-prefixed UTF-8 string.
    /// A name of more than 65535 UTF-8 bytes is refused with
    /// `LengthOverflow` and `out` is left as it was.
    pub fn encode(&self, out: &mut Vec<u8>) -> (r: Result<(), CodecError>)
        ensures
            match spec_encode_utf8_string(self@) {
                Ok(w) => r == Ok::<(), CodecError>(()) && final(out)@ == old(out)@ + w,
                Err(e) => r == Err::<(), CodecError>(e) && final(out)@ == old(out)@,
            },
    {
        encode_utf8_string(self.0.as_str(), out)
    }

    /// The number of bytes that [`ProtocolName::encode`] writes: two length
    /// bytes and the UTF-8 bytes of the name, saturated at the largest `u32`.
    pub fn encoded_length(&self) -> (r: u32)
        ensures
            r as nat == spec_utf8_string_encoded_length(self@),
    {
        utf8_string_encoded_length(self.0.as_str())
    }

    /// Reads a protocol name from the start of `input`, returning it with the
    /// number of bytes consumed. The name takes exactly as many bytes as its
    /// own length prefix states; `_rest` carries no information for this field.
    pub fn decode_with(input: &[u8], _rest: Option<()>) -> (r: Result<(ProtocolName, usize), CodecError>)
        ensures
            match r {
                Ok((p, n)) => spec_decode_utf8_string(input@) == Ok::<(Seq<char>, nat), CodecError>(
                    (p@, n as nat),
                ),
                Err(e) => spec_decode_utf8_string(input@) == Err::<(Seq<char>, nat), CodecError>(e),
            },
    {
        match decode_utf8_string(input) {
            Ok((s, n)) => Ok((ProtocolName(s), n)),
            Err(e) => Err(e),
        }
    }

    /// Reads a protocol name from the start of `input` with no enclosing
    /// context, returning it with the number of bytes consumed.
    pub fn decode(input: &[u8]) -> (r: Result<(ProtocolName, usize), CodecError>)
        ensures
            match r {
                Ok((p, n)) => spec_decode_utf8_string(input@) == Ok::<(Seq<char>, nat), CodecError>(
                    (p@, n as nat),
                ),
                Err(e) => spec_decode_utf8_string(input@) == Err::<(Seq<char>, nat), CodecError>(e),
            },
    {
        ProtocolName::decode_with(input, None)
    }
}

proof fn lemma_be_u16_bytes_declared(n: nat)
    requires
        n <= 65535,
    ensures
        declared_length(be_u16_bytes(n)) == n,
{
    assert(n / 256 < 256) by (nonlinear_arith)
        requires
            n <= 65535,
    ;
    assert((n / 256) * 256 + n % 256 == n) by (nonlinear_arith);
}

/// Decoding what encoding a name wrote gives back that name, and consumes
/// exactly the bytes written, for every text of at most 65535 UTF-8 bytes.
pub proof fn lemma_round_trip(s: Seq<char>)
    requires
        encode_utf8(s).len() <= 65535,
    ensures
        spec_encode_utf8_string(s) is Ok,
        spec_decode_utf8_string(spec_encode_utf8_string(s)->Ok_0) == Ok::<
            (Seq<char>, nat),
            CodecError,
        >((s, spec_encode_utf8_string(s)->Ok_0.len())),
{
    broadcast use encode_utf8_valid_utf8, encode_utf8_decode_utf8;

    let b = encode_utf8(s);
    let w = length_prefixed(b);
    lemma_be_u16_bytes_declared(b.len());
    assert(w.subrange(0, 2) =~= be_u16_bytes(b.len()));
    assert(declared_length(w) == b.len());
    assert(w.subrange(2, 2 + b.len() as int) =~= b);
}

/// The length that `encoded_length` reports is the number of bytes that
/// `encode` writes, for every text of at most 65535 UTF-8 bytes.
pub proof fn lemma_length_consistency(s: Seq<char>)
    requires
        encode_utf8(s).len() <= 65535,
    ensures
        spec_encode_utf8_string(s) is Ok,
        spec_utf8_string_encoded_length(s) == spec_encode_utf8_string(s)->Ok_0.len(),
{
}

/// A span whose declared length runs past the end of the input is refused
/// with `Truncated`, and so is an input too short to hold the length itself.
pub proof fn lemma_truncation_detected(input: Seq<u8>)
    requires
        input.len() < 2 || input.len() < 2 + declared_length(input),
    ensures
        spec_decode_utf8_string(input) == Err::<(Seq<char>, nat), CodecError>(
            CodecError::Truncated,
        ),
{
}

/// A complete span whose bytes are not valid UTF-8 is refused with
/// `InvalidEncoding`.
pub proof fn lemma_invalid_utf8_rejected(input: Seq<u8>)
    requires
        spec_decode_prefixed(input) is Ok,
        !valid_utf8(spec_decode_prefixed(input)->Ok_0.0),
    ensures
        spec_decode_utf8_string(input) == Err::<(Seq<char>, nat), CodecError>(
            CodecError::InvalidEncoding,
        ),
{
}

/// A text of more than 65535 UTF-8 bytes is refused with `LengthOverflow`
/// rather than written with a wrapped length.
pub proof fn lemma_overflow_rejected(s: Seq<char>)
    requires
        encode_utf8(s).len() > 65535,
    ensures
        spec_encode_utf8_string(s) == Err::<Seq<u8>, CodecError>(CodecError::LengthOverflow),
{
}

} // verus!
