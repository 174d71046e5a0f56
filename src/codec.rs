//! Primitive wire rules: unsigned bytes, big-endian 16-bit integers,
//! length-prefixed byte spans and length-prefixed UTF-8 strings.
use vstd::prelude::*;
use vstd::slice::*;
use vstd::string::*;
use vstd::utf8::*;

verus! {

/// Largest length that a 16-bit length prefix can state.
pub const MAX_PREFIXED_LEN: usize = 65535;

/// Why an encode or a decode failed.
#[derive(Debug, Clone, Copy, PartialEq, Eq, Structural)]
pub enum CodecError {
    /// The byte sink or source underneath failed.
    IoFailure,
    /// Fewer bytes were available than the length prefix declared.
    Truncated,
    /// The declared span is not valid UTF-8.
    InvalidEncoding,
    /// The value is longer than a 16-bit length prefix can state.
    LengthOverflow,
}

/// The two bytes of `n` in big-endian order, most significant first.
pub open spec fn be_u16_bytes(n: nat) -> Seq<u8> {
    seq![(n / 256) as u8, (n % 256) as u8]
}

/// Writes one byte at the end of `out`.
pub fn encode_u8(v: u8, out: &mut Vec<u8>)
    ensures
        final(out)@ == old(out)@.push(v),
{
    out.push(v);
}

/// Writes `v` at the end of `out` as two big-endian bytes.
pub fn encode_u16_be(v: u16, out: &mut Vec<u8>)
    ensures
        final(out)@ == old(out)@ + be_u16_bytes(v as nat),
{
    let ghost before = out@;
    out.push((v / 256) as u8);
    out.push((v % 256) as u8);
    assert(out@ =~= before + be_u16_bytes(v as nat));
}

/// The big-endian 16-bit length that the first two bytes of `input` declare.
pub open spec fn declared_length(input: Seq<u8>) -> nat
    recommends
        input.len() >= 2,
{
    input[0] as nat * 256 + input[1] as nat
}

/// `data` preceded by its length as two big-endian bytes.
pub open spec fn length_prefixed(data: Seq<u8>) -> Seq<u8> {
    be_u16_bytes(data.len()) + data
}

/// What encoding `data` as a length-prefixed span writes, or why it fails.
pub open spec fn spec_encode_prefixed(data: Seq<u8>) -> Result<Seq<u8>, CodecError> {
    if data.len() <= MAX_PREFIXED_LEN {
        Ok(length_prefixed(data))
    } else {
        Err(CodecError::LengthOverflow)
    }
}

/// What decoding a length-prefixed span at the start of `input` yields: the
/// span and the number of bytes consumed, or why it fails.
pub open spec fn spec_decode_prefixed(input: Seq<u8>) -> Result<(Seq<u8>, nat), CodecError> {
    if input.len() < 2 || input.len() < 2 + declared_length(input) {
        Err(CodecError::Truncated)
    } else {
        Ok((input.subrange(2, 2 + declared_length(input) as int), 2 + declared_length(input)))
    }
}

/// What encoding the text `s` as a length-prefixed UTF-8 string writes, or why
/// it fails.
pub open spec fn spec_encode_utf8_string(s: Seq<char>) -> Result<Seq<u8>, CodecError> {
    spec_encode_prefixed(encode_utf8(s))
}

/// What decoding a length-prefixed UTF-8 string at the start of `input`
/// yields: the text and the number of bytes consumed, or why it fails.
pub open spec fn spec_decode_utf8_string(input: Seq<u8>) -> Result<(Seq<char>, nat), CodecError> {
    match spec_decode_prefixed(input) {
        Ok((span, n)) => if valid_utf8(span) {
            Ok((decode_utf8(span), n))
        } else {
            Err(CodecError::InvalidEncoding)
        },
        Err(e) => Err(e),
    }
}

/// The number of bytes that encoding the text `s` as a length-prefixed string
/// takes, saturated at the largest `u32`.
pub open spec fn spec_utf8_string_encoded_length(s: Seq<char>) -> nat {
    if 2 + encode_utf8(s).len() <= u32::MAX {
        2 + encode_utf8(s).len()
    } else {
        u32::MAX as nat
    }
}

/// Reads a big-endian 16-bit integer from the first two bytes of `input`.
pub fn decode_u16_be(input: &[u8]) -> (r: Result<u16, CodecError>)
    ensures
        match r {
            Ok(v) => input@.len() >= 2 && v as nat == declared_length(input@),
            Err(e) => input@.len() < 2 && e == CodecError::Truncated,
        },
{
    if input.len() < 2 {
        return Err(CodecError::Truncated);
    }
    let hi = input[0] as u16;
    let lo = input[1] as u16;
    Ok(hi * 256 + lo)
}

/// Writes `data` at the end of `out`, preceded by its length as two
/// big-endian bytes. A span longer than 65535 bytes is refused and `out` is
/// left as it was.
pub fn encode_length_prefixed_bytes(data: &[u8], out: &mut Vec<u8>) -> (r: Result<(), CodecError>)
    ensures
        match spec_encode_prefixed(data@) {
            Ok(w) => r == Ok::<(), CodecError>(()) && final(out)@ == old(out)@ + w,
            Err(e) => r == Err::<(), CodecError>(e) && final(out)@ == old(out)@,
        },
{
    if data.len() > MAX_PREFIXED_LEN {
        return Err(CodecError::LengthOverflow);
    }
    let ghost before = out@;
    encode_u16_be(data.len() as u16, out);
    let mut i: usize = 0;
    while i < data.len()
        invariant
            i <= data@.len(),
            data@.len() <= MAX_PREFIXED_LEN,
            out@ == before + be_u16_bytes(data@.len()) + data@.subrange(0, i as int),
        decreases data@.len() - i,
    {
        out.push(data[i]);
        i = i + 1;
        assert(out@ =~= before + be_u16_bytes(data@.len()) + data@.subrange(0, i as int));
    }
    assert(data@.subrange(0, data@.len() as int) =~= data@);
    assert(out@ =~= before + length_prefixed(data@));
    Ok(())
}

/// Reads one length-prefixed span from the start of `input`: two big-endian
/// length bytes, then exactly that many bytes. Returns the span and the
/// number of bytes consumed.
pub fn decode_length_prefixed_bytes(input: &[u8]) -> (r: Result<(Vec<u8>, usize), CodecError>)
    ensures
        match r {
            Ok((v, n)) => spec_decode_prefixed(input@) == Ok::<(Seq<u8>, nat), CodecError>(
                (v@, n as nat),
            ),
            Err(e) => spec_decode_prefixed(input@) == Err::<(Seq<u8>, nat), CodecError>(e),
        },
{
    let len = match decode_u16_be(input) {
        Ok(v) => v as usize,
        Err(e) => return Err(e),
    };
    if input.len() - 2 < len {
        return Err(CodecError::Truncated);
    }
    let span = slice_to_vec(slice_subrange(input, 2, 2 + len));
    Ok((span, 2 + len))
}

/// Writes the UTF-8 bytes of `s` at the end of `out`, preceded by their
/// number as two big-endian bytes. Text of more than 65535 bytes is refused
/// and `out` is left as it was.
pub fn encode_utf8_string(s: &str, out: &mut Vec<u8>) -> (r: Result<(), CodecError>)
    ensures
        match spec_encode_utf8_string(s@) {
            Ok(w) => r == Ok::<(), CodecError>(()) && final(out)@ == old(out)@ + w,
            Err(e) => r == Err::<(), CodecError>(e) && final(out)@ == old(out)@,
        },
{
    encode_length_prefixed_bytes(s.as_bytes(), out)
}

/// The number of bytes that [`encode_utf8_string`] writes for `s`: two length
/// bytes and the UTF-8 bytes of the text, saturated at the largest `u32`.
pub fn utf8_string_encoded_length(s: &str) -> (r: u32)
    ensures
        r as nat == spec_utf8_string_encoded_length(s@),
{
    let n = s.as_bytes().len();
    if n <= (u32::MAX - 2) as usize {
        (n + 2) as u32
    } else {
        u32::MAX
    }
}

/// The error that std's UTF-8 check returns; it is only carried and mapped.
#[verifier::external_type_specification]
#[verifier::external_body]
pub struct ExUtf8Error(std::str::Utf8Error);

/// Relies on std::str::from_utf8: it returns the text when `bytes` are valid
/// UTF-8, and an error when they are not.
#[verifier::external_body]
fn str_from_utf8(bytes: &[u8]) -> (r: Result<&str, std::str::Utf8Error>)
    ensures
        match r {
            Ok(s) => valid_utf8(bytes@) && s.spec_bytes() == bytes@,
            Err(_) => !valid_utf8(bytes@),
        },
{
    std::str::from_utf8(bytes)
}

/// Reads one length-prefixed UTF-8 string from the start of `input`. Returns
/// the text and the number of bytes consumed.
pub fn decode_utf8_string(input: &[u8]) -> (r: Result<(String, usize), CodecError>)
    ensures
        match r {
            Ok((s, n)) => spec_decode_utf8_string(input@) == Ok::<(Seq<char>, nat), CodecError>(
                (s@, n as nat),
            ),
            Err(e) => spec_decode_utf8_string(input@) == Err::<(Seq<char>, nat), CodecError>(e),
        },
{
    let (span, n) = match decode_length_prefixed_bytes(input) {
        Ok(p) => p,
        Err(e) => return Err(e),
    };
    match str_from_utf8(span.as_slice()) {
        Ok(s) => {
            proof {
                encode_utf8_decode_utf8(s@);
            }
            Ok((s.to_owned(), n))
        },
        Err(_) => Err(CodecError::InvalidEncoding),
    }
}

} // verus!
