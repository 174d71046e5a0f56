use mqtt::codec::{
    decode_length_prefixed_bytes, decode_u16_be, decode_utf8_string, encode_length_prefixed_bytes,
    encode_u16_be, encode_u8, encode_utf8_string, utf8_string_encoded_length,
};
use mqtt::{CodecError, ProtocolName};

#[test]
fn encode_mqtt_gives_exact_bytes() {
    let mut out = Vec::new();
    let r = ProtocolName("MQTT".to_string()).encode(&mut out);
    assert_eq!(r, Ok(()));
    assert_eq!(out, vec![0x00, 0x04, 0x4D, 0x51, 0x54, 0x54]);
}

#[test]
fn decode_mqtt_bytes_gives_name() {
    let bytes = [0x00u8, 0x04, 0x4D, 0x51, 0x54, 0x54];
    let r = ProtocolName::decode(&bytes);
    assert_eq!(r, Ok((ProtocolName("MQTT".to_string()), 6)));
}

#[test]
fn decode_with_ignores_context() {
    let bytes = [0x00u8, 0x04, 0x4D, 0x51, 0x54, 0x54];
    let r = ProtocolName::decode_with(&bytes, Some(()));
    assert_eq!(r, Ok((ProtocolName("MQTT".to_string()), 6)));
}

#[test]
fn encode_appends_to_existing_output() {
    let mut out = vec![0xAAu8];
    ProtocolName("MQIsdp".to_string()).encode(&mut out).unwrap();
    assert_eq!(out, vec![0xAA, 0x00, 0x06, b'M', b'Q', b'I', b's', b'd', b'p']);
}

#[test]
fn round_trip_of_non_ascii_name() {
    let name = ProtocolName("héllo wörld ✓".to_string());
    let mut out = Vec::new();
    name.encode(&mut out).unwrap();
    let n_bytes = "héllo wörld ✓".len();
    assert_eq!(out.len(), 2 + n_bytes);
    assert_eq!(out[0], 0);
    assert_eq!(out[1] as usize, n_bytes);
    assert_eq!(ProtocolName::decode(&out), Ok((name, 2 + n_bytes)));
}

#[test]
fn round_trip_of_empty_name() {
    let name = ProtocolName(String::new());
    let mut out = Vec::new();
    name.encode(&mut out).unwrap();
    assert_eq!(out, vec![0x00, 0x00]);
    assert_eq!(ProtocolName::decode(&out), Ok((name, 2)));
}

#[test]
fn round_trip_of_longest_name() {
    let text = "x".repeat(65535);
    let name = ProtocolName(text);
    let mut out = Vec::new();
    name.encode(&mut out).unwrap();
    assert_eq!(out.len(), 65537);
    assert_eq!(out[0], 0xFF);
    assert_eq!(out[1], 0xFF);
    assert_eq!(name.encoded_length(), 65537);
    assert_eq!(ProtocolName::decode(&out), Ok((name, 65537)));
}

#[test]
fn encoded_length_matches_bytes_written() {
    for text in ["", "MQTT", "MQIsdp", "ünïcödé", "日本語"] {
        let name = ProtocolName(text.to_string());
        let mut out = Vec::new();
        name.encode(&mut out).unwrap();
        assert_eq!(name.encoded_length() as usize, out.len());
    }
    assert_eq!(ProtocolName("MQTT".to_string()).encoded_length(), 6);
    assert_eq!(ProtocolName("日本語".to_string()).encoded_length(), 11);
}

#[test]
fn decode_consumes_only_its_own_span() {
    let bytes = [0x00u8, 0x02, b'o', b'k', 0x04, 0xFF, 0x00];
    assert_eq!(
        ProtocolName::decode(&bytes),
        Ok((ProtocolName("ok".to_string()), 4))
    );
}

#[test]
fn decode_truncated_span_fails() {
    let bytes = [0x00u8, 0x05, b'M', b'Q'];
    assert_eq!(ProtocolName::decode(&bytes), Err(CodecError::Truncated));
}

#[test]
fn decode_missing_length_fails() {
    assert_eq!(ProtocolName::decode(&[]), Err(CodecError::Truncated));
    assert_eq!(ProtocolName::decode(&[0x00]), Err(CodecError::Truncated));
}

#[test]
fn decode_lone_continuation_byte_fails() {
    let bytes = [0x00u8, 0x01, 0x80];
    assert_eq!(ProtocolName::decode(&bytes), Err(CodecError::InvalidEncoding));
}

#[test]
fn decode_surrogate_bytes_fail() {
    let bytes = [0x00u8, 0x03, 0xED, 0xA0, 0x80];
    assert_eq!(ProtocolName::decode(&bytes), Err(CodecError::InvalidEncoding));
}

#[test]
fn encode_overlong_name_fails() {
    let name = ProtocolName("y".repeat(65536));
    let mut out = vec![0x01u8];
    assert_eq!(name.encode(&mut out), Err(CodecError::LengthOverflow));
    assert_eq!(out, vec![0x01]);
    assert_eq!(name.encoded_length(), 65538);
}

#[test]
fn primitive_integers_are_big_endian() {
    let mut out = Vec::new();
    encode_u8(0x7F, &mut out);
    encode_u16_be(0x1234, &mut out);
    encode_u16_be(0x00FF, &mut out);
    assert_eq!(out, vec![0x7F, 0x12, 0x34, 0x00, 0xFF]);
    assert_eq!(decode_u16_be(&[0x12, 0x34, 0x99]), Ok(0x1234));
    assert_eq!(decode_u16_be(&[0x12]), Err(CodecError::Truncated));
}

#[test]
fn length_prefixed_bytes_round_trip() {
    let data = [0x00u8, 0xFF, 0x80, 0x10];
    let mut out = Vec::new();
    assert_eq!(encode_length_prefixed_bytes(&data, &mut out), Ok(()));
    assert_eq!(out, vec![0x00, 0x04, 0x00, 0xFF, 0x80, 0x10]);
    assert_eq!(decode_length_prefixed_bytes(&out), Ok((data.to_vec(), 6)));
}

#[test]
fn length_prefixed_bytes_overflow_fails() {
    let data = vec![0u8; 70000];
    let mut out = Vec::new();
    assert_eq!(
        encode_length_prefixed_bytes(&data, &mut out),
        Err(CodecError::LengthOverflow)
    );
    assert!(out.is_empty());
}

#[test]
fn utf8_string_primitives() {
    let mut out = Vec::new();
    assert_eq!(encode_utf8_string("é", &mut out), Ok(()));
    assert_eq!(out, vec![0x00, 0x02, 0xC3, 0xA9]);
    assert_eq!(utf8_string_encoded_length("é"), 4);
    assert_eq!(decode_utf8_string(&out), Ok(("é".to_string(), 4)));
    assert_eq!(decode_utf8_string(&[0x00, 0x02, 0xC3]), Err(CodecError::Truncated));
    assert_eq!(
        decode_utf8_string(&[0x00, 0x01, 0xC3]),
        Err(CodecError::InvalidEncoding)
    );
}
