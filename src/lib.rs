//! Wire-format codec for the length-prefixed fields of an MQTT-style protocol.
//!
//! [`codec`] holds the primitive rules (bytes, big-endian 16-bit integers,
//! length-prefixed byte spans and UTF-8 strings); [`protocol_name`] builds the
//! protocol-name field of a CONNECT variable header on top of them.
pub mod codec;
pub mod protocol_name;

pub use codec::CodecError;
pub use protocol_name::ProtocolName;
