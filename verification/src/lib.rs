//! A minimal client core for the PostgreSQL wire protocol, specialized for
//! starting a logical-replication stream: message framing and reassembly
//! over a chunked byte stream, outbound message serialization, and the
//! replication-start handshake. Byte-level framing is proved correct here;
//! decoding the bodies of inbound messages is delegated to the codec
//! collaborator, and the socket itself is driven by the surrounding
//! application.

pub mod codec;
pub mod connection;
pub mod errfields;
pub mod frontend;
pub mod handshake;
pub mod wire;
