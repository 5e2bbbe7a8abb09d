use postgres_logical_replication::connection::{Connection, FrameStep};
use postgres_logical_replication::errfields::parse_error_fields;
use postgres_logical_replication::frontend::{FrontendMessage, SerializeError};
use postgres_logical_replication::handshake::{
    HandshakeAction, HandshakeState, on_command_sent, on_message,
};

use fallible_iterator::FallibleIterator;

fn pairs(ps: &[(&str, &str)]) -> Vec<(Vec<u8>, Vec<u8>)> {
    ps.iter().map(|(k, v)| (k.as_bytes().to_vec(), v.as_bytes().to_vec())).collect()
}

/// Parses a startup message by the server-side framing rules: a big-endian
/// length counting itself, the protocol version, NUL-terminated key/value
/// pairs, and a final NUL.
fn parse_startup(bytes: &[u8]) -> Option<Vec<(Vec<u8>, Vec<u8>)>> {
    if bytes.len() < 9 {
        return None;
    }
    let len = u32::from_be_bytes([bytes[0], bytes[1], bytes[2], bytes[3]]) as usize;
    if len != bytes.len() {
        return None;
    }
    if bytes[4..8] != [0, 3, 0, 0] {
        return None;
    }
    let mut fields = Vec::new();
    let mut pos = 8;
    loop {
        if pos >= bytes.len() {
            return None;
        }
        if bytes[pos] == 0 {
            return if pos + 1 == bytes.len() { Some(fields) } else { None };
        }
        let kend = pos + bytes[pos..].iter().position(|b| *b == 0)?;
        let vstart = kend + 1;
        let vend = vstart + bytes[vstart..].iter().position(|b| *b == 0)?;
        fields.push((bytes[pos..kend].to_vec(), bytes[vstart..vend].to_vec()));
        pos = vend + 1;
    }
}

/// A transport stub that accepts a whole message or nothing: it fails
/// once its capacity would be exceeded, transmitting nothing, as the
/// real transport's write-all-then-flush contract demands.
struct Stub {
    capacity: usize,
    sent: Vec<u8>,
}

impl Stub {
    fn transmit(&mut self, bytes: &[u8]) -> Result<(), ()> {
        if bytes.len() > self.capacity {
            return Err(());
        }
        self.sent.extend_from_slice(bytes);
        Ok(())
    }
}

#[test]
fn startup_round_trip() {
    let params = pairs(&[("user", "alice"), ("replication", "true")]);
    let mut c = Connection::new();
    c.write(&FrontendMessage::Startup { parameters: params.clone() }).unwrap();
    let wire = c.outbound_bytes().clone();
    // Parsing back through the server-side framing rules yields the same
    // parameter set in the same order.
    let back = parse_startup(&wire).expect("the startup message must parse back");
    assert_eq!(back, params);
}

#[test]
fn startup_exact_bytes() {
    let params = pairs(&[("user", "alice")]);
    let mut c = Connection::new();
    c.write(&FrontendMessage::Startup { parameters: params }).unwrap();
    let expected: Vec<u8> = vec![
        0, 0, 0, 20, // length: 4 length bytes + 4 version bytes + 11 pair bytes + 1 NUL
        0, 3, 0, 0, // protocol version 3.0
        b'u', b's', b'e', b'r', 0, b'a', b'l', b'i', b'c', b'e', 0, 0,
    ];
    assert_eq!(c.outbound_bytes(), &expected);
}

#[test]
fn query_exact_bytes() {
    let mut c = Connection::new();
    c.write(&FrontendMessage::Query { query: b"SELECT 1".to_vec() }).unwrap();
    let mut expected: Vec<u8> = vec![b'Q', 0, 0, 0, 13];
    expected.extend_from_slice(b"SELECT 1\0");
    assert_eq!(c.outbound_bytes(), &expected);
}

#[test]
fn nul_byte_in_parameter_is_rejected() {
    let mut c = Connection::new();
    let params = vec![(b"user".to_vec(), b"al\0ice".to_vec())];
    match c.write(&FrontendMessage::Startup { parameters: params }) {
        Err(SerializeError::NulByte) => (),
        _ => panic!("an embedded NUL must be rejected"),
    }
    // Nothing may be handed to the transport after a failed write.
    assert!(c.outbound_bytes().is_empty());
}

#[test]
fn write_is_atomic_against_a_failing_transport() {
    let mut c = Connection::new();
    c.write(&FrontendMessage::Query { query: b"SELECT 1".to_vec() }).unwrap();
    let wire = c.outbound_bytes().clone();
    let mut failing = Stub { capacity: wire.len() - 1, sent: Vec::new() };
    assert!(failing.transmit(&wire).is_err());
    assert!(failing.sent.is_empty(), "no partial message may be sent");
    let mut working = Stub { capacity: wire.len(), sent: Vec::new() };
    working.transmit(&wire).unwrap();
    assert_eq!(working.sent, wire);
}

fn error_response_body() -> Vec<u8> {
    let mut body = Vec::new();
    body.push(b'S');
    body.extend_from_slice(b"FATAL\0");
    body.push(b'M');
    body.extend_from_slice(b"bad slot\0");
    body.push(0);
    body
}

#[test]
fn error_response_fields_in_order() {
    let body = error_response_body();
    let mut wire = vec![b'E'];
    wire.extend_from_slice(&((body.len() + 4) as u32).to_be_bytes());
    wire.extend_from_slice(&body);

    let mut c = Connection::new();
    match c.next_frame().unwrap() {
        FrameStep::NeedBytes(_) => c.feed(&wire).unwrap(),
        _ => panic!("expected a request for bytes"),
    }
    let frame = match c.next_frame().unwrap() {
        FrameStep::Ready(f) => f,
        _ => panic!("expected the complete ErrorResponse frame"),
    };
    assert_eq!(frame.tag, b'E');
    let fields = parse_error_fields(&frame.body).expect("well-formed fields");
    assert_eq!(
        fields,
        vec![(b'S', b"FATAL".to_vec()), (b'M', b"bad slot".to_vec())],
    );
    // The handshake aborts instead of proceeding towards Ready.
    let (state, action) = on_message(HandshakeState::AwaitingReady, frame.tag);
    assert_eq!(state, HandshakeState::Failed);
    assert_eq!(action, HandshakeAction::Abort);
}

#[test]
fn error_response_fields_match_the_codec() {
    let body = error_response_body();
    let mut wire = vec![b'E'];
    wire.extend_from_slice(&((body.len() + 4) as u32).to_be_bytes());
    wire.extend_from_slice(&body);

    let mut c = Connection::new();
    match c.read_step().unwrap() {
        postgres_logical_replication::connection::ReadStep::NeedBytes(_) => {
            c.feed(&wire).unwrap()
        }
        _ => panic!("expected a request for bytes"),
    }
    let msg = match c.read_step().unwrap() {
        postgres_logical_replication::connection::ReadStep::Message(m) => m,
        _ => panic!("expected a decoded message"),
    };
    match msg {
        postgres_protocol::message::backend::Message::ErrorResponse(e) => {
            let mut it = e.fields();
            let f = it.next().unwrap().expect("a first field");
            assert_eq!(f.type_(), b'S');
            assert_eq!(f.value_bytes(), b"FATAL");
            let f = it.next().unwrap().expect("a second field");
            assert_eq!(f.type_(), b'M');
            assert_eq!(f.value_bytes(), b"bad slot");
            assert!(it.next().unwrap().is_none());
        }
        _ => panic!("expected an ErrorResponse"),
    }
}

#[test]
fn error_fields_edge_shapes() {
    // Just the closing NUL: a well-formed empty field list.
    assert_eq!(parse_error_fields(&vec![0]), Some(vec![]));
    // Empty body: no closing NUL, malformed.
    assert_eq!(parse_error_fields(&Vec::new()), None);
    // A field whose value never ends: malformed.
    assert_eq!(parse_error_fields(&b"SFATAL".to_vec()), None);
    // Bytes after the closing NUL: malformed.
    assert_eq!(parse_error_fields(&b"SFATAL\0\0x".to_vec()), None);
    // An empty field value is fine.
    assert_eq!(parse_error_fields(&b"S\0\0".to_vec()), Some(vec![(b'S', Vec::new())]));
}

#[test]
fn handshake_reaches_streaming() {
    let s = HandshakeState::AwaitingReady;
    // ParameterStatus messages are informational.
    let (s, a) = on_message(s, b'S');
    assert_eq!((s, a), (HandshakeState::AwaitingReady, HandshakeAction::KeepReading));
    // ReadyForQuery advances and asks for the replication-start command.
    let (s, a) = on_message(s, b'Z');
    assert_eq!((s, a), (HandshakeState::Ready, HandshakeAction::StartReplication));
    let s = on_command_sent(s);
    assert_eq!(s, HandshakeState::Streaming);
    // Streamed data is handed to the consumer.
    let (s, a) = on_message(s, b'd');
    assert_eq!((s, a), (HandshakeState::Streaming, HandshakeAction::AcceptData));
    // An ErrorResponse is terminal even while streaming.
    let (s, a) = on_message(s, b'E');
    assert_eq!((s, a), (HandshakeState::Failed, HandshakeAction::Abort));
}
