use postgres_logical_replication::connection::{Connection, FrameStep, ReadError, ReadStep};

fn frame_bytes(tag: u8, body: &[u8]) -> Vec<u8> {
    let mut out = Vec::new();
    out.push(tag);
    let len = (body.len() + 4) as u32;
    out.extend_from_slice(&len.to_be_bytes());
    out.extend_from_slice(body);
    out
}

#[test]
fn it_works() {
    assert_eq!(2 + 2, 4);
}

#[test]
fn single_frame_reassembled_whole() {
    let mut c = Connection::new();
    let wire = frame_bytes(b'Z', &[b'I']);
    match c.next_frame().unwrap() {
        FrameStep::NeedBytes(n) => assert!(n >= 64),
        _ => panic!("expected a request for bytes"),
    }
    c.feed(&wire).unwrap();
    match c.next_frame().unwrap() {
        FrameStep::Ready(f) => {
            assert_eq!(f.tag, b'Z');
            assert_eq!(f.body, vec![b'I']);
        }
        _ => panic!("expected a complete frame"),
    }
}

#[test]
fn framing_one_byte_at_a_time() {
    // Deliver the same frame split into one-byte chunks: exactly one
    // frame comes out, bit-identical to the unsplit delivery.
    let wire = frame_bytes(b'C', b"SELECT 1");
    let mut split = Connection::new();
    let mut got = None;
    for b in wire.iter() {
        match split.next_frame().unwrap() {
            FrameStep::Ready(f) => {
                got = Some(f);
                break;
            }
            FrameStep::NeedBytes(_) => split.feed(&vec![*b]).unwrap(),
        }
    }
    let got = match got {
        Some(f) => f,
        None => match split.next_frame().unwrap() {
            FrameStep::Ready(f) => f,
            _ => panic!("no frame after all bytes were fed"),
        },
    };
    let mut whole = Connection::new();
    match whole.next_frame().unwrap() {
        FrameStep::NeedBytes(_) => whole.feed(&wire).unwrap(),
        _ => panic!("expected a request for bytes"),
    }
    match whole.next_frame().unwrap() {
        FrameStep::Ready(f) => {
            assert_eq!(f.tag, got.tag);
            assert_eq!(f.body, got.body);
        }
        _ => panic!("expected a complete frame"),
    }
}

#[test]
fn trailing_bytes_stay_buffered() {
    // Two frames fed at once: both come out, in order, nothing lost.
    let mut c = Connection::new();
    let mut wire = frame_bytes(b'S', b"first\0one\0");
    wire.extend_from_slice(&frame_bytes(b'Z', &[b'I']));
    match c.next_frame().unwrap() {
        FrameStep::NeedBytes(n) => assert!(n >= wire.len()),
        _ => panic!("expected a request for bytes"),
    }
    c.feed(&wire).unwrap();
    match c.next_frame().unwrap() {
        FrameStep::Ready(f) => {
            assert_eq!(f.tag, b'S');
            assert_eq!(f.body, b"first\0one\0".to_vec());
        }
        _ => panic!("expected the first frame"),
    }
    match c.next_frame().unwrap() {
        FrameStep::Ready(f) => {
            assert_eq!(f.tag, b'Z');
            assert_eq!(f.body, vec![b'I']);
        }
        _ => panic!("expected the second frame"),
    }
}

#[test]
fn eof_with_no_complete_message_fails() {
    let mut c = Connection::new();
    match c.next_frame().unwrap() {
        FrameStep::NeedBytes(_) => (),
        _ => panic!("expected a request for bytes"),
    }
    // The transport reports closure: zero bytes.
    match c.feed(&Vec::new()) {
        Err(ReadError::UnexpectedEof) => (),
        _ => panic!("a zero-byte read must fail as an unexpected EOF"),
    }
}

#[test]
fn corrupt_length_prefix_is_fatal() {
    let mut c = Connection::new();
    match c.next_frame().unwrap() {
        FrameStep::NeedBytes(_) => (),
        _ => panic!("expected a request for bytes"),
    }
    // Length field 3 < 4 can belong to no well-formed frame.
    c.feed(&vec![b'Z', 0, 0, 0, 3]).unwrap();
    match c.next_frame() {
        Err(ReadError::CorruptLength) => (),
        _ => panic!("a corrupt length prefix must be fatal"),
    }
}

#[test]
fn growth_steps_precede_reads_and_lose_nothing() {
    let mut c = Connection::new();
    // Fresh connection: spare capacity 0 < 64, so one growth step to 64.
    let first = match c.next_frame().unwrap() {
        FrameStep::NeedBytes(n) => n,
        _ => panic!("expected a request for bytes"),
    };
    assert_eq!(first, 64);
    // A frame larger than one growth step: 100 body bytes.
    let body: Vec<u8> = (0..100u8).collect();
    let wire = frame_bytes(b'd', &body);
    c.feed(&wire[..64].to_vec()).unwrap();
    // Frame incomplete, spare now 0 < 64: exactly one more growth step.
    let second = match c.next_frame().unwrap() {
        FrameStep::NeedBytes(n) => n,
        _ => panic!("expected a request for bytes"),
    };
    assert_eq!(second, 64);
    c.feed(&wire[64..].to_vec()).unwrap();
    // Nothing already buffered was discarded by growing.
    match c.next_frame().unwrap() {
        FrameStep::Ready(f) => {
            assert_eq!(f.tag, b'd');
            assert_eq!(f.body, body);
        }
        _ => panic!("expected the complete frame"),
    }
}

#[test]
fn read_step_decodes_ready_for_query() {
    let mut c = Connection::new();
    match c.read_step().unwrap() {
        ReadStep::NeedBytes(_) => (),
        _ => panic!("expected a request for bytes"),
    }
    c.feed(&frame_bytes(b'Z', &[b'I'])).unwrap();
    match c.read_step().unwrap() {
        ReadStep::Message(postgres_protocol::message::backend::Message::ReadyForQuery(body)) => {
            assert_eq!(body.status(), b'I');
        }
        _ => panic!("expected a decoded ReadyForQuery"),
    }
}

#[test]
fn unknown_tag_is_a_codec_error() {
    let mut c = Connection::new();
    match c.read_step().unwrap() {
        ReadStep::NeedBytes(_) => (),
        _ => panic!("expected a request for bytes"),
    }
    c.feed(&frame_bytes(b'x', &[])).unwrap();
    match c.read_step() {
        Err(ReadError::Codec(_)) => (),
        _ => panic!("an unknown tag must be rejected by the codec"),
    }
}
