use vstd::prelude::*;
use bytes::BufMut;
use crate::wire::{Frame, wire_bytes};

verus! {

/// postgres_protocol's decoded backend message, declared so that values of
/// it can pass through verified code; its contents are opaque here.
#[verifier::external_type_specification]
#[verifier::external_body]
pub struct ExBackendMessage(postgres_protocol::message::backend::Message);

/// The codec collaborator rejected a frame: its tag is unknown to it or its
/// body does not match the layout the tag demands.
#[derive(Debug)]
pub struct CodecError {
    /// The codec's own description of the failure.
    pub detail: String,
}

/// Whether the codec collaborator accepts these bytes as one complete
/// backend message; a function of the bytes alone.
pub uninterp spec fn codec_accepts(frame: Seq<u8>) -> bool;

/// Relies on postgres_protocol::message::backend::Message::parse: handed
/// the bytes of exactly one complete frame, it returns the decoded message,
/// or an error when the tag is unknown or the body malformed; which of the
/// two happens depends on the frame bytes alone.
#[verifier::external_body]
pub(crate) fn decode_frame_bytes(f: &Frame) -> (r: Result<
    postgres_protocol::message::backend::Message,
    CodecError,
>)
    requires
        f.body@.len() + 4 <= u32::MAX,
    ensures
        r is Ok <==> codec_accepts(wire_bytes(f.tag, f.body@)),
{
    let mut buf = bytes::BytesMut::with_capacity(f.body.len() + 5);
    buf.put_u8(f.tag);
    buf.put_u32(4 + f.body.len() as u32);
    buf.extend_from_slice(&f.body);
    match postgres_protocol::message::backend::Message::parse(&mut buf) {
        Ok(Some(m)) => Ok(m),
        Ok(None) => Err(CodecError { detail: String::from("incomplete frame") }),
        Err(e) => Err(CodecError { detail: e.to_string() }),
    }
}

} // verus!
