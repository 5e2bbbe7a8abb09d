use vstd::prelude::*;
use crate::codec::{CodecError, codec_accepts, decode_frame_bytes};
use crate::frontend::{
    FrontendMessage, SerializeError, encode_query, encode_startup, message_bytes, message_has_nul,
    message_ok,
};
use crate::wire::{
    Frame, corrupt_header, frame_body, frame_pending, frame_ready, frame_rest, frame_tag,
    frame_total, read_be_u32, wire_bytes,
};

verus! {

/// Fixed growth increment and minimum spare capacity of the receive buffer,
/// in bytes.
pub const GROWTH_SIZE: usize = 64;

/// Failure of the read path.
#[derive(Debug)]
pub enum ReadError {
    /// The peer closed the stream while a message was still expected.
    UnexpectedEof,
    /// The buffered frame header declares a length below 4, which no
    /// well-formed frame can carry; byte alignment with the peer is lost.
    CorruptLength,
    /// The codec collaborator rejected a complete frame; byte alignment is
    /// intact but the message is unusable, which is equally fatal.
    Codec(CodecError),
}

/// Outcome of one read-loop step, frame taken and decoded.
pub enum ReadStep {
    /// One complete frame was taken off the buffer and decoded.
    Message(postgres_protocol::message::backend::Message),
    /// No complete frame is buffered; the transport should read at most
    /// this many bytes and hand them to `feed`.
    NeedBytes(usize),
}

/// Outcome of one parsing attempt against the buffered bytes.
pub enum FrameStep {
    /// One complete frame was taken off the front of the receive buffer.
    Ready(Frame),
    /// No complete frame is buffered; the transport should read at most
    /// this many bytes (the buffer's spare capacity) and hand them to
    /// `feed`.
    NeedBytes(usize),
}

/// The sole stateful entity: a growable receive buffer of unconsumed
/// inbound bytes and a reusable scratch buffer for outbound serialization.
/// The transport that moves bytes to and from the socket lives outside this
/// type; it is driven through `next_frame` and `feed`.
pub struct Connection {
    /// Receive storage; only the prefix below `filled` holds data.
    storage: Vec<u8>,
    /// Number of unconsumed buffered bytes at the front of `storage`.
    filled: usize,
    /// Scratch buffer holding the most recently serialized outbound message.
    scratch: Vec<u8>,
}

impl Connection {
    /// The buffered unconsumed inbound bytes, in arrival order.
    pub closed spec fn contents(self) -> Seq<u8> {
        self.storage@.subrange(0, self.filled as int)
    }

    /// Bytes the receive buffer can still take without growing.
    pub closed spec fn spare(self) -> int {
        self.storage@.len() - self.filled
    }

    /// Total allocated size of the receive buffer.
    pub closed spec fn capacity(self) -> int {
        self.storage@.len() as int
    }

    /// The serialized bytes of the most recent outbound message.
    pub closed spec fn outbound(self) -> Seq<u8> {
        self.scratch@
    }

    /// Well-formedness: the fill mark never passes the end of storage.
    pub closed spec fn wf(self) -> bool {
        self.filled <= self.storage@.len()
    }

    /// A connection state with empty receive and scratch buffers.
    pub fn new() -> (c: Connection)
        ensures
            c.wf(),
            c.contents() == Seq::<u8>::empty(),
            c.outbound() == Seq::<u8>::empty(),
    {
        let c = Connection { storage: Vec::new(), filled: 0, scratch: Vec::new() };
        proof {
            assert(c.contents() =~= Seq::<u8>::empty());
        }
        c
    }

    /// One Parsing-state step: take one complete frame off the front of the
    /// receive buffer, or report how many bytes the transport should fetch.
    /// When the buffered header is corrupt the connection is beyond
    /// recovery and the step fails. Before asking for more bytes, spare
    /// capacity below `GROWTH_SIZE` triggers exactly one growth step, and
    /// buffered bytes are never discarded.
    pub fn next_frame(&mut self) -> (r: Result<FrameStep, ReadError>)
        requires
            old(self).wf(),
        ensures
            final(self).wf(),
            final(self).outbound() == old(self).outbound(),
            corrupt_header(old(self).contents()) ==> {
                &&& r matches Err(e) && e == ReadError::CorruptLength
                &&& final(self).contents() == old(self).contents()
                &&& final(self).capacity() == old(self).capacity()
            },
            frame_ready(old(self).contents()) ==> {
                &&& r matches Ok(FrameStep::Ready(f))
                    && f.tag == frame_tag(old(self).contents())
                    && f.body@ == frame_body(old(self).contents())
                &&& final(self).contents() == frame_rest(old(self).contents())
                &&& final(self).capacity() == old(self).capacity()
            },
            frame_pending(old(self).contents()) ==> {
                &&& r matches Ok(FrameStep::NeedBytes(n)) && n == final(self).spare()
                    && n >= GROWTH_SIZE
                &&& final(self).contents() == old(self).contents()
                &&& old(self).spare() >= GROWTH_SIZE ==> final(self).capacity() == old(
                    self,
                ).capacity()
                &&& old(self).spare() < GROWTH_SIZE ==> final(self).capacity() == old(
                    self,
                ).capacity() + GROWTH_SIZE
            },
    {
        if self.filled >= 5 {
            let declared = read_be_u32(
                self.storage[1],
                self.storage[2],
                self.storage[3],
                self.storage[4],
            );
            if declared < 4 {
                return Err(ReadError::CorruptLength);
            }
            let total64: u64 = declared as u64 + 1;
            if self.filled as u64 >= total64 {
                let total: usize = total64 as usize;
                let ghost c = old(self).contents();
                proof {
                    assert(frame_ready(c));
                    assert(frame_total(c) == total);
                }
                let mut body: Vec<u8> = Vec::new();
                let mut i: usize = 5;
                while i < total
                    invariant
                        5 <= i <= total <= self.filled <= self.storage@.len(),
                        self == old(self),
                        body@ == self.storage@.subrange(5, i as int),
                    decreases total - i,
                {
                    body.push(self.storage[i]);
                    proof {
                        assert(body@ =~= self.storage@.subrange(5, i + 1));
                    }
                    i = i + 1;
                }
                let tag = self.storage[0];
                let remaining = self.filled - total;
                let mut j: usize = 0;
                while j < remaining
                    invariant
                        0 <= j <= remaining,
                        remaining == self.filled - total,
                        5 <= total <= self.filled <= self.storage@.len(),
                        self.filled == old(self).filled,
                        self.storage@.len() == old(self).storage@.len(),
                        self.scratch == old(self).scratch,
                        forall|m: int|
                            0 <= m < j ==> self.storage@[m] == old(self).storage@[total + m],
                        forall|m: int|
                            j <= m < self.storage@.len() ==> self.storage@[m] == old(
                                self,
                            ).storage@[m],
                    decreases remaining - j,
                {
                    let moved = self.storage[total + j];
                    self.storage[j] = moved;
                    j = j + 1;
                }
                self.filled = remaining;
                proof {
                    assert(self.contents() =~= frame_rest(c));
                    assert(body@ =~= frame_body(c));
                }
                return Ok(FrameStep::Ready(Frame { tag, body }));
            }
        }
        if self.storage.len() - self.filled < GROWTH_SIZE {
            let mut k: usize = 0;
            while k < GROWTH_SIZE
                invariant
                    0 <= k <= GROWTH_SIZE,
                    self.filled == old(self).filled,
                    self.scratch == old(self).scratch,
                    self.storage@.len() == old(self).storage@.len() + k,
                    self.storage@.subrange(0, old(self).storage@.len() as int) == old(
                        self,
                    ).storage@,
                decreases GROWTH_SIZE - k,
            {
                self.storage.push(0);
                proof {
                    assert(self.storage@.subrange(0, old(self).storage@.len() as int) =~= old(
                        self,
                    ).storage@);
                }
                k = k + 1;
            }
        }
        proof {
            assert(self.contents() =~= old(self).contents());
        }
        Ok(FrameStep::NeedBytes(self.storage.len() - self.filled))
    }

    /// One Filling-state step: append what the transport read into spare
    /// capacity. A read of zero bytes means the peer closed the stream while
    /// a message was still expected, which is fatal.
    pub fn feed(&mut self, chunk: &Vec<u8>) -> (r: Result<(), ReadError>)
        requires
            old(self).wf(),
            chunk@.len() <= old(self).spare(),
        ensures
            final(self).wf(),
            final(self).capacity() == old(self).capacity(),
            final(self).outbound() == old(self).outbound(),
            chunk@.len() == 0 ==> {
                &&& r matches Err(e) && e == ReadError::UnexpectedEof
                &&& final(self).contents() == old(self).contents()
            },
            chunk@.len() > 0 ==> {
                &&& r is Ok
                &&& final(self).contents() == old(self).contents() + chunk@
            },
    {
        if chunk.len() == 0 {
            return Err(ReadError::UnexpectedEof);
        }
        let cap: usize = self.storage.len();
        proof {
            assert(self.filled + chunk@.len() <= cap <= usize::MAX);
        }
        let mut i: usize = 0;
        while i < chunk.len()
            invariant
                0 <= i <= chunk@.len(),
                chunk@.len() <= old(self).spare(),
                old(self).wf(),
                self.filled == old(self).filled,
                self.scratch == old(self).scratch,
                self.storage@.len() == old(self).storage@.len(),
                self.filled + chunk@.len() <= self.storage@.len() <= usize::MAX,
                forall|m: int| 0 <= m < self.filled ==> self.storage@[m] == old(self).storage@[m],
                forall|m: int|
                    0 <= m < i ==> self.storage@[self.filled + m] == chunk@[m],
            decreases chunk@.len() - i,
        {
            let b = chunk[i];
            self.storage[self.filled + i] = b;
            i = i + 1;
        }
        self.filled = self.filled + chunk.len();
        proof {
            assert(self.contents() =~= old(self).contents() + chunk@);
        }
        Ok(())
    }

    /// One full read-loop step: take one complete frame off the buffer and
    /// decode it through the codec collaborator, or report how many bytes
    /// the transport must fetch first. A decoded message is produced if and
    /// only if the codec accepts the frame's bytes, which depend on nothing
    /// but the buffered contents; either way the frame's bytes leave the
    /// buffer, so the buffer holds exactly the unconsumed trailing bytes.
    pub fn read_step(&mut self) -> (r: Result<ReadStep, ReadError>)
        requires
            old(self).wf(),
        ensures
            final(self).wf(),
            final(self).outbound() == old(self).outbound(),
            corrupt_header(old(self).contents()) ==> {
                &&& r matches Err(e) && e == ReadError::CorruptLength
                &&& final(self).contents() == old(self).contents()
            },
            frame_ready(old(self).contents()) ==> {
                &&& final(self).contents() == frame_rest(old(self).contents())
                &&& final(self).capacity() == old(self).capacity()
                &&& codec_accepts(
                    wire_bytes(
                        frame_tag(old(self).contents()),
                        frame_body(old(self).contents()),
                    ),
                ) <==> r is Ok
                &&& r matches Ok(s) ==> s is Message
                &&& r matches Err(e) ==> e is Codec
            },
            frame_pending(old(self).contents()) ==> {
                &&& r matches Ok(ReadStep::NeedBytes(n)) && n == final(self).spare()
                    && n >= GROWTH_SIZE
                &&& final(self).contents() == old(self).contents()
                &&& old(self).spare() >= GROWTH_SIZE ==> final(self).capacity() == old(
                    self,
                ).capacity()
                &&& old(self).spare() < GROWTH_SIZE ==> final(self).capacity() == old(
                    self,
                ).capacity() + GROWTH_SIZE
            },
    {
        let ghost c = old(self).contents();
        match self.next_frame() {
            Err(e) => Err(e),
            Ok(FrameStep::NeedBytes(n)) => Ok(ReadStep::NeedBytes(n)),
            Ok(FrameStep::Ready(f)) => {
                proof {
                    assert(f.body@.len() + 4 <= u32::MAX);
                }
                match decode_frame_bytes(&f) {
                    Ok(m) => Ok(ReadStep::Message(m)),
                    Err(ce) => Err(ReadError::Codec(ce)),
                }
            },
        }
    }

    /// The serialized bytes the transport must transmit in one piece after
    /// a successful `write`.
    pub fn outbound_bytes(&self) -> (r: &Vec<u8>)
        ensures
            r@ == self.outbound(),
    {
        &self.scratch
    }

    /// Serializes one outbound message into the scratch buffer, reusing
    /// its capacity across calls; the transport must then transmit the
    /// whole buffer and flush. On failure the scratch buffer is left
    /// empty, so a failed write can never hand the transport a partial
    /// message; the receive buffer is untouched either way.
    pub fn write(&mut self, msg: &FrontendMessage) -> (r: Result<(), SerializeError>)
        requires
            old(self).wf(),
        ensures
            final(self).wf(),
            final(self).contents() == old(self).contents(),
            final(self).capacity() == old(self).capacity(),
            r is Ok <==> message_ok(*msg),
            r is Ok ==> final(self).outbound() == message_bytes(*msg),
            r is Err ==> final(self).outbound().len() == 0,
            message_has_nul(*msg) ==> r == Err::<(), SerializeError>(SerializeError::NulByte),
            !message_has_nul(*msg) && !message_ok(*msg) ==> r == Err::<(), SerializeError>(
                SerializeError::TooLong,
            ),
    {
        self.scratch.clear();
        match msg {
            FrontendMessage::Startup { parameters } => encode_startup(
                parameters,
                &mut self.scratch,
            ),
            FrontendMessage::Query { query } => encode_query(query, &mut self.scratch),
        }
    }
}

} // verus!
