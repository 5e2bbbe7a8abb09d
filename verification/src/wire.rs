use vstd::prelude::*;

verus! {

/// One complete backend frame: the leading type tag and the message body,
/// with the five header bytes (tag and big-endian length) stripped.
pub struct Frame {
    pub tag: u8,
    pub body: Vec<u8>,
}

/// Value of a four-byte big-endian field, most significant byte first.
pub open spec fn be32(b0: u8, b1: u8, b2: u8, b3: u8) -> int {
    (b0 as int) * 0x1000000 + (b1 as int) * 0x10000 + (b2 as int) * 0x100 + (b3 as int)
}

/// The four big-endian bytes of `n`, most significant first.
pub open spec fn be32_bytes(n: int) -> Seq<u8> {
    seq![
        ((n / 0x1000000) % 0x100) as u8,
        ((n / 0x10000) % 0x100) as u8,
        ((n / 0x100) % 0x100) as u8,
        (n % 0x100) as u8,
    ]
}

/// A frame header (tag byte plus four length bytes) is fully buffered.
pub open spec fn header_present(c: Seq<u8>) -> bool {
    c.len() >= 5
}

/// Declared length of the frame at the front of `c`: the value of the
/// four-byte big-endian length field, which counts itself but not the tag.
pub open spec fn declared_len(c: Seq<u8>) -> int
    recommends
        header_present(c),
{
    be32(c[1], c[2], c[3], c[4])
}

/// The buffered header declares an impossible length: the length field must
/// be at least 4 because it counts its own four bytes.
pub open spec fn corrupt_header(c: Seq<u8>) -> bool {
    header_present(c) && declared_len(c) < 4
}

/// Total number of bytes of the frame at the front of `c`, tag included.
pub open spec fn frame_total(c: Seq<u8>) -> int
    recommends
        header_present(c),
{
    1 + declared_len(c)
}

/// One complete, well-formed frame sits at the front of `c`.
pub open spec fn frame_ready(c: Seq<u8>) -> bool {
    header_present(c) && declared_len(c) >= 4 && c.len() >= frame_total(c)
}

/// The buffered bytes are a proper prefix of a frame: not corrupt, but more
/// bytes are needed before a frame can be taken off.
pub open spec fn frame_pending(c: Seq<u8>) -> bool {
    !corrupt_header(c) && !frame_ready(c)
}

/// Type tag of the frame at the front of `c`.
pub open spec fn frame_tag(c: Seq<u8>) -> u8
    recommends
        header_present(c),
{
    c[0]
}

/// Body of the frame at the front of `c`: the bytes after the header.
pub open spec fn frame_body(c: Seq<u8>) -> Seq<u8>
    recommends
        frame_ready(c),
{
    c.subrange(5, frame_total(c))
}

/// Bytes left in `c` after the frame at its front is consumed.
pub open spec fn frame_rest(c: Seq<u8>) -> Seq<u8>
    recommends
        frame_ready(c),
{
    c.skip(frame_total(c))
}

/// Serialized form of a frame: tag, then the big-endian length of the body
/// plus the four length bytes themselves, then the body.
pub open spec fn wire_bytes(tag: u8, body: Seq<u8>) -> Seq<u8> {
    seq![tag] + be32_bytes(4 + body.len() as int) + body
}

/// Reads a four-byte big-endian unsigned integer.
pub fn read_be_u32(b0: u8, b1: u8, b2: u8, b3: u8) -> (r: u32)
    ensures
        r as int == be32(b0, b1, b2, b3),
{
    (b0 as u32) * 0x1000000 + (b1 as u32) * 0x10000 + (b2 as u32) * 0x100 + (b3 as u32)
}

/// Appends the four big-endian bytes of `n` to `out`.
pub fn write_be_u32(out: &mut Vec<u8>, n: u32)
    ensures
        final(out)@ == old(out)@ + be32_bytes(n as int),
{
    out.push((n / 0x1000000) as u8);
    out.push(((n / 0x10000) % 0x100) as u8);
    out.push(((n / 0x100) % 0x100) as u8);
    out.push((n % 0x100) as u8);
    proof {
        assert(out@ =~= old(out)@ + be32_bytes(n as int));
    }
}

/// The buffered bytes are precisely the wire form of one frame.
pub open spec fn exact_frame(c: Seq<u8>) -> bool {
    frame_ready(c) && c.len() == frame_total(c)
}

/// Framing correctness, first half: appending the chunks of a split byte
/// stream one at a time — as `feed` does — builds the same buffered
/// contents as appending the unsplit stream at once, however the split was
/// chosen.
pub proof fn lemma_chunked_append(chunks: Seq<Seq<u8>>, tail: Seq<u8>)
    ensures
        chunks.push(tail).flatten() == chunks.flatten() + tail,
{
    chunks.lemma_flatten_push(tail);
}

/// Framing correctness, second half: wherever the wire bytes of a frame
/// stand at the front of the buffered contents, parsing those contents
/// yields exactly that frame's tag and body, and leaves exactly the bytes
/// behind it — so the parsed frame is bit-identical to the one parsed from
/// the unsplit serialized bytes alone.
pub proof fn lemma_framing(tag: u8, body: Seq<u8>, rest: Seq<u8>)
    requires
        body.len() + 4 <= u32::MAX,
    ensures
        frame_ready(wire_bytes(tag, body) + rest),
        frame_total(wire_bytes(tag, body) + rest) == wire_bytes(tag, body).len(),
        frame_tag(wire_bytes(tag, body) + rest) == tag,
        frame_body(wire_bytes(tag, body) + rest) == body,
        frame_rest(wire_bytes(tag, body) + rest) == rest,
        rest.len() == 0 ==> exact_frame(wire_bytes(tag, body)),
{
    let w = wire_bytes(tag, body);
    let c = w + rest;
    let n = 4 + body.len() as int;
    lemma_be32_roundtrip(n);
    assert(c[1] == be32_bytes(n)[0]);
    assert(c[2] == be32_bytes(n)[1]);
    assert(c[3] == be32_bytes(n)[2]);
    assert(c[4] == be32_bytes(n)[3]);
    assert(declared_len(c) == n);
    assert(frame_body(c) =~= body);
    assert(frame_rest(c) =~= rest);
    if rest.len() == 0 {
        assert(w =~= c);
    }
}

/// Reading back the four big-endian bytes of `n` yields `n` again.
pub proof fn lemma_be32_roundtrip(n: int)
    requires
        0 <= n < 0x100000000,
    ensures
        be32(
            be32_bytes(n)[0],
            be32_bytes(n)[1],
            be32_bytes(n)[2],
            be32_bytes(n)[3],
        ) == n,
{
}

} // verus!
