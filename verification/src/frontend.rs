use vstd::prelude::*;
use crate::errfields::{find_nul, lemma_find_nul};
use crate::wire::{be32, be32_bytes, lemma_be32_roundtrip, write_be_u32};

verus! {

/// An outbound message, as this client produces it.
pub enum FrontendMessage {
    /// The first message of a connection: the protocol version and an
    /// ordered list of key/value parameters, sent without a leading tag.
    Startup { parameters: Vec<(Vec<u8>, Vec<u8>)> },
    /// A simple query carrying one text command.
    Query { query: Vec<u8> },
}

/// Failure to serialize an outbound message.
#[derive(Debug, PartialEq, Eq, Structural)]
pub enum SerializeError {
    /// A parameter key or value, or the query text, holds a NUL byte,
    /// which its NUL-terminated wire form cannot carry.
    NulByte,
    /// The serialized body would overflow the 31-bit length field.
    TooLong,
}

/// No byte of `b` is NUL.
pub open spec fn nul_free(b: Seq<u8>) -> bool {
    forall|i: int| 0 <= i < b.len() ==> b[i] != 0
}

/// The parameter pairs as byte sequences.
pub open spec fn pair_views(ps: Seq<(Vec<u8>, Vec<u8>)>) -> Seq<(Seq<u8>, Seq<u8>)> {
    ps.map_values(|kv: (Vec<u8>, Vec<u8>)| (kv.0@, kv.1@))
}

/// Wire form of the parameter list: each key and each value as a
/// NUL-terminated string, in order.
pub open spec fn pairs_bytes(ps: Seq<(Seq<u8>, Seq<u8>)>) -> Seq<u8>
    decreases ps.len(),
{
    if ps.len() == 0 {
        Seq::empty()
    } else {
        pairs_bytes(ps.drop_last()) + ps.last().0 + seq![0u8] + ps.last().1 + seq![0u8]
    }
}

/// Body of the startup message: protocol version 3.0 in big-endian, the
/// parameter pairs, and a terminating NUL.
pub open spec fn startup_body(ps: Seq<(Seq<u8>, Seq<u8>)>) -> Seq<u8> {
    seq![0u8, 3u8, 0u8, 0u8] + pairs_bytes(ps) + seq![0u8]
}

/// The whole startup message: a four-byte big-endian length counting
/// itself, then the body; no leading type tag.
pub open spec fn startup_bytes(ps: Seq<(Seq<u8>, Seq<u8>)>) -> Seq<u8> {
    be32_bytes(4 + startup_body(ps).len() as int) + startup_body(ps)
}

/// Every parameter key and value is free of NUL bytes.
pub open spec fn pairs_nul_free(ps: Seq<(Seq<u8>, Seq<u8>)>) -> bool {
    forall|i: int| 0 <= i < ps.len() ==> nul_free(#[trigger] ps[i].0) && nul_free(ps[i].1)
}

/// These parameters serialize: no NUL bytes, and the length field, which
/// counts itself and the body, fits a 31-bit signed length.
pub open spec fn startup_ok(ps: Seq<(Seq<u8>, Seq<u8>)>) -> bool {
    pairs_nul_free(ps) && 4 + startup_body(ps).len() <= 0x7FFFFFFF
}

/// The whole query message: tag 'Q', a length counting itself and the
/// NUL-terminated command text, then that text.
pub open spec fn query_bytes(q: Seq<u8>) -> Seq<u8> {
    seq![0x51u8] + be32_bytes(5 + q.len() as int) + q + seq![0u8]
}

/// The command text serializes: no NUL bytes and the length field fits.
pub open spec fn query_ok(q: Seq<u8>) -> bool {
    nul_free(q) && 5 + q.len() <= 0x7FFFFFFF
}

/// Serialized form of an outbound message.
pub open spec fn message_bytes(m: FrontendMessage) -> Seq<u8> {
    match m {
        FrontendMessage::Startup { parameters } => startup_bytes(pair_views(parameters@)),
        FrontendMessage::Query { query } => query_bytes(query@),
    }
}

/// The message serializes.
pub open spec fn message_ok(m: FrontendMessage) -> bool {
    match m {
        FrontendMessage::Startup { parameters } => startup_ok(pair_views(parameters@)),
        FrontendMessage::Query { query } => query_ok(query@),
    }
}

/// Some byte that the wire form must NUL-terminate is itself NUL.
pub open spec fn message_has_nul(m: FrontendMessage) -> bool {
    match m {
        FrontendMessage::Startup { parameters } => !pairs_nul_free(pair_views(parameters@)),
        FrontendMessage::Query { query } => !nul_free(query@),
    }
}

/// Appends `s` and a terminating NUL to `out`; rejects embedded NULs.
fn push_cstr(out: &mut Vec<u8>, s: &Vec<u8>) -> (r: Result<(), SerializeError>)
    ensures
        nul_free(s@) ==> r is Ok && final(out)@ == old(out)@ + s@ + seq![0u8],
        !nul_free(s@) ==> r == Err::<(), SerializeError>(SerializeError::NulByte),
{
    let mut i: usize = 0;
    while i < s.len()
        invariant
            0 <= i <= s@.len(),
            out@ == old(out)@ + s@.subrange(0, i as int),
            forall|m: int| 0 <= m < i ==> s@[m] != 0,
        decreases s@.len() - i,
    {
        let b = s[i];
        if b == 0 {
            return Err(SerializeError::NulByte);
        }
        out.push(b);
        proof {
            assert(out@ =~= old(out)@ + s@.subrange(0, i + 1));
        }
        i = i + 1;
    }
    out.push(0);
    proof {
        assert(s@.subrange(0, s@.len() as int) =~= s@);
        assert(out@ =~= old(out)@ + s@ + seq![0u8]);
    }
    Ok(())
}

/// Serializes the startup message for `parameters` into the empty buffer
/// `out`: exactly `startup_bytes` on success, nothing on failure.
pub fn encode_startup(parameters: &Vec<(Vec<u8>, Vec<u8>)>, out: &mut Vec<u8>) -> (r: Result<
    (),
    SerializeError,
>)
    requires
        old(out)@.len() == 0,
    ensures
        startup_ok(pair_views(parameters@)) ==> r is Ok && final(out)@ == startup_bytes(
            pair_views(parameters@),
        ),
        !pairs_nul_free(pair_views(parameters@)) ==> r == Err::<(), SerializeError>(
            SerializeError::NulByte,
        ) && final(out)@.len() == 0,
        pairs_nul_free(pair_views(parameters@)) && !startup_ok(pair_views(parameters@)) ==> r
            == Err::<(), SerializeError>(SerializeError::TooLong) && final(out)@.len() == 0,
{
    let ghost views = pair_views(parameters@);
    let mut body: Vec<u8> = Vec::new();
    body.push(0);
    body.push(3);
    body.push(0);
    body.push(0);
    proof {
        assert(views.take(0) =~= Seq::<(Seq<u8>, Seq<u8>)>::empty());
        assert(body@ =~= seq![0u8, 3u8, 0u8, 0u8] + pairs_bytes(views.take(0)));
    }
    let mut pi: usize = 0;
    while pi < parameters.len()
        invariant
            0 <= pi <= parameters@.len(),
            views == pair_views(parameters@),
            views.len() == parameters@.len(),
            body@ == seq![0u8, 3u8, 0u8, 0u8] + pairs_bytes(views.take(pi as int)),
            out@.len() == 0,
            forall|i: int| 0 <= i < pi ==> nul_free(#[trigger] views[i].0) && nul_free(views[i].1),
        decreases parameters@.len() - pi,
    {
        let pair = &parameters[pi];
        proof {
            assert(views[pi as int].0 == pair.0@);
            assert(views[pi as int].1 == pair.1@);
        }
        match push_cstr(&mut body, &pair.0) {
            Ok(_) => (),
            Err(e) => {
                proof {
                    assert(!nul_free(views[pi as int].0));
                }
                return Err(e);
            },
        }
        match push_cstr(&mut body, &pair.1) {
            Ok(_) => (),
            Err(e) => {
                proof {
                    assert(!nul_free(views[pi as int].1));
                }
                return Err(e);
            },
        }
        proof {
            assert(nul_free(views[pi as int].0));
            assert(nul_free(views[pi as int].1));
            let t = views.take(pi + 1);
            assert(t.drop_last() =~= views.take(pi as int));
            assert(t.last() == views[pi as int]);
            assert(body@ =~= seq![0u8, 3u8, 0u8, 0u8] + pairs_bytes(t));
        }
        pi = pi + 1;
    }
    body.push(0);
    proof {
        assert(views.take(parameters@.len() as int) =~= views);
        assert(body@ =~= startup_body(views));
    }
    if body.len() > 0x7FFFFFFB {
        return Err(SerializeError::TooLong);
    }
    let total: u32 = (body.len() + 4) as u32;
    write_be_u32(out, total);
    out.append(&mut body);
    proof {
        assert(out@ =~= startup_bytes(views));
    }
    Ok(())
}

/// Serializes the query message for `query` into the empty buffer `out`:
/// exactly `query_bytes` on success, nothing on failure.
pub fn encode_query(query: &Vec<u8>, out: &mut Vec<u8>) -> (r: Result<(), SerializeError>)
    requires
        old(out)@.len() == 0,
    ensures
        query_ok(query@) ==> r is Ok && final(out)@ == query_bytes(query@),
        !nul_free(query@) ==> r == Err::<(), SerializeError>(SerializeError::NulByte)
            && final(out)@.len() == 0,
        nul_free(query@) && !query_ok(query@) ==> r == Err::<(), SerializeError>(
            SerializeError::TooLong,
        ) && final(out)@.len() == 0,
{
    let mut i: usize = 0;
    while i < query.len()
        invariant
            0 <= i <= query@.len(),
            out@.len() == 0,
            forall|m: int| 0 <= m < i ==> query@[m] != 0,
        decreases query@.len() - i,
    {
        if query[i] == 0 {
            return Err(SerializeError::NulByte);
        }
        i = i + 1;
    }
    if query.len() > 0x7FFFFFFA {
        return Err(SerializeError::TooLong);
    }
    out.push(0x51);
    let total: u32 = (query.len() + 5) as u32;
    write_be_u32(out, total);
    let mut text: Vec<u8> = Vec::new();
    match push_cstr(&mut text, query) {
        Ok(_) => (),
        Err(e) => {
            return Err(e);
        },
    }
    out.append(&mut text);
    proof {
        assert(out@ =~= query_bytes(query@));
    }
    Ok(())
}

/// Every parameter key has at least one byte. An empty key cannot survive
/// a round trip: its leading NUL reads back as the end of the list.
pub open spec fn keys_nonempty(ps: Seq<(Seq<u8>, Seq<u8>)>) -> bool {
    forall|i: int| 0 <= i < ps.len() ==> (#[trigger] ps[i].0).len() > 0
}

/// The parameter pairs read back by the server-side rules from the bytes
/// after the version field: NUL-terminated keys and values until one
/// closing NUL, which must end the sequence.
pub open spec fn spec_parse_pairs(b: Seq<u8>) -> Option<Seq<(Seq<u8>, Seq<u8>)>>
    decreases b.len(),
{
    if b.len() == 0 {
        None
    } else if b[0] == 0 {
        if b.len() == 1 {
            Some(Seq::empty())
        } else {
            None
        }
    } else {
        match find_nul(b) {
            None => None,
            Some(k) => if 0 <= k && k + 1 <= b.len() {
                let key = b.subrange(0, k);
                let rest = b.skip(k + 1);
                match find_nul(rest) {
                    None => None,
                    Some(v) => if 0 <= v && v + 1 <= rest.len() {
                        match spec_parse_pairs(rest.skip(v + 1)) {
                            None => None,
                            Some(ps) => Some(seq![(key, rest.subrange(0, v))] + ps),
                        }
                    } else {
                        None
                    },
                }
            } else {
                None
            },
        }
    }
}

/// The whole startup message read back by the server-side framing rules:
/// a big-endian length that must count the whole message, the protocol
/// version 3.0, then the parameter pairs.
pub open spec fn spec_parse_startup(b: Seq<u8>) -> Option<Seq<(Seq<u8>, Seq<u8>)>> {
    if b.len() >= 8 && be32(b[0], b[1], b[2], b[3]) == b.len() && b.subrange(4, 8) == seq![
        0u8,
        3u8,
        0u8,
        0u8,
    ] {
        spec_parse_pairs(b.skip(8))
    } else {
        None
    }
}

/// The wire form of a pair list also starts with the first pair's wire
/// form, followed by the remaining pairs' wire form.
proof fn lemma_pairs_bytes_first(ps: Seq<(Seq<u8>, Seq<u8>)>)
    requires
        ps.len() > 0,
    ensures
        pairs_bytes(ps) == ps.first().0 + seq![0u8] + ps.first().1 + seq![0u8] + pairs_bytes(
            ps.drop_first(),
        ),
    decreases ps.len(),
{
    if ps.len() == 1 {
        assert(ps.drop_last() =~= Seq::<(Seq<u8>, Seq<u8>)>::empty());
        assert(ps.drop_first() =~= Seq::<(Seq<u8>, Seq<u8>)>::empty());
        assert(pairs_bytes(ps) =~= ps.first().0 + seq![0u8] + ps.first().1 + seq![0u8]
            + pairs_bytes(ps.drop_first()));
    } else {
        let d = ps.drop_last();
        lemma_pairs_bytes_first(d);
        assert(d.first() == ps.first());
        assert(ps.drop_first().drop_last() =~= d.drop_first());
        assert(ps.drop_first().last() == ps.last());
        assert(pairs_bytes(ps.drop_first()) == pairs_bytes(ps.drop_first().drop_last())
            + ps.last().0 + seq![0u8] + ps.last().1 + seq![0u8]);
        assert(pairs_bytes(ps) =~= ps.first().0 + seq![0u8] + ps.first().1 + seq![0u8]
            + pairs_bytes(ps.drop_first()));
    }
}

/// Reading the pair list back from its wire form, closed by the final
/// NUL, yields the same pairs in the same order.
proof fn lemma_parse_pairs_roundtrip(ps: Seq<(Seq<u8>, Seq<u8>)>)
    requires
        pairs_nul_free(ps),
        keys_nonempty(ps),
    ensures
        spec_parse_pairs(pairs_bytes(ps) + seq![0u8]) == Some(ps),
    decreases ps.len(),
{
    let b = pairs_bytes(ps) + seq![0u8];
    if ps.len() == 0 {
        assert(b =~= seq![0u8]);
        assert(ps =~= Seq::<(Seq<u8>, Seq<u8>)>::empty());
    } else {
        lemma_pairs_bytes_first(ps);
        let k0 = ps.first().0;
        let v0 = ps.first().1;
        let tail = pairs_bytes(ps.drop_first()) + seq![0u8];
        assert(nul_free(ps[0].0) && nul_free(ps[0].1));
        assert(b =~= k0 + seq![0u8] + v0 + seq![0u8] + tail);
        assert(b[0] == k0[0]);
        lemma_find_nul(b);
        assert(b[k0.len() as int] == 0);
        assert(forall|m: int| 0 <= m < k0.len() ==> b[m] == k0[m]);
        assert(find_nul(b) == Some(k0.len() as int));
        assert(b.subrange(0, k0.len() as int) =~= k0);
        let rest = b.skip(k0.len() + 1int);
        assert(rest =~= v0 + seq![0u8] + tail);
        lemma_find_nul(rest);
        assert(rest[v0.len() as int] == 0);
        assert(forall|m: int| 0 <= m < v0.len() ==> rest[m] == v0[m]);
        assert(find_nul(rest) == Some(v0.len() as int));
        assert(rest.subrange(0, v0.len() as int) =~= v0);
        assert(rest.skip(v0.len() + 1int) =~= tail);
        let d = ps.drop_first();
        assert(forall|i: int| 0 <= i < d.len() ==> d[i] == ps[i + 1]);
        assert forall|i: int| 0 <= i < d.len() implies nul_free(#[trigger] d[i].0) && nul_free(
            d[i].1,
        ) && d[i].0.len() > 0 by {
            assert(d[i] == ps[i + 1]);
            assert(nul_free(ps[i + 1].0) && nul_free(ps[i + 1].1));
            assert(ps[i + 1].0.len() > 0);
        }
        lemma_parse_pairs_roundtrip(d);
        assert(ps.first() == (k0, v0));
        assert(seq![(k0, v0)] + d =~= ps);
        assert(spec_parse_pairs(b) == Some(ps));
    }
}

/// Round-trip: parsing a serialized startup message back through the
/// server-side framing rules yields the same parameter set in the same
/// order. Empty keys are left out: their wire form is indistinguishable
/// from the end of the list.
pub proof fn lemma_startup_roundtrip(ps: Seq<(Seq<u8>, Seq<u8>)>)
    requires
        startup_ok(ps),
        keys_nonempty(ps),
    ensures
        spec_parse_startup(startup_bytes(ps)) == Some(ps),
{
    let body = startup_body(ps);
    let b = startup_bytes(ps);
    let n = 4 + body.len() as int;
    lemma_be32_roundtrip(n);
    assert(b[0] == be32_bytes(n)[0]);
    assert(b[1] == be32_bytes(n)[1]);
    assert(b[2] == be32_bytes(n)[2]);
    assert(b[3] == be32_bytes(n)[3]);
    assert(be32(b[0], b[1], b[2], b[3]) == b.len());
    assert(b.subrange(4, 8) =~= seq![0u8, 3u8, 0u8, 0u8]);
    assert(b.skip(8) =~= pairs_bytes(ps) + seq![0u8]);
    lemma_parse_pairs_roundtrip(ps);
}

} // verus!
