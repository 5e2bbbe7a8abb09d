use vstd::prelude::*;

verus! {

/// Position of the first NUL byte in `b`.
pub open spec fn find_nul(b: Seq<u8>) -> Option<int>
    decreases b.len(),
{
    if b.len() == 0 {
        None
    } else if b[0] == 0 {
        Some(0int)
    } else {
        match find_nul(b.drop_first()) {
            Some(i) => Some(i + 1),
            None => None,
        }
    }
}

/// `find_nul` finds the first NUL: the byte there is NUL and none before
/// it is; when it finds nothing, no byte is NUL.
pub proof fn lemma_find_nul(b: Seq<u8>)
    ensures
        match find_nul(b) {
            Some(i) => 0 <= i < b.len() && b[i] == 0 && forall|m: int| 0 <= m < i ==> b[m] != 0,
            None => forall|m: int| 0 <= m < b.len() ==> b[m] != 0,
        },
    decreases b.len(),
{
    if b.len() == 0 {
    } else if b[0] == 0 {
    } else {
        lemma_find_nul(b.drop_first());
        assert(forall|m: int| 0 <= m < b.drop_first().len() ==> b.drop_first()[m] == b[m + 1]);
        match find_nul(b.drop_first()) {
            Some(i) => {
                assert(b[i + 1] == b.drop_first()[i]);
                assert forall|m: int| 0 <= m < i + 1 implies b[m] != 0 by {
                    if m > 0 {
                        assert(b.drop_first()[m - 1] != 0);
                    }
                }
            },
            None => {
                assert forall|m: int| 0 <= m < b.len() implies b[m] != 0 by {
                    if m > 0 {
                        assert(b.drop_first()[m - 1] != 0);
                    }
                }
            },
        }
    }
}

/// The structured fields of an ErrorResponse body: a run of fields, each a
/// nonzero type byte followed by a NUL-terminated value, closed by one
/// final NUL that must end the body. `None` when the body does not have
/// exactly that shape.
pub open spec fn spec_error_fields(b: Seq<u8>) -> Option<Seq<(u8, Seq<u8>)>>
    decreases b.len(),
{
    if b.len() == 0 {
        None
    } else if b[0] == 0 {
        if b.len() == 1 {
            Some(Seq::empty())
        } else {
            None
        }
    } else {
        match find_nul(b.drop_first()) {
            None => None,
            Some(i) => if 0 <= i && i + 2 <= b.len() {
                match spec_error_fields(b.skip(i + 2)) {
                    None => None,
                    Some(fs) => Some(seq![(b[0], b.subrange(1, i + 1))] + fs),
                }
            } else {
                None
            },
        }
    }
}

/// The decoded fields as byte sequences.
pub open spec fn field_views(fs: Seq<(u8, Vec<u8>)>) -> Seq<(u8, Seq<u8>)> {
    fs.map_values(|f: (u8, Vec<u8>)| (f.0, f.1@))
}

/// Decodes the body of an ErrorResponse into its ordered field list; each
/// entry carries the one-byte field type and the field's bytes.
pub fn parse_error_fields(body: &Vec<u8>) -> (r: Option<Vec<(u8, Vec<u8>)>>)
    ensures
        match r {
            Some(fs) => spec_error_fields(body@) == Some(field_views(fs@)),
            None => spec_error_fields(body@) is None,
        },
{
    let mut acc: Vec<(u8, Vec<u8>)> = Vec::new();
    let mut pos: usize = 0;
    proof {
        assert(body@.skip(0) =~= body@);
        assert(field_views(acc@) =~= Seq::<(u8, Seq<u8>)>::empty());
    }
    loop
        invariant
            0 <= pos <= body@.len(),
            match spec_error_fields(body@.skip(pos as int)) {
                Some(fs) => spec_error_fields(body@) == Some(field_views(acc@) + fs),
                None => spec_error_fields(body@) is None,
            },
        decreases body@.len() - pos,
    {
        let ghost s = body@.skip(pos as int);
        if pos >= body.len() {
            return None;
        }
        let t = body[pos];
        proof {
            assert(s[0] == body@[pos as int]);
        }
        if t == 0 {
            if pos + 1 == body.len() {
                proof {
                    assert(s.len() == 1);
                    assert(spec_error_fields(s) == Some(Seq::<(u8, Seq<u8>)>::empty()));
                    assert(field_views(acc@) + Seq::<(u8, Seq<u8>)>::empty() =~= field_views(
                        acc@,
                    ));
                }
                return Some(acc);
            } else {
                return None;
            }
        }
        let mut q: usize = pos + 1;
        while q < body.len() && body[q] != 0
            invariant
                pos + 1 <= q <= body@.len(),
                forall|m: int| pos + 1 <= m < q ==> body@[m] != 0,
            decreases body@.len() - q,
        {
            q = q + 1;
        }
        proof {
            lemma_find_nul(s.drop_first());
            assert(s.drop_first() =~= body@.subrange(pos + 1, body@.len() as int));
        }
        if q >= body.len() {
            proof {
                assert(forall|m: int|
                    0 <= m < s.drop_first().len() ==> s.drop_first()[m] == body@[pos + 1 + m]);
                assert(find_nul(s.drop_first()) is None);
                assert(spec_error_fields(s) is None);
            }
            return None;
        }
        let ghost j = q - pos - 1;
        proof {
            assert(s.drop_first()[j] == body@[q as int]);
            assert(forall|m: int| 0 <= m < j ==> s.drop_first()[m] == body@[pos + 1 + m]);
            assert(find_nul(s.drop_first()) == Some(j));
        }
        let mut val: Vec<u8> = Vec::new();
        let mut v: usize = pos + 1;
        while v < q
            invariant
                pos + 1 <= v <= q <= body@.len(),
                val@ == body@.subrange(pos + 1, v as int),
            decreases q - v,
        {
            val.push(body[v]);
            proof {
                assert(val@ =~= body@.subrange(pos + 1, v + 1));
            }
            v = v + 1;
        }
        let ghost old_acc = acc@;
        acc.push((t, val));
        proof {
            assert(s.subrange(1, j + 1) =~= body@.subrange(pos + 1, q as int));
            assert(s.skip(j + 2) =~= body@.skip(q + 1));
            assert(field_views(acc@) =~= field_views(old_acc) + seq![(t, val@)]);
            match spec_error_fields(body@.skip(q + 1)) {
                Some(fs2) => {
                    assert(spec_error_fields(s) == Some(seq![(t, val@)] + fs2));
                    assert(field_views(old_acc) + (seq![(t, val@)] + fs2) =~= field_views(acc@)
                        + fs2);
                },
                None => {
                    assert(spec_error_fields(s) is None);
                },
            }
        }
        pos = q + 1;
    }
}

} // verus!
