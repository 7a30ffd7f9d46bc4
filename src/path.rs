//! Path lists: a 16-bit count, then per segment two reserved zero bytes, an
//! 8-bit length and the segment's bytes.

use vstd::prelude::*;
use vstd::utf8::encode_utf8;
use crate::codes::FieldType;
use crate::transaction::{CodecError, TransactionField};
use crate::wire::{be16, lemma_u16_round_trip, push_all, push_u16, read_u16, copy_range, u16_at};

verus! {

/// The views of a list of byte strings.
pub open spec fn segments_view(v: Seq<Vec<u8>>) -> Seq<Seq<u8>> {
    v.map_values(|s: Vec<u8>| s@)
}

/// The UTF-8 bytes of each string of a path.
pub open spec fn path_bytes(v: Seq<String>) -> Seq<Seq<u8>> {
    v.map_values(|s: String| encode_utf8(s@))
}

/// A path that the format can carry: at most 65535 segments of at most 255 bytes.
pub open spec fn path_encodable(segs: Seq<Seq<u8>>) -> bool {
    &&& segs.len() <= 65535
    &&& forall|i: int| 0 <= i < segs.len() ==> #[trigger] segs[i].len() <= 255
}

/// The bytes of one segment: two reserved zero bytes, the length, the name.
pub open spec fn segment_wire(seg: Seq<u8>) -> Seq<u8> {
    seq![0u8, 0u8, seg.len() as u8] + seg
}

/// The bytes of the segments, one after another.
pub open spec fn segments_wire(segs: Seq<Seq<u8>>) -> Seq<u8>
    decreases segs.len(),
{
    if segs.len() == 0 {
        Seq::empty()
    } else {
        segment_wire(segs[0]) + segments_wire(segs.drop_first())
    }
}

/// The bytes of a path list.
pub open spec fn path_wire(segs: Seq<Seq<u8>>) -> Seq<u8> {
    be16(segs.len() as u16) + segments_wire(segs)
}

/// `count` segments read from `s`, or `None` when `s` ends before them; bytes
/// after the last segment are ignored.
pub open spec fn parse_segments(s: Seq<u8>, count: nat) -> Option<Seq<Seq<u8>>>
    decreases count,
{
    if count == 0 {
        Some(Seq::empty())
    } else if s.len() < 3 || s.len() < 3 + s[2] {
        None
    } else {
        let n = s[2] as int;
        match parse_segments(s.subrange(3 + n, s.len() as int), (count - 1) as nat) {
            Some(rest) => Some(seq![s.subrange(3, 3 + n)] + rest),
            None => None,
        }
    }
}

/// The segments a path list holds, or `None` when it is cut short.
pub open spec fn parse_path(s: Seq<u8>) -> Option<Seq<Seq<u8>>> {
    if s.len() < 2 {
        None
    } else {
        parse_segments(s.subrange(2, s.len() as int), u16_at(s, 0) as nat)
    }
}

proof fn lemma_segments_wire_push(segs: Seq<Seq<u8>>, seg: Seq<u8>)
    ensures
        segments_wire(segs.push(seg)) == segments_wire(segs) + segment_wire(seg),
    decreases segs.len(),
{
    if segs.len() == 0 {
        assert(segs.push(seg).drop_first() =~= Seq::<Seq<u8>>::empty());
        assert(segs.push(seg)[0] == seg);
        assert(segments_wire(segs.push(seg).drop_first()) =~= Seq::<u8>::empty());
        assert(segments_wire(segs) =~= Seq::<u8>::empty());
        assert(segments_wire(segs.push(seg)) =~= segment_wire(seg));
    } else {
        assert(segs.push(seg).drop_first() =~= segs.drop_first().push(seg));
        assert(segs.push(seg)[0] == segs[0]);
        lemma_segments_wire_push(segs.drop_first(), seg);
        assert(segments_wire(segs.push(seg)) =~= segments_wire(segs) + segment_wire(seg));
    }
}

proof fn lemma_parse_segments_wire(segs: Seq<Seq<u8>>, rest: Seq<u8>)
    requires
        forall|i: int| 0 <= i < segs.len() ==> #[trigger] segs[i].len() <= 255,
    ensures
        parse_segments(segments_wire(segs) + rest, segs.len()) == Some(segs),
    decreases segs.len(),
{
    if segs.len() == 0 {
        assert(Seq::<Seq<u8>>::empty() =~= segs);
    } else {
        let seg = segs[0];
        let tail = segs.drop_first();
        assert forall|i: int| 0 <= i < tail.len() implies #[trigger] tail[i].len() <= 255 by {
            assert(tail[i] == segs[i + 1]);
        }
        lemma_parse_segments_wire(tail, rest);
        let s = segments_wire(segs) + rest;
        assert(s =~= seq![0u8, 0u8, seg.len() as u8] + seg + (segments_wire(tail) + rest));
        assert(s[2] as int == seg.len());
        assert(s.subrange(3, 3 + seg.len() as int) =~= seg);
        assert(s.subrange(3 + seg.len() as int, s.len() as int) =~= segments_wire(tail) + rest);
        assert(seq![seg] + tail =~= segs);
    }
}

/// Encoding a path list and reading it back gives the same segments.
pub proof fn lemma_path_round_trip(segs: Seq<Seq<u8>>)
    requires
        path_encodable(segs),
        forall|i: int| 0 <= i < segs.len() ==> #[trigger] segs[i].len() > 0,
    ensures
        parse_path(path_wire(segs)) == Some(segs),
{
    let s = path_wire(segs);
    lemma_u16_round_trip(segs.len() as u16);
    assert(s.subrange(2, s.len() as int) =~= segments_wire(segs) + Seq::<u8>::empty());
    lemma_parse_segments_wire(segs, Seq::<u8>::empty());
}

/// The bytes of a path list of the given segments.
pub fn encode_path(segments: &Vec<Vec<u8>>) -> (r: Result<Vec<u8>, CodecError>)
    ensures
        match r {
            Ok(b) => path_encodable(segments_view(segments@)) && b@ == path_wire(segments_view(segments@)),
            Err(e) => !path_encodable(segments_view(segments@)) && e == CodecError::PathTooLong,
        },
{
    let ghost segs = segments_view(segments@);
    if segments.len() > 65535 {
        return Err(CodecError::PathTooLong);
    }
    let mut buf: Vec<u8> = Vec::new();
    push_u16(&mut buf, segments.len() as u16);
    let ghost head = buf@;
    let mut i: usize = 0;
    while i < segments.len()
        invariant
            segs == segments_view(segments@),
            segments@.len() <= 65535,
            i <= segments@.len(),
            head == be16(segments@.len() as u16),
            buf@ == head + segments_wire(segs.subrange(0, i as int)),
            forall|j: int| 0 <= j < i ==> #[trigger] segs[j].len() <= 255,
        decreases segments@.len() - i,
    {
        let seg = &segments[i];
        assert(segs[i as int] == seg@);
        if seg.len() > 255 {
            return Err(CodecError::PathTooLong);
        }
        proof {
            lemma_segments_wire_push(segs.subrange(0, i as int), seg@);
            assert(segs.subrange(0, i + 1) =~= segs.subrange(0, i as int).push(seg@));
        }
        buf.push(0u8);
        buf.push(0u8);
        buf.push(seg.len() as u8);
        push_all(&mut buf, seg.as_slice());
        i = i + 1;
        assert(buf@ =~= head + segments_wire(segs.subrange(0, i as int)));
    }
    assert(segs.subrange(0, i as int) =~= segs);
    Ok(buf)
}

/// The segments of a path list; fails when the bytes end before the declared
/// segments do.
pub fn decode_path(data: &[u8]) -> (r: Result<Vec<Vec<u8>>, CodecError>)
    ensures
        match r {
            Ok(v) => parse_path(data@) == Some(segments_view(v@)),
            Err(e) => parse_path(data@) is None && e == CodecError::MalformedField,
        },
{
    if data.len() < 2 {
        return Err(CodecError::MalformedField);
    }
    let count = read_u16(data, 0);
    let mut out: Vec<Vec<u8>> = Vec::new();
    let mut offset: usize = 2;
    let mut k: u16 = 0;
    while k < count
        invariant
            2 <= offset <= data@.len(),
            k <= count,
            count == u16_at(data@, 0),
            parse_path(data@) == match parse_segments(data@.subrange(offset as int, data@.len() as int), (count - k) as nat) {
                Some(rest) => Some(segments_view(out@) + rest),
                None => None::<Seq<Seq<u8>>>,
            },
        decreases count - k,
    {
        let ghost s = data@.subrange(offset as int, data@.len() as int);
        if data.len() - offset < 3 {
            return Err(CodecError::MalformedField);
        }
        let n = data[offset + 2] as usize;
        assert(s[2] as usize == n);
        if data.len() - offset - 3 < n {
            return Err(CodecError::MalformedField);
        }
        let seg = copy_range(data, offset + 3, offset + 3 + n);
        proof {
            assert(seg@ =~= s.subrange(3, 3 + n as int));
            assert(s.subrange(3 + n as int, s.len() as int) =~= data@.subrange(offset + 3 + n, data@.len() as int));
            assert(segments_view(out@.push(seg)) =~= segments_view(out@) + seq![seg@]);
            match parse_segments(data@.subrange(offset + 3 + n, data@.len() as int), (count - k - 1) as nat) {
                Some(rest) => {
                    assert(segments_view(out@) + (seq![seg@] + rest) =~= segments_view(out@) + seq![seg@] + rest);
                },
                None => {},
            }
        }
        out.push(seg);
        offset = offset + 3 + n;
        k = k + 1;
    }
    assert(segments_view(out@) + Seq::<Seq<u8>>::empty() =~= segments_view(out@));
    Ok(out)
}

impl TransactionField {
    /// A field carrying the path list of the UTF-8 bytes of each name.
    pub fn from_path(field_type: FieldType, path: &Vec<String>) -> (r: Result<TransactionField, CodecError>)
        ensures
            match r {
                Ok(f) => path_encodable(path_bytes(path@)) && f.field_type == field_type
                    && f.data@ == path_wire(path_bytes(path@)),
                Err(e) => !path_encodable(path_bytes(path@)) && e == CodecError::PathTooLong,
            },
    {
        let mut segments: Vec<Vec<u8>> = Vec::new();
        let mut i: usize = 0;
        while i < path.len()
            invariant
                i <= path@.len(),
                segments_view(segments@) == path_bytes(path@).subrange(0, i as int),
            decreases path@.len() - i,
        {
            let b = crate::text::str_bytes(path[i].as_str());
            assert(b@ == path_bytes(path@)[i as int]);
            assert(segments_view(segments@.push(b)) =~= segments_view(segments@).push(b@));
            segments.push(b);
            i = i + 1;
            assert(segments_view(segments@) =~= path_bytes(path@).subrange(0, i as int));
        }
        assert(path_bytes(path@).subrange(0, i as int) =~= path_bytes(path@));
        match encode_path(&segments) {
            Ok(data) => Ok(TransactionField { field_type, data }),
            Err(e) => Err(e),
        }
    }
}

} // verus!
