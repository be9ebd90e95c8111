use vstd::prelude::*;
use vstd::bytes::{
    lemma_auto_spec_u32_to_from_le_bytes, spec_u32_from_le_bytes, spec_u32_to_le_bytes,
    u32_from_le_bytes, u32_to_le_bytes,
};
use vstd::slice::{slice_subrange, slice_to_vec};
use crate::error::StreamError;
use crate::message::{payloads_of, Message};

verus! {

/// Every payload fits the four-byte length field of a frame.
pub open spec fn payloads_wf(payloads: Seq<Seq<u8>>) -> bool {
    forall|i: int| 0 <= i < payloads.len() ==> (#[trigger] payloads[i]).len() <= u32::MAX
}

/// One payload on disk: a four-byte little-endian length followed by the
/// payload bytes.
pub open spec fn frame(payload: Seq<u8>) -> Seq<u8>
    recommends
        payload.len() <= u32::MAX,
{
    spec_u32_to_le_bytes(payload.len() as u32) + payload
}

/// The on-disk image of a segment's messages: their frames in log order.
pub open spec fn encode_all(payloads: Seq<Seq<u8>>) -> Seq<u8>
    decreases payloads.len(),
{
    if payloads.len() == 0 {
        Seq::empty()
    } else {
        frame(payloads[0]) + encode_all(payloads.drop_first())
    }
}

/// Parsing an on-disk image back into payloads; `None` when the image is
/// truncated.
pub open spec fn decode_all(bytes: Seq<u8>) -> Option<Seq<Seq<u8>>>
    decreases bytes.len(),
{
    if bytes.len() == 0 {
        Some(Seq::empty())
    } else if bytes.len() < 4 {
        None
    } else {
        let n = spec_u32_from_le_bytes(bytes.subrange(0, 4)) as int;
        if bytes.len() < 4 + n {
            None
        } else if decode_all(bytes.skip(4 + n)) is Some {
            Some(seq![bytes.subrange(4, 4 + n)] + decode_all(bytes.skip(4 + n)).unwrap())
        } else {
            None
        }
    }
}

/// Appending one payload to a sequence appends its frame to the image.
pub proof fn lemma_encode_all_push(payloads: Seq<Seq<u8>>, p: Seq<u8>)
    ensures
        encode_all(payloads.push(p)) == encode_all(payloads) + frame(p),
    decreases payloads.len(),
{
    let q = payloads.push(p);
    if payloads.len() == 0 {
        assert(q[0] == p);
        assert(q.drop_first() =~= Seq::<Seq<u8>>::empty());
        assert(encode_all(q) == frame(p) + encode_all(Seq::<Seq<u8>>::empty()));
        assert(frame(p) + Seq::<u8>::empty() =~= Seq::<u8>::empty() + frame(p));
    } else {
        assert(q[0] == payloads[0]);
        assert(q.drop_first() =~= payloads.drop_first().push(p));
        lemma_encode_all_push(payloads.drop_first(), p);
        assert(encode_all(q) == frame(payloads[0]) + (encode_all(payloads.drop_first())
            + frame(p)));
        assert(frame(payloads[0]) + (encode_all(payloads.drop_first()) + frame(p)) =~= (frame(
            payloads[0],
        ) + encode_all(payloads.drop_first())) + frame(p));
    }
}

/// Round trip: parsing the image written for a sequence of payloads yields
/// exactly those payloads, in order.
pub proof fn lemma_decode_all_encode_all(payloads: Seq<Seq<u8>>)
    requires
        payloads_wf(payloads),
    ensures
        decode_all(encode_all(payloads)) == Some(payloads),
    decreases payloads.len(),
{
    lemma_auto_spec_u32_to_from_le_bytes();
    if payloads.len() == 0 {
        assert(decode_all(encode_all(payloads)) == Some(payloads));
    } else {
        let p0 = payloads[0];
        let rest = payloads.drop_first();
        assert(payloads_wf(rest));
        lemma_decode_all_encode_all(rest);
        let hdr = spec_u32_to_le_bytes(p0.len() as u32);
        let b = encode_all(payloads);
        let n = p0.len() as int;
        assert(b == hdr + p0 + encode_all(rest));
        assert(b.len() == 4 + n + encode_all(rest).len());
        assert(b.subrange(0, 4) =~= hdr);
        assert(spec_u32_from_le_bytes(b.subrange(0, 4)) as int == n);
        assert(b.subrange(4, 4 + n) =~= p0);
        assert(b.skip(4 + n) =~= encode_all(rest));
        assert(seq![p0] + rest =~= payloads);
        assert(decode_all(encode_all(payloads)) == Some(payloads));
    }
}

/// Writes the frames of the given messages, in order, into one byte vector.
pub fn encode_messages(messages: &Vec<Message>) -> (bytes: Vec<u8>)
    requires
        forall|i: int| 0 <= i < messages@.len() ==> (#[trigger] messages@[i]).wf(),
    ensures
        bytes@ == encode_all(payloads_of(messages@)),
{
    let mut bytes: Vec<u8> = Vec::new();
    let mut i: usize = 0;
    while i < messages.len()
        invariant
            i <= messages@.len(),
            forall|k: int| 0 <= k < messages@.len() ==> (#[trigger] messages@[k]).wf(),
            bytes@ == encode_all(payloads_of(messages@).take(i as int)),
        decreases messages@.len() - i,
    {
        let ghost done = payloads_of(messages@).take(i as int);
        let m = &messages[i];
        let mut hdr = u32_to_le_bytes(m.payload.len() as u32);
        bytes.append(&mut hdr);
        let mut body = slice_to_vec(m.payload.as_slice());
        bytes.append(&mut body);
        proof {
            lemma_encode_all_push(done, messages@[i as int]@);
            assert(payloads_of(messages@).take(i + 1) =~= done.push(messages@[i as int]@));
            assert(bytes@ =~= encode_all(done) + frame(messages@[i as int]@));
        }
        i = i + 1;
    }
    proof {
        assert(payloads_of(messages@).take(messages@.len() as int) =~= payloads_of(messages@));
    }
    bytes
}

/// Parses an on-disk image back into messages; reports a truncated image as
/// a corrupt segment.
pub fn decode_messages(bytes: &Vec<u8>) -> (r: Result<Vec<Message>, StreamError>)
    ensures
        match decode_all(bytes@) {
            Some(ps) => {
                &&& r matches Ok(ms)
                &&& payloads_of(ms@) == ps
                &&& forall|i: int| 0 <= i < ms@.len() ==> (#[trigger] ms@[i]).wf()
            },
            None => r == Err::<Vec<Message>, StreamError>(StreamError::CannotParseSegment),
        },
{
    let n = bytes.len();
    let mut out: Vec<Message> = Vec::new();
    let mut i: usize = 0;
    proof {
        assert(bytes@.skip(0) =~= bytes@);
        if decode_all(bytes@) is Some {
            assert(payloads_of(out@) + decode_all(bytes@).unwrap() =~= decode_all(
                bytes@,
            ).unwrap());
        }
    }
    while i < n
        invariant
            i <= n,
            n == bytes@.len(),
            forall|k: int| 0 <= k < out@.len() ==> (#[trigger] out@[k]).wf(),
            decode_all(bytes@) == if decode_all(bytes@.skip(i as int)) is Some {
                Some(payloads_of(out@) + decode_all(bytes@.skip(i as int)).unwrap())
            } else {
                None::<Seq<Seq<u8>>>
            },
        decreases n - i,
    {
        let ghost suffix = bytes@.skip(i as int);
        if n - i < 4 {
            return Err(StreamError::CannotParseSegment);
        }
        let hdr = slice_subrange(bytes.as_slice(), i, i + 4);
        proof {
            assert(hdr@ =~= suffix.subrange(0, 4));
        }
        let len32 = u32_from_le_bytes(hdr);
        let len = len32 as usize;
        if n - i - 4 < len {
            return Err(StreamError::CannotParseSegment);
        }
        let body = slice_subrange(bytes.as_slice(), i + 4, i + 4 + len);
        proof {
            assert(body@ =~= suffix.subrange(4, 4 + len as int));
        }
        let payload = slice_to_vec(body);
        out.push(Message { payload });
        proof {
            assert(bytes@.skip(i + 4 + len as int) =~= suffix.skip(4 + len as int));
            assert(payloads_of(out@) =~= payloads_of(out@.drop_last()).push(suffix.subrange(
                4,
                4 + len as int,
            )));
            if decode_all(suffix.skip(4 + len as int)) is Some {
                assert(payloads_of(out@.drop_last()) + (seq![
                    suffix.subrange(4, 4 + len as int),
                ] + decode_all(suffix.skip(4 + len as int)).unwrap()) =~= payloads_of(out@)
                    + decode_all(suffix.skip(4 + len as int)).unwrap());
            }
        }
        i = i + 4 + len;
    }
    proof {
        assert(bytes@.skip(n as int) =~= Seq::<u8>::empty());
        assert(payloads_of(out@) + Seq::<Seq<u8>>::empty() =~= payloads_of(out@));
    }
    Ok(out)
}

} // verus!
