//! The responses the daemon sends to its clients, and their form on the wire.

use crate::clipping::{clippings_view, Clipping, ClippingView};
use crate::error::Error;
use crate::wire::{
    lemma_text_bytes_len, lemma_text_prefix_unique, lemma_u32_bytes, lemma_u32_prefix_unique,
    lemma_u64_bytes, lemma_u64_prefix_unique, put_text, put_u32, put_u64, take_text, take_u32,
    take_u64, text_bytes,
};
use vstd::bytes::{spec_u32_to_le_bytes, spec_u64_to_le_bytes};
use vstd::prelude::*;
use vstd::slice::slice_subrange;
use vstd::utf8::encode_utf8;

verus! {

/// What the daemon answers.
#[derive(Debug, PartialEq, Eq)]
pub enum Response {
    /// The stored clippings in order, each numbered by its position.
    Clippings(Vec<Clipping>),
    /// The acknowledgement of a command.
    Ack,
}

/// The mathematical value of a [`Response`].
pub enum ResponseView {
    Clippings(Seq<ClippingView>),
    Ack,
}

impl View for Response {
    type V = ResponseView;

    open spec fn view(&self) -> ResponseView {
        match self {
            Response::Clippings(clips) => ResponseView::Clippings(clippings_view(clips@)),
            Response::Ack => ResponseView::Ack,
        }
    }
}

impl Clone for Response {
    fn clone(&self) -> (res: Self)
        ensures
            res@ == self@,
    {
        match self {
            Response::Clippings(clips) => {
                let mut copy: Vec<Clipping> = Vec::new();
                let mut i: usize = 0;
                while i < clips.len()
                    invariant
                        i <= clips@.len(),
                        copy@ == clips@.take(i as int),
                    decreases clips@.len() - i,
                {
                    copy.push(clips[i].clone());
                    proof {
                        assert(copy@ =~= clips@.take(i as int + 1));
                    }
                    i = i + 1;
                }
                proof {
                    assert(copy@ =~= clips@);
                }
                Response::Clippings(copy)
            },
            Response::Ack => Response::Ack,
        }
    }
}

/// Whether every number of these clippings fits a machine word, as it does in
/// every list that a program holds.
pub open spec fn ids_fit(clips: Seq<ClippingView>) -> bool {
    forall|i: int| 0 <= i < clips.len() ==> (#[trigger] clips[i]).id <= usize::MAX
}

/// Whether a program can hold this response.
pub open spec fn representable(response: ResponseView) -> bool {
    match response {
        ResponseView::Clippings(clips) => ids_fit(clips),
        ResponseView::Ack => true,
    }
}

/// A clipping on the wire: its text, then its number as eight little-endian
/// bytes.
pub open spec fn clipping_bytes(clip: ClippingView) -> Seq<u8> {
    text_bytes(clip.data) + spec_u64_to_le_bytes(clip.id as u64)
}

/// Clippings on the wire, one after the other.
pub open spec fn clippings_bytes(clips: Seq<ClippingView>) -> Seq<u8>
    decreases clips.len(),
{
    if clips.len() == 0 {
        Seq::empty()
    } else {
        clippings_bytes(clips.drop_last()) + clipping_bytes(clips.last())
    }
}

/// A response on the wire: its tag as four little-endian bytes; a listing
/// goes on with the number of its clippings as eight little-endian bytes and
/// then the clippings.
pub open spec fn response_bytes(response: ResponseView) -> Seq<u8> {
    match response {
        ResponseView::Clippings(clips) => spec_u32_to_le_bytes(0) + spec_u64_to_le_bytes(
            clips.len() as u64,
        ) + clippings_bytes(clips),
        ResponseView::Ack => spec_u32_to_le_bytes(1),
    }
}

/// The response whose wire form starts `bytes`, if there is one among those
/// that a program can hold. There is never more than one.
pub open spec fn parse_response(bytes: Seq<u8>) -> Option<ResponseView> {
    if exists|v: ResponseView|
        representable(v) && (#[trigger] response_bytes(v)).is_prefix_of(bytes) {
        Some(
            choose|v: ResponseView|
                representable(v) && (#[trigger] response_bytes(v)).is_prefix_of(bytes),
        )
    } else {
        None
    }
}

/// A clipping takes sixteen bytes more than the UTF-8 encoding of its text.
pub proof fn lemma_clipping_bytes_len(clip: ClippingView)
    ensures
        clipping_bytes(clip).len() == 16 + encode_utf8(clip.data).len(),
{
    lemma_text_bytes_len(clip.data);
    lemma_u64_bytes(clip.id as u64, 0);
}

/// One more clipping adds its bytes at the end.
pub proof fn lemma_clippings_bytes_push(clips: Seq<ClippingView>, clip: ClippingView)
    ensures
        clippings_bytes(clips.push(clip)) == clippings_bytes(clips) + clipping_bytes(clip),
{
    assert(clips.push(clip).drop_last() =~= clips);
}

/// Every clipping takes at least sixteen bytes.
pub proof fn lemma_clippings_bytes_len(clips: Seq<ClippingView>)
    ensures
        clippings_bytes(clips).len() >= 16 * clips.len(),
    decreases clips.len(),
{
    if clips.len() > 0 {
        lemma_clippings_bytes_len(clips.drop_last());
        lemma_clipping_bytes_len(clips.last());
    }
}

/// The bytes of the first `k` clippings start the bytes of all of them, and
/// the bytes of the next clipping follow.
pub proof fn lemma_clippings_bytes_take(clips: Seq<ClippingView>, k: int)
    requires
        0 <= k <= clips.len(),
    ensures
        clippings_bytes(clips.take(k)).is_prefix_of(clippings_bytes(clips)),
        k < clips.len() ==> (clippings_bytes(clips.take(k)) + clipping_bytes(
            clips[k],
        )).is_prefix_of(clippings_bytes(clips)),
    decreases clips.len(),
{
    if k == clips.len() {
        assert(clips.take(k) =~= clips);
    } else {
        let front = clips.drop_last();
        assert(front.take(k) =~= clips.take(k));
        if k == clips.len() - 1 {
            assert(front =~= clips.take(k));
        } else {
            lemma_clippings_bytes_take(front, k);
            assert(front[k] == clips[k]);
        }
    }
}

/// At most one clipping has its wire form at the front of given bytes.
pub proof fn lemma_clipping_prefix_unique(a: ClippingView, b: ClippingView, bytes: Seq<u8>)
    requires
        clipping_bytes(a).is_prefix_of(bytes),
        clipping_bytes(b).is_prefix_of(bytes),
        a.id <= usize::MAX,
        b.id <= usize::MAX,
        bytes.len() <= u64::MAX,
    ensures
        a == b,
{
    lemma_text_bytes_len(a.data);
    lemma_text_bytes_len(b.data);
    lemma_u64_bytes(a.id as u64, b.id as u64);
    lemma_u64_bytes(b.id as u64, a.id as u64);
    assert(text_bytes(a.data) =~= clipping_bytes(a).subrange(0, text_bytes(a.data).len() as int));
    assert(text_bytes(b.data) =~= clipping_bytes(b).subrange(0, text_bytes(b.data).len() as int));
    assert(text_bytes(a.data).is_prefix_of(bytes));
    assert(text_bytes(b.data).is_prefix_of(bytes));
    lemma_text_prefix_unique(a.data, b.data, bytes);
    let n = text_bytes(a.data).len() as int;
    assert(spec_u64_to_le_bytes(a.id as u64) =~= clipping_bytes(a).subrange(n, n + 8));
    assert(spec_u64_to_le_bytes(b.id as u64) =~= clipping_bytes(b).subrange(n, n + 8));
    lemma_u64_prefix_unique(a.id as u64, b.id as u64, bytes.subrange(n, n + 8));
}

/// Of two lists of clippings whose wire forms start the same bytes, the
/// shorter one is the front of the longer one.
pub proof fn lemma_clippings_prefix_unique(
    a: Seq<ClippingView>,
    b: Seq<ClippingView>,
    bytes: Seq<u8>,
)
    requires
        a.len() <= b.len(),
        clippings_bytes(a).is_prefix_of(bytes),
        clippings_bytes(b).is_prefix_of(bytes),
        ids_fit(a),
        ids_fit(b),
        bytes.len() <= u64::MAX,
    ensures
        a == b.take(a.len() as int),
    decreases a.len(),
{
    if a.len() > 0 {
        let n = a.len() - 1;
        let front = a.drop_last();
        assert(ids_fit(front)) by {
            assert forall|i: int| 0 <= i < front.len() implies (#[trigger] front[i]).id
                <= usize::MAX by {
                assert(front[i] == a[i]);
            }
        }
        lemma_clippings_prefix_unique(front, b, bytes);
        lemma_clippings_bytes_take(b, n);
        let off = clippings_bytes(front).len() as int;
        let tail = bytes.subrange(off, bytes.len() as int);
        assert(clipping_bytes(a.last()) =~= clippings_bytes(a).subrange(
            off,
            clippings_bytes(a).len() as int,
        ));
        assert(clipping_bytes(a.last()).is_prefix_of(tail));
        let joined = clippings_bytes(b.take(n)) + clipping_bytes(b[n]);
        assert(clipping_bytes(b[n]) =~= joined.subrange(off, joined.len() as int));
        assert(clipping_bytes(b[n]).is_prefix_of(tail));
        lemma_clipping_prefix_unique(a.last(), b[n], tail);
        assert(a =~= b.take(a.len() as int));
    } else {
        assert(a =~= b.take(a.len() as int));
    }
}

/// No two responses start the same bytes: whoever reads a response from the
/// front of a stream reads the one that was written.
pub proof fn lemma_response_prefix_unique(a: ResponseView, b: ResponseView, bytes: Seq<u8>)
    requires
        representable(a),
        representable(b),
        response_bytes(a).is_prefix_of(bytes),
        response_bytes(b).is_prefix_of(bytes),
        bytes.len() <= u64::MAX,
    ensures
        a == b,
{
    lemma_u32_bytes(0, 1);
    match (a, b) {
        (ResponseView::Clippings(ca), ResponseView::Clippings(cb)) => {
            lemma_listing_front(a, bytes);
            lemma_listing_front(b, bytes);
            let body = bytes.subrange(12, bytes.len() as int);
            lemma_u64_prefix_unique(
                ca.len() as u64,
                cb.len() as u64,
                bytes.subrange(4, bytes.len() as int),
            );
            if ca.len() <= cb.len() {
                lemma_clippings_prefix_unique(ca, cb, body);
                assert(cb.take(ca.len() as int) =~= cb);
            } else {
                lemma_clippings_prefix_unique(cb, ca, body);
                assert(ca.take(cb.len() as int) =~= ca);
            }
        },
        (ResponseView::Clippings(_), ResponseView::Ack) => {
            assert(spec_u32_to_le_bytes(0) =~= response_bytes(a).subrange(0, 4));
            lemma_u32_prefix_unique(0, 1, bytes);
        },
        (ResponseView::Ack, ResponseView::Clippings(_)) => {
            assert(spec_u32_to_le_bytes(0) =~= response_bytes(b).subrange(0, 4));
            lemma_u32_prefix_unique(0, 1, bytes);
        },
        (ResponseView::Ack, ResponseView::Ack) => {},
    }
}

/// Where bytes start with a listing, they start with its tag, go on with the
/// number of its clippings, which is no greater than the number of bytes, and
/// then with the clippings.
pub proof fn lemma_listing_front(v: ResponseView, bytes: Seq<u8>)
    requires
        v is Clippings,
        response_bytes(v).is_prefix_of(bytes),
        bytes.len() <= u64::MAX,
    ensures
        bytes.len() >= 12,
        spec_u32_to_le_bytes(0).is_prefix_of(bytes),
        spec_u64_to_le_bytes(v->Clippings_0.len() as u64).is_prefix_of(
            bytes.subrange(4, bytes.len() as int),
        ),
        v->Clippings_0.len() <= bytes.len(),
        clippings_bytes(v->Clippings_0).is_prefix_of(bytes.subrange(12, bytes.len() as int)),
{
    let clips = v->Clippings_0;
    let whole = response_bytes(v);
    lemma_u32_bytes(0, 1);
    lemma_u64_bytes(clips.len() as u64, 0);
    lemma_clippings_bytes_len(clips);
    assert(spec_u32_to_le_bytes(0) =~= whole.subrange(0, 4));
    assert(spec_u64_to_le_bytes(clips.len() as u64) =~= whole.subrange(4, 12));
    assert(clippings_bytes(clips) =~= whole.subrange(12, whole.len() as int));
}

/// Where a listing starts `bytes` and the clippings `items` have been read up
/// to `pos`, fewer than the listing announces, the next clipping of the
/// listing starts at `pos`.
proof fn lemma_next_clipping(
    v: ResponseView,
    bytes: Seq<u8>,
    count: u64,
    items: Seq<ClippingView>,
    pos: int,
)
    requires
        representable(v),
        response_bytes(v).is_prefix_of(bytes),
        bytes.len() <= usize::MAX,
        spec_u32_to_le_bytes(0).is_prefix_of(bytes),
        bytes.len() >= 12,
        spec_u64_to_le_bytes(count).is_prefix_of(bytes.subrange(4, bytes.len() as int)),
        12 <= pos <= bytes.len(),
        bytes.subrange(12, pos) == clippings_bytes(items),
        items.len() < count,
        ids_fit(items),
    ensures
        v is Clippings,
        v->Clippings_0.len() == count,
        clipping_bytes(v->Clippings_0[items.len() as int]).is_prefix_of(
            bytes.subrange(pos, bytes.len() as int),
        ),
        v->Clippings_0[items.len() as int].id <= usize::MAX,
{
    lemma_u32_bytes(0, 1);
    if v is Ack {
        lemma_u32_prefix_unique(0, 1, bytes);
    }
    let clips = v->Clippings_0;
    lemma_listing_front(v, bytes);
    lemma_u64_prefix_unique(clips.len() as u64, count, bytes.subrange(4, bytes.len() as int));
    let body = bytes.subrange(12, bytes.len() as int);
    let k = items.len() as int;
    assert(clippings_bytes(items) =~= body.subrange(0, pos - 12));
    lemma_clippings_prefix_unique(items, clips, body);
    lemma_clippings_bytes_take(clips, k);
    let joined = clippings_bytes(clips.take(k)) + clipping_bytes(clips[k]);
    assert(clipping_bytes(clips[k]) =~= joined.subrange(pos - 12, joined.len() as int));
    assert(clipping_bytes(clips[k]) =~= bytes.subrange(pos, bytes.len() as int).subrange(
        0,
        clipping_bytes(clips[k]).len() as int,
    ));
}

impl Response {
    /// The bytes that carry this response to the client.
    pub fn encode(&self) -> (bytes: Vec<u8>)
        ensures
            bytes@ == response_bytes(self@),
    {
        match self {
            Response::Ack => put_u32(1),
            Response::Clippings(clips) => {
                let mut bytes = put_u32(0);
                let mut count = put_u64(clips.len() as u64);
                bytes.append(&mut count);
                let ghost head = bytes@;
                let ghost views = clippings_view(clips@);
                let mut i: usize = 0;
                while i < clips.len()
                    invariant
                        i <= clips@.len(),
                        views == clippings_view(clips@),
                        bytes@ == head + clippings_bytes(views.take(i as int)),
                    decreases clips@.len() - i,
                {
                    let mut text = put_text(clips[i].data.as_str());
                    let mut id = put_u64(clips[i].id as u64);
                    bytes.append(&mut text);
                    bytes.append(&mut id);
                    proof {
                        lemma_clippings_bytes_push(views.take(i as int), views[i as int]);
                        assert(views.take(i as int + 1) =~= views.take(i as int).push(
                            views[i as int],
                        ));
                        assert(bytes@ =~= head + clippings_bytes(views.take(i as int + 1)));
                    }
                    i = i + 1;
                }
                proof {
                    assert(views.take(i as int) =~= views);
                    assert(bytes@ =~= response_bytes(self@));
                }
                bytes
            },
        }
    }

    /// Reads a response from the front of `bytes`; what follows it is let be.
    /// The result is the one response whose wire form starts `bytes`, and
    /// `ProtocolError` when there is none.
    pub fn decode(bytes: &[u8]) -> (r: Result<Response, Error>)
        ensures
            match r {
                Ok(response) => parse_response(bytes@) == Some(response@),
                Err(e) => e == Error::ProtocolError && parse_response(bytes@).is_none(),
            },
    {
        let r = Self::read_front(bytes);
        let len = bytes.len();
        proof {
            assert(bytes@.len() == len);
            if r is Ok {
                let v = r->Ok_0@;
                assert(representable(v));
                lemma_response_prefix_unique(v, parse_response(bytes@).unwrap(), bytes@);
            }
        }
        r
    }

    fn read_front(bytes: &[u8]) -> (r: Result<Response, Error>)
        ensures
            match r {
                Ok(response) => response_bytes(response@).is_prefix_of(bytes@),
                Err(e) => {
                    &&& e == Error::ProtocolError
                    &&& forall|v: ResponseView|
                        representable(v) ==> !(#[trigger] response_bytes(v)).is_prefix_of(bytes@)
                },
            },
    {
        let tag = match take_u32(bytes) {
            Some(tag) => tag,
            None => {
                proof {
                    lemma_u32_bytes(0, 1);
                    lemma_u32_bytes(1, 0);
                    assert forall|v: ResponseView| representable(v) implies !(
                    #[trigger] response_bytes(v)).is_prefix_of(bytes@) by {
                        if v is Clippings {
                            assert(response_bytes(v).len() >= 4);
                        }
                    }
                }
                return Err(Error::ProtocolError);
            },
        };
        proof {
            lemma_u32_bytes(tag, 0);
            lemma_u32_bytes(0, 1);
        }
        if tag == 1 {
            return Ok(Response::Ack);
        }
        if tag != 0 {
            proof {
                assert forall|v: ResponseView| representable(v) implies !(
                #[trigger] response_bytes(v)).is_prefix_of(bytes@) by {
                    if response_bytes(v).is_prefix_of(bytes@) {
                        match v {
                            ResponseView::Clippings(_) => {
                                assert(spec_u32_to_le_bytes(0) =~= response_bytes(v).subrange(
                                    0,
                                    4,
                                ));
                                lemma_u32_prefix_unique(0, tag, bytes@);
                            },
                            ResponseView::Ack => {
                                lemma_u32_prefix_unique(1, tag, bytes@);
                            },
                        }
                    }
                }
            }
            return Err(Error::ProtocolError);
        }
        let rest = slice_subrange(bytes, 4, bytes.len());
        let count = match take_u64(rest) {
            Some(count) => count,
            None => {
                proof {
                    assert forall|v: ResponseView| representable(v) implies !(
                    #[trigger] response_bytes(v)).is_prefix_of(bytes@) by {
                        if response_bytes(v).is_prefix_of(bytes@) {
                            if v is Ack {
                                lemma_u32_prefix_unique(1, tag, bytes@);
                            } else {
                                lemma_listing_front(v, bytes@);
                            }
                        }
                    }
                }
                return Err(Error::ProtocolError);
            },
        };
        proof {
            lemma_u64_bytes(count, 0);
        }
        let mut items: Vec<Clipping> = Vec::new();
        let mut pos: usize = 12;
        let mut i: u64 = 0;
        while i < count
            invariant
                tag == 0,
                spec_u32_to_le_bytes(0).is_prefix_of(bytes@),
                rest@ == bytes@.subrange(4, bytes@.len() as int),
                spec_u64_to_le_bytes(count).is_prefix_of(rest@),
                12 <= pos <= bytes@.len(),
                items@.len() == i,
                i <= count,
                bytes@.subrange(12, pos as int) == clippings_bytes(clippings_view(items@)),
            decreases count - i,
        {
            let ghost views = clippings_view(items@);
            assert(ids_fit(views));
            let tail = slice_subrange(bytes, pos, bytes.len());
            let text = match take_text(tail) {
                Some(text) => text,
                None => {
                    proof {
                        assert forall|v: ResponseView| representable(v) implies !(
                        #[trigger] response_bytes(v)).is_prefix_of(bytes@) by {
                            if response_bytes(v).is_prefix_of(bytes@) {
                                lemma_next_clipping(v, bytes@, count, views, pos as int);
                                let next = v->Clippings_0[i as int];
                                lemma_text_bytes_len(next.data);
                                assert(text_bytes(next.data) =~= clipping_bytes(next).subrange(
                                    0,
                                    text_bytes(next.data).len() as int,
                                ));
                                assert(text_bytes(next.data).is_prefix_of(tail@));
                            }
                        }
                    }
                    return Err(Error::ProtocolError);
                },
            };
            proof {
                lemma_text_bytes_len(text@);
            }
            let after = pos + 8 + text.as_str().len();
            let tail = slice_subrange(bytes, after, bytes.len());
            let id = match take_u64(tail) {
                Some(v) if v <= usize::MAX as u64 => v as usize,
                other => {
                    proof {
                        assert forall|v: ResponseView| representable(v) implies !(
                        #[trigger] response_bytes(v)).is_prefix_of(bytes@) by {
                            if response_bytes(v).is_prefix_of(bytes@) {
                                lemma_next_clipping(v, bytes@, count, views, pos as int);
                                let next = v->Clippings_0[i as int];
                                let from = bytes@.subrange(pos as int, bytes@.len() as int);
                                lemma_text_bytes_len(next.data);
                                lemma_u64_bytes(next.id as u64, 0);
                                assert(text_bytes(next.data) =~= clipping_bytes(next).subrange(
                                    0,
                                    text_bytes(next.data).len() as int,
                                ));
                                assert(text_bytes(next.data).is_prefix_of(from));
                                lemma_text_prefix_unique(next.data, text@, from);
                                let n = text_bytes(next.data).len() as int;
                                assert(spec_u64_to_le_bytes(next.id as u64) =~= clipping_bytes(
                                    next,
                                ).subrange(n, n + 8));
                                assert(spec_u64_to_le_bytes(next.id as u64).is_prefix_of(tail@));
                                if let Some(w) = other {
                                    lemma_u64_prefix_unique(next.id as u64, w, tail@);
                                }
                            }
                        }
                    }
                    return Err(Error::ProtocolError);
                },
            };
            let clip = Clipping { data: text, id };
            proof {
                lemma_u64_bytes(id as u64, 0);
                lemma_clippings_bytes_push(views, clip@);
                assert(clippings_view(items@.push(clip)) =~= views.push(clip@));
                assert(clipping_bytes(clip@) =~= bytes@.subrange(pos as int, after + 8));
                assert(bytes@.subrange(12, after + 8) =~= bytes@.subrange(12, pos as int)
                    + bytes@.subrange(pos as int, after + 8));
            }
            items.push(clip);
            pos = after + 8;
            i = i + 1;
        }
        proof {
            let whole = response_bytes(ResponseView::Clippings(clippings_view(items@)));
            assert(whole =~= bytes@.subrange(0, 4) + rest@.subrange(0, 8) + bytes@.subrange(
                12,
                pos as int,
            ));
            assert(whole =~= bytes@.subrange(0, pos as int));
        }
        Ok(Response::Clippings(items))
    }
}

/// Decoding gives back what was encoded: the wire form of a response that a
/// program can hold, followed by any bytes, reads as that response. (The
/// bound on the number of bytes holds of every slice.)
pub proof fn lemma_response_round_trip(v: ResponseView, rest: Seq<u8>)
    requires
        representable(v),
        (response_bytes(v) + rest).len() <= u64::MAX,
    ensures
        parse_response(response_bytes(v) + rest) == Some(v),
{
    let bytes = response_bytes(v) + rest;
    assert(response_bytes(v).is_prefix_of(bytes));
    lemma_response_prefix_unique(v, parse_response(bytes).unwrap(), bytes);
}

} // verus!
