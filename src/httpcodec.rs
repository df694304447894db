//! The frame assembler: a single-message codec that collects a head and a
//! body from bytes arriving in pieces, classifies the body, and writes
//! outgoing messages.
use vstd::prelude::*;

use crate::decimal::{decimal_text, lemma_decimal_round_trip, unsigned_text_value};
use crate::head::{inspect, inspect_of, Inspection};
use crate::parse::request_head_text;
use crate::json::{json_document, json_model, json_printed, parse_json, reads_envelope, Envelope};
use crate::request::{request_body_text, request_error, request_fields, request_frame, Request};
use crate::response::{
    error_body_text, response_body_text, response_frame, response_of, Error, ErrorModel, Response,
};
use crate::buffer::{buf_extend, buf_len, buf_new, buf_slice, buf_split_off, buffer_bytes};
use bytes::BytesMut;

verus! {

/// A message as the codec hands it over. `NeedMore` stands for a head whose
/// body has not fully arrived: header length, body length, body so far.
#[derive(Debug, Clone)]
pub enum HTTP {
    Request(Request),
    Response(Response),
    Error(Error),
    NeedMore(usize, usize, Vec<u8>),
}

/// How a JSON-RPC object is classified: as a request if it reads as one;
/// otherwise as a response if it reads as one; otherwise as the request's
/// error, unless the response reading found an error reply, which is more
/// specific.
pub open spec fn classifies(e: Envelope, h: HTTP) -> bool {
    match request_error(e) {
        None => h matches HTTP::Request(q) && q.wf() && request_fields(e, q@),
        Some(qe) => match response_of(e) {
            Ok(s) => h matches HTTP::Response(x) && x.wf() && x@ == s,
            Err(se) => h matches HTTP::Error(x) && x@ == (if se is ErrorResponse {
                se
            } else {
                qe
            }),
        },
    }
}

/// How a body is classified: text that is no JSON is a parse error.
pub open spec fn body_classifies(body: Seq<u8>, h: HTTP) -> bool {
    match json_document(body) {
        Some(j) => exists|e: Envelope| reads_envelope(j, e) && classifies(e, h),
        None => h matches HTTP::Error(x) && x@ == ErrorModel::ParseError(None),
    }
}

/// Classifies an object, already taken apart.
pub fn classify(e: &Envelope) -> (r: HTTP)
    ensures
        classifies(*e, r),
{
    match Request::from_envelope(e) {
        Ok(q) => HTTP::Request(q),
        Err(qe) => match Response::from_envelope(e) {
            Ok(s) => HTTP::Response(s),
            Err(se) => {
                if let Error::ErrorResponse(_, _, _, _) = se {
                    HTTP::Error(se)
                } else {
                    HTTP::Error(qe)
                }
            },
        },
    }
}

/// Classifies a body.
pub fn classify_body(body: &[u8]) -> (r: HTTP)
    ensures
        body_classifies(body@, r),
{
    match parse_json(body) {
        Some(value) => {
            let e = Envelope::read(&value);
            classify(&e)
        },
        None => HTTP::Error(Error::ParseError(None)),
    }
}

impl HTTP {
    /// The message framed for the wire; `NeedMore` writes nothing.
    pub fn deparse(&self) -> (r: Vec<u8>)
        ensures
            self matches HTTP::Request(q) ==> r@ == request_frame(
                request_body_text(q@.method, q@.id, json_printed(json_model(q@.params))),
            ),
            self matches HTTP::Response(s) ==> r@ == response_frame(
                response_body_text(s@.method, s@.id, json_printed(json_model(s@.result))),
            ),
            self matches HTTP::Error(x) ==> r@ == response_frame(error_body_text(x@)),
            self is NeedMore ==> r@.len() == 0,
    {
        match self {
            HTTP::Request(q) => q.deparse(),
            HTTP::Response(s) => s.deparse(),
            HTTP::Error(x) => x.deparse(),
            HTTP::NeedMore(_, _, _) => Vec::new(),
        }
    }
}

/// Where the assembler stands.
pub enum FrameState {
    AwaitingHeader,
    AwaitingBody { header_length: usize, body_length: usize, cache: BytesMut },
    Done,
}

pub enum FrameModel {
    AwaitingHeader,
    AwaitingBody { header_length: nat, body_length: nat, cache: Seq<u8> },
    Done,
}

/// What one step of the assembler yields.
pub enum Frame {
    Pending,
    Malformed,
    Body(Vec<u8>),
}

pub enum FrameEvent {
    Pending,
    Malformed,
    Body(Seq<u8>),
}

impl View for Frame {
    type V = FrameEvent;

    open spec fn view(&self) -> FrameEvent {
        match self {
            Frame::Pending => FrameEvent::Pending,
            Frame::Malformed => FrameEvent::Malformed,
            Frame::Body(b) => FrameEvent::Body(b@),
        }
    }
}

/// A codec for one message: it decodes exactly one and then stays silent.
pub struct HTTPCodec {
    state: FrameState,
}

impl View for HTTPCodec {
    type V = FrameModel;

    closed spec fn view(&self) -> FrameModel {
        match self.state {
            FrameState::AwaitingHeader => FrameModel::AwaitingHeader,
            FrameState::AwaitingBody { header_length, body_length, cache } => FrameModel::AwaitingBody {
                header_length: header_length as nat,
                body_length: body_length as nat,
                cache: buffer_bytes(cache),
            },
            FrameState::Done => FrameModel::Done,
        }
    }
}

/// With the body bytes gathered so far: wait while they fall short of the
/// declared length, else hand over exactly that many and leave the rest.
pub open spec fn settle_spec(hl: nat, bl: nat, body: Seq<u8>) -> (FrameModel, Seq<u8>, FrameEvent) {
    if body.len() < bl {
        (FrameModel::AwaitingBody { header_length: hl, body_length: bl, cache: body }, seq![], FrameEvent::Pending)
    } else {
        (FrameModel::Done, body.subrange(bl as int, body.len() as int), FrameEvent::Body(body.subrange(0, bl as int)))
    }
}

/// One call of the assembler on the transport's buffer `src`: the new state,
/// what stays in the buffer, and what is yielded.
pub open spec fn step(s: FrameModel, src: Seq<u8>) -> (FrameModel, Seq<u8>, FrameEvent) {
    match s {
        FrameModel::Done => (FrameModel::Done, src, FrameEvent::Pending),
        FrameModel::AwaitingHeader => match inspect_of(src) {
            Inspection::Incomplete => (FrameModel::AwaitingHeader, src, FrameEvent::Pending),
            Inspection::Malformed => (FrameModel::Done, src, FrameEvent::Malformed),
            Inspection::Complete { header_length, body_length, .. } => if header_length <= src.len() {
                settle_spec(
                    header_length as nat,
                    body_length as nat,
                    src.subrange(header_length as int, src.len() as int),
                )
            } else {
                (FrameModel::Done, src, FrameEvent::Malformed)
            },
        },
        FrameModel::AwaitingBody { header_length, body_length, cache } => settle_spec(
            header_length,
            body_length,
            cache + src,
        ),
    }
}

/// The transport's side of a connection: each chunk is appended to what the
/// codec left in the buffer, and the codec is called once per chunk. The
/// final state, what stays in the buffer, and what each call yielded.
pub open spec fn run(s: FrameModel, buf: Seq<u8>, chunks: Seq<Seq<u8>>) -> (FrameModel, Seq<u8>, Seq<FrameEvent>)
    decreases chunks.len(),
{
    if chunks.len() == 0 {
        (s, buf, seq![])
    } else {
        let first = step(s, buf + chunks[0]);
        let rest = run(first.0, first.1, chunks.drop_first());
        (rest.0, rest.1, seq![first.2] + rest.2)
    }
}

pub open spec fn all_pending(events: Seq<FrameEvent>) -> bool {
    forall|i: int| 0 <= i < events.len() ==> #[trigger] events[i] is Pending
}

/// Exactly one call yielded `body`, and every other call yielded nothing.
pub open spec fn delivers_once(events: Seq<FrameEvent>, body: Seq<u8>) -> bool {
    exists|k: int|
        0 <= k < events.len() && events[k] == FrameEvent::Body(body) && forall|j: int|
            0 <= j < events.len() && j != k ==> #[trigger] events[j] is Pending
}

/// What the inspector does as a head arrives: it reports nothing on a
/// prefix shorter than the head, and on any longer prefix the same as on the
/// whole message.
pub open spec fn head_settles(m: Seq<u8>, hl: nat) -> bool {
    forall|n: int|
        0 <= n <= m.len() ==> if n < hl {
            inspect_of(#[trigger] m.subrange(0, n)) == Inspection::Incomplete
        } else {
            inspect_of(m.subrange(0, n)) == inspect_of(m)
        }
}

proof fn lemma_pending_then(e: FrameEvent, rest: Seq<FrameEvent>, body: Seq<u8>)
    ensures
        e is Pending && all_pending(rest) ==> all_pending(seq![e] + rest),
        e is Pending && delivers_once(rest, body) ==> delivers_once(seq![e] + rest, body),
        e == FrameEvent::Body(body) && all_pending(rest) ==> delivers_once(seq![e] + rest, body),
{
    let all = seq![e] + rest;
    if e is Pending && all_pending(rest) {
        assert forall|i: int| 0 <= i < all.len() implies #[trigger] all[i] is Pending by {
            if i > 0 {
                assert(all[i] == rest[i - 1]);
            }
        }
    }
    if e is Pending && delivers_once(rest, body) {
        let k = choose|k: int|
            0 <= k < rest.len() && rest[k] == FrameEvent::Body(body) && forall|j: int|
                0 <= j < rest.len() && j != k ==> #[trigger] rest[j] is Pending;
        assert(all[k + 1] == rest[k]);
        assert forall|j: int| 0 <= j < all.len() && j != k + 1 implies #[trigger] all[j] is Pending by {
            if j > 0 {
                assert(all[j] == rest[j - 1]);
            }
        }
    }
    if e == FrameEvent::Body(body) && all_pending(rest) {
        assert(all[0] == e);
        assert forall|j: int| 0 <= j < all.len() && j != 0 implies #[trigger] all[j] is Pending by {
            assert(all[j] == rest[j - 1]);
        }
    }
}

proof fn lemma_done_stays_silent(buf: Seq<u8>, chunks: Seq<Seq<u8>>)
    ensures
        run(FrameModel::Done, buf, chunks).0 == FrameModel::Done,
        run(FrameModel::Done, buf, chunks).1 == buf + chunks.flatten(),
        all_pending(run(FrameModel::Done, buf, chunks).2),
    decreases chunks.len(),
{
    if chunks.len() == 0 {
        assert(buf + chunks.flatten() =~= buf);
    } else {
        lemma_done_stays_silent(buf + chunks[0], chunks.drop_first());
        assert(buf + chunks[0] + chunks.drop_first().flatten() =~= buf + chunks.flatten());
        lemma_pending_then(FrameEvent::Pending, run(FrameModel::Done, buf + chunks[0], chunks.drop_first()).2, seq![]);
    }
}

proof fn lemma_body_phase(hl: nat, bl: nat, cache: Seq<u8>, chunks: Seq<Seq<u8>>)
    requires
        cache.len() < bl,
    ensures
        ({
            let total = cache + chunks.flatten();
            let r = run(FrameModel::AwaitingBody { header_length: hl, body_length: bl, cache }, seq![], chunks);
            if total.len() < bl {
                &&& r.0 == FrameModel::AwaitingBody { header_length: hl, body_length: bl, cache: total }
                &&& r.1 == Seq::<u8>::empty()
                &&& all_pending(r.2)
            } else {
                &&& r.0 == FrameModel::Done
                &&& r.1 == total.subrange(bl as int, total.len() as int)
                &&& delivers_once(r.2, total.subrange(0, bl as int))
            }
        }),
    decreases chunks.len(),
{
    let total = cache + chunks.flatten();
    if chunks.len() == 0 {
        assert(total =~= cache);
    } else {
        let c = cache + chunks[0];
        assert(Seq::<u8>::empty() + chunks[0] =~= chunks[0]);
        assert(total =~= c + chunks.drop_first().flatten());
        let first = step(FrameModel::AwaitingBody { header_length: hl, body_length: bl, cache }, seq![] + chunks[0]);
        if c.len() < bl {
            lemma_body_phase(hl, bl, c, chunks.drop_first());
            let rest = run(first.0, first.1, chunks.drop_first());
            lemma_pending_then(FrameEvent::Pending, rest.2, total.subrange(0, bl as int));
        } else {
            let left = c.subrange(bl as int, c.len() as int);
            lemma_done_stays_silent(left, chunks.drop_first());
            assert(left + chunks.drop_first().flatten() =~= total.subrange(bl as int, total.len() as int));
            assert(c.subrange(0, bl as int) =~= total.subrange(0, bl as int));
            let rest = run(first.0, first.1, chunks.drop_first());
            lemma_pending_then(first.2, rest.2, total.subrange(0, bl as int));
        }
    }
}

proof fn lemma_head_phase(m: Seq<u8>, buf: Seq<u8>, chunks: Seq<Seq<u8>>, hl: usize, bl: usize)
    requires
        buf + chunks.flatten() == m,
        buf.len() < hl,
        inspect_of(m) == (Inspection::Complete { header_length: hl, version: 1, body_length: bl }),
        hl <= m.len(),
        head_settles(m, hl as nat),
    ensures
        ({
            let r = run(FrameModel::AwaitingHeader, buf, chunks);
            if m.len() < hl + bl {
                &&& r.0 is AwaitingBody
                &&& all_pending(r.2)
            } else {
                &&& r.0 == FrameModel::Done
                &&& r.1 == m.subrange((hl + bl) as int, m.len() as int)
                &&& delivers_once(r.2, m.subrange(hl as int, (hl + bl) as int))
            }
        }),
    decreases chunks.len(),
{
    if chunks.len() == 0 {
        assert(m =~= buf);
    } else {
        let p = buf + chunks[0];
        let later = chunks.drop_first().flatten();
        assert(m =~= p + later);
        assert(m.subrange(0, p.len() as int) =~= p);
        let first = step(FrameModel::AwaitingHeader, p);
        let rest = run(first.0, first.1, chunks.drop_first());
        if p.len() < hl {
            lemma_head_phase(m, p, chunks.drop_first(), hl, bl);
            lemma_pending_then(FrameEvent::Pending, rest.2, m.subrange(hl as int, (hl + bl) as int));
        } else {
            let body = p.subrange(hl as int, p.len() as int);
            if body.len() < bl {
                lemma_body_phase(hl as nat, bl as nat, body, chunks.drop_first());
                assert(body + later =~= m.subrange(hl as int, m.len() as int));
                let total = body + later;
                if m.len() >= hl + bl {
                    assert(total.subrange(0, bl as int) =~= m.subrange(hl as int, (hl + bl) as int));
                    assert(total.subrange(bl as int, total.len() as int) =~= m.subrange((hl + bl) as int, m.len() as int));
                }
                lemma_pending_then(FrameEvent::Pending, rest.2, m.subrange(hl as int, (hl + bl) as int));
            } else {
                let left = body.subrange(bl as int, body.len() as int);
                lemma_done_stays_silent(left, chunks.drop_first());
                assert(left + later =~= m.subrange((hl + bl) as int, m.len() as int));
                assert(body.subrange(0, bl as int) =~= m.subrange(hl as int, (hl + bl) as int));
                lemma_pending_then(first.2, rest.2, m.subrange(hl as int, (hl + bl) as int));
            }
        }
    }
}

/// A whole message handed over in one call is delivered by that call: its
/// body is exactly the declared number of bytes after the head, and what
/// follows stays in the buffer.
pub proof fn lemma_whole_message_in_one_call(m: Seq<u8>, hl: usize, bl: usize)
    requires
        inspect_of(m) == (Inspection::Complete { header_length: hl, version: 1, body_length: bl }),
        hl + bl <= m.len(),
    ensures
        step(FrameModel::AwaitingHeader, m) == (
            FrameModel::Done,
            m.subrange((hl + bl) as int, m.len() as int),
            FrameEvent::Body(m.subrange(hl as int, (hl + bl) as int)),
        ),
{
    let body = m.subrange(hl as int, m.len() as int);
    assert(body.subrange(0, bl as int) =~= m.subrange(hl as int, (hl + bl) as int));
    assert(body.subrange(bl as int, body.len() as int) =~= m.subrange((hl + bl) as int, m.len() as int));
}

/// A message fed in chunks, however it is cut, is delivered exactly once and
/// as the same body as when it is fed whole, with what follows it left in the
/// buffer; every other call yields nothing. This holds wherever the
/// inspector reports nothing until the head is whole.
pub proof fn lemma_chunked_feed_matches_whole(m: Seq<u8>, chunks: Seq<Seq<u8>>, hl: usize, bl: usize)
    requires
        chunks.flatten() == m,
        inspect_of(m) == (Inspection::Complete { header_length: hl, version: 1, body_length: bl }),
        0 < hl,
        hl + bl <= m.len(),
        head_settles(m, hl as nat),
    ensures
        step(FrameModel::AwaitingHeader, m).2 == FrameEvent::Body(m.subrange(hl as int, (hl + bl) as int)),
        run(FrameModel::AwaitingHeader, seq![], chunks).0 == FrameModel::Done,
        run(FrameModel::AwaitingHeader, seq![], chunks).1 == step(FrameModel::AwaitingHeader, m).1,
        delivers_once(run(FrameModel::AwaitingHeader, seq![], chunks).2, m.subrange(hl as int, (hl + bl) as int)),
{
    lemma_whole_message_in_one_call(m, hl, bl);
    assert(Seq::<u8>::empty() + chunks.flatten() =~= m);
    lemma_head_phase(m, seq![], chunks, hl, bl);
}

/// A body that declares more bytes than ever arrive is never delivered:
/// every call yields nothing and the codec keeps waiting for the body.
pub proof fn lemma_short_body_never_delivers(m: Seq<u8>, chunks: Seq<Seq<u8>>, hl: usize, bl: usize)
    requires
        chunks.flatten() == m,
        inspect_of(m) == (Inspection::Complete { header_length: hl, version: 1, body_length: bl }),
        0 < hl <= m.len(),
        m.len() < hl + bl,
        head_settles(m, hl as nat),
    ensures
        run(FrameModel::AwaitingHeader, seq![], chunks).0 is AwaitingBody,
        all_pending(run(FrameModel::AwaitingHeader, seq![], chunks).2),
{
    assert(Seq::<u8>::empty() + chunks.flatten() =~= m);
    lemma_head_phase(m, seq![], chunks, hl, bl);
}

/// The framing half of a request's round trip: the frame written for a body
/// declares exactly the body's length in decimal that reads back as that
/// length, and once the inspector has found the written head, one call reads
/// back exactly that body and leaves nothing behind.
pub proof fn lemma_request_frame_reads_back(body: Seq<u8>)
    requires
        ({
            let head = request_head_text("Hyperdrive_RPC_Request"@, body.len());
            &&& head.len() + body.len() <= usize::MAX
            &&& inspect_of(request_frame(body)) == (Inspection::Complete {
                header_length: head.len() as usize,
                version: 1,
                body_length: body.len() as usize,
            })
        }),
    ensures
        unsigned_text_value(decimal_text(body.len())) == Some(body.len()),
        step(FrameModel::AwaitingHeader, request_frame(body)) == (
            FrameModel::Done,
            Seq::<u8>::empty(),
            FrameEvent::Body(body),
        ),
{
    lemma_decimal_round_trip(body.len());
    let head = request_head_text("Hyperdrive_RPC_Request"@, body.len());
    let m = request_frame(body);
    lemma_whole_message_in_one_call(m, head.len() as usize, body.len() as usize);
    assert(m.subrange(head.len() as int, m.len() as int) =~= body);
    assert(m.subrange(m.len() as int, m.len() as int) =~= Seq::<u8>::empty());
}

impl HTTPCodec {
    pub closed spec fn wf(&self) -> bool {
        self.state matches FrameState::AwaitingBody { body_length, cache, .. } ==> buffer_bytes(cache).len() < body_length
    }

    pub fn new() -> (r: Self)
        ensures
            r.wf(),
            r@ == FrameModel::AwaitingHeader,
    {
        HTTPCodec { state: FrameState::AwaitingHeader }
    }

    fn settle(&mut self, hl: usize, bl: usize, body: BytesMut, src: &mut BytesMut) -> (r: Frame)
        ensures
            final(self).wf(),
            (final(self)@, buffer_bytes(*final(src)), r@) == settle_spec(hl as nat, bl as nat, buffer_bytes(body)),
    {
        let mut body = body;
        if buf_len(&body) < bl {
            self.state = FrameState::AwaitingBody { header_length: hl, body_length: bl, cache: body };
            *src = buf_new();
            Frame::Pending
        } else {
            let rest = buf_split_off(&mut body, bl);
            *src = rest;
            self.state = FrameState::Done;
            Frame::Body(vstd::slice::slice_to_vec(buf_slice(&body)))
        }
    }

    /// One step of the assembler: consumes from `src` what belongs to the
    /// message and yields its body once it is complete.
    pub fn next_frame(&mut self, src: &mut BytesMut) -> (r: Frame)
        requires
            old(self).wf(),
        ensures
            final(self).wf(),
            (final(self)@, buffer_bytes(*final(src)), r@) == step(old(self)@, buffer_bytes(*old(src))),
    {
        let mut st = FrameState::Done;
        std::mem::swap(&mut self.state, &mut st);
        match st {
            FrameState::Done => Frame::Pending,
            FrameState::AwaitingHeader => match inspect(buf_slice(src)) {
                Inspection::Incomplete => {
                    self.state = FrameState::AwaitingHeader;
                    Frame::Pending
                },
                Inspection::Malformed => Frame::Malformed,
                Inspection::Complete { header_length, body_length, .. } => {
                    let body = buf_split_off(src, header_length);
                    self.settle(header_length, body_length, body, src)
                },
            },
            FrameState::AwaitingBody { header_length, body_length, cache } => {
                let mut cache = cache;
                buf_extend(&mut cache, buf_slice(src));
                self.settle(header_length, body_length, cache, src)
            },
        }
    }

    /// Feeds the transport's buffer to the codec. Yields nothing until a
    /// whole message has arrived, then the classified message (a parse error
    /// for a malformed head), and nothing ever after.
    pub fn decode(&mut self, src: &mut BytesMut) -> (r: Option<HTTP>)
        requires
            old(self).wf(),
        ensures
            final(self).wf(),
            final(self)@ == step(old(self)@, buffer_bytes(*old(src))).0,
            buffer_bytes(*final(src)) == step(old(self)@, buffer_bytes(*old(src))).1,
            r is None <==> step(old(self)@, buffer_bytes(*old(src))).2 is Pending,
            step(old(self)@, buffer_bytes(*old(src))).2 is Malformed ==> (r matches Some(HTTP::Error(x)) && x@
                == ErrorModel::ParseError(None)),
            step(old(self)@, buffer_bytes(*old(src))).2 matches FrameEvent::Body(b) ==> (r matches Some(h)
                && body_classifies(b, h)),
    {
        match self.next_frame(src) {
            Frame::Pending => None,
            Frame::Malformed => Some(HTTP::Error(Error::ParseError(None))),
            Frame::Body(body) => Some(classify_body(body.as_slice())),
        }
    }

    /// Appends the wire form of `msg` to `dst`.
    pub fn encode(&mut self, msg: HTTP, dst: &mut BytesMut)
        ensures
            *final(self) == *old(self),
            msg matches HTTP::Request(q) ==> buffer_bytes(*final(dst)) == buffer_bytes(*old(dst))
                + request_frame(request_body_text(q@.method, q@.id, json_printed(json_model(q@.params)))),
            msg matches HTTP::Response(s) ==> buffer_bytes(*final(dst)) == buffer_bytes(*old(dst))
                + response_frame(response_body_text(s@.method, s@.id, json_printed(json_model(s@.result)))),
            msg matches HTTP::Error(x) ==> buffer_bytes(*final(dst)) == buffer_bytes(*old(dst)) + response_frame(error_body_text(x@)),
            msg is NeedMore ==> buffer_bytes(*final(dst)) == buffer_bytes(*old(dst)),
    {
        let bytes = msg.deparse();
        buf_extend(dst, bytes.as_slice());
        proof {
            if msg is NeedMore {
                assert(buffer_bytes(*final(dst)) =~= buffer_bytes(*old(dst)));
            }
        }
    }
}

} // verus!
