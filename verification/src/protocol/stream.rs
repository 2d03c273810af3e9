//! Sans-IO stream framing state machine.
//!
//! The iRobot OI stream format:
//!
//! ```text
//! [19] [nbytes] [id1] [data1...] [id2] [data2...] ... [checksum]
//! ```
//!
//! Where `checksum` = low byte such that `(19 + nbytes + all_data_bytes + checksum) & 0xFF == 0`.
//!
//! [`StreamParser`] consumes raw bytes via [`feed_with`](StreamParser::feed_with)
//! (hands each result to a [`FrameSink`], such as a closure in [`FnSink`]) or
//! [`feed`](StreamParser::feed) (returns a `Vec`).

use vstd::prelude::*;
use vstd::slice::slice_subrange;
use crate::protocol::error::ProtocolError;
use crate::protocol::opcode::{packet_info, spec_packet_info};
use crate::protocol::sensor::SensorData;

verus! {

/// Header byte that starts every stream frame.
pub const STREAM_HEADER: u8 = 19;

/// Framing state of a [`StreamParser`].
#[derive(Debug, Clone, Copy, PartialEq, Eq, Structural)]
pub enum FrameState {
    /// Looking for the 19 header byte.
    WaitingHeader,
    /// Have header, waiting for the nbytes length byte.
    WaitingLength,
    /// Collecting `expected` bytes after the length byte (payload plus checksum).
    Collecting { expected: usize },
}

/// One parse result per completed frame.
pub type FrameResult = Result<SensorData, ProtocolError>;

/// A receiver of stream frame results, in the order they are parsed.
///
/// `seen` is the sequence of results the receiver has been handed so far;
/// `ready` says it accepts any result.
pub trait FrameSink {
    /// Results handed over so far.
    spec fn seen(&self) -> Seq<FrameResult>;

    /// Whether the receiver accepts any result.
    spec fn ready(&self) -> bool;

    /// Take the result of one completed frame.
    fn on_frame(&mut self, result: FrameResult)
        requires
            old(self).ready(),
        ensures
            final(self).ready(),
            final(self).seen() == old(self).seen().push(result);
}

/// Collecting results in a vector.
impl FrameSink for Vec<FrameResult> {
    open spec fn seen(&self) -> Seq<FrameResult> {
        self@
    }

    open spec fn ready(&self) -> bool {
        true
    }

    fn on_frame(&mut self, result: FrameResult) {
        self.push(result);
    }
}

/// Handing each result to a closure.
pub struct FnSink<F: FnMut(FrameResult)> {
    f: F,
    handed: Ghost<Seq<FrameResult>>,
}

impl<F: FnMut(FrameResult)> FnSink<F> {
    /// Wrap a closure; nothing has been handed to it yet.
    pub fn new(f: F) -> (s: Self)
        requires
            forall|r: FrameResult| call_requires(f, (r,)),
        ensures
            s.seen() == Seq::<FrameResult>::empty(),
            s.ready(),
    {
        FnSink { f, handed: Ghost(Seq::empty()) }
    }

    /// The closure back.
    pub fn into_inner(self) -> F {
        self.f
    }
}

impl<F: FnMut(FrameResult)> FrameSink for FnSink<F> {
    /// The results the closure has been called with, in order.
    closed spec fn seen(&self) -> Seq<FrameResult> {
        self.handed@
    }

    /// The closure accepts every result.
    closed spec fn ready(&self) -> bool {
        forall|r: FrameResult| call_requires(self.f, (r,))
    }

    fn on_frame(&mut self, result: FrameResult) {
        let ghost r = result;
        (self.f)(result);
        proof {
            self.handed@ = self.handed@.push(r);
        }
    }
}

/// State machine for parsing OI stream frames from a byte stream.
///
/// This is a sans-IO component: feed it bytes, and it produces parsed
/// [`SensorData`] frames. `N` is the internal buffer capacity; 258 is the
/// exact maximum for any valid OI stream frame (header + length byte +
/// 255-byte payload + checksum).
#[derive(Debug)]
pub struct StreamParser<const N: usize> {
    /// Bytes of the frame collected so far (header first).
    buf: Vec<u8>,
    /// Current parser state.
    state: FrameState,
}

/// `buf` with `b` appended when there is room below `cap`.
pub open spec fn spec_push(buf: Seq<u8>, b: u8, cap: nat) -> Seq<u8> {
    if buf.len() < cap { buf.push(b) } else { buf }
}

/// Largest payload length a parser of capacity `cap` accepts (`cap - 3`, saturating).
pub open spec fn max_payload(cap: nat) -> int {
    if cap >= 3 { cap - 3 } else { 0 }
}

/// Sum of all bytes, as an integer.
pub open spec fn byte_sum(s: Seq<u8>) -> nat
    decreases s.len(),
{
    if s.len() == 0 { 0 } else { byte_sum(s.drop_last()) + s.last() as nat }
}

/// The checksum byte that makes `s` plus that byte sum to zero modulo 256.
pub open spec fn checksum_for(s: Seq<u8>) -> u8 {
    ((256 - byte_sum(s) % 256) % 256) as u8
}

/// Decode a frame payload `[id][data..][id][data..]…` into `sd`.
pub open spec fn spec_parse_payload(sd: SensorData, p: Seq<u8>) -> FrameResult
    decreases p.len(),
{
    if p.len() == 0 {
        Ok(sd)
    } else {
        let id = p[0];
        match spec_packet_info(id) {
            None => Err(ProtocolError::UnknownPacketId(id)),
            Some(info) => if 1 + info.len > p.len() {
                Err(ProtocolError::InsufficientData { need: info.len as usize, got: (p.len() - 1) as usize })
            } else {
                spec_parse_payload(sd.spec_with_packet(id, p.subrange(1, 1 + info.len)), p.skip(1 + info.len))
            },
        }
    }
}

/// Parse a complete frame `[19][n][payload..][checksum]`.
pub open spec fn spec_parse_frame(frame: Seq<u8>) -> FrameResult {
    let fold = byte_sum(frame) % 256;
    if fold != 0 {
        let actual = frame.last();
        Err(ProtocolError::Checksum { expected: ((actual - fold) % 256) as u8, actual })
    } else {
        spec_parse_payload(SensorData::empty(), frame.subrange(2, frame.len() - 1))
    }
}

/// One byte of input: the next state, the next buffer, and the frame result it completes, if any.
pub open spec fn spec_step(st: FrameState, buf: Seq<u8>, b: u8, cap: nat) -> (FrameState, Seq<u8>, Option<FrameResult>) {
    match st {
        FrameState::WaitingHeader => if b == STREAM_HEADER {
            (FrameState::WaitingLength, spec_push(Seq::empty(), b, cap), None)
        } else {
            (st, buf, None)
        },
        FrameState::WaitingLength => if b == 0 || b > max_payload(cap) {
            (FrameState::WaitingHeader, buf, None)
        } else {
            (FrameState::Collecting { expected: (b + 1) as usize }, spec_push(buf, b, cap), None)
        },
        FrameState::Collecting { expected } => {
            let nb = spec_push(buf, b, cap);
            if nb.len() - 2 >= expected {
                (FrameState::WaitingHeader, nb, Some(spec_parse_frame(nb)))
            } else {
                (st, nb, None)
            }
        },
    }
}

/// Feed `data` byte by byte: final state, final buffer and the frame results in order.
pub open spec fn spec_feed(st: FrameState, buf: Seq<u8>, data: Seq<u8>, cap: nat) -> (FrameState, Seq<u8>, Seq<FrameResult>)
    decreases data.len(),
{
    if data.len() == 0 {
        (st, buf, Seq::empty())
    } else {
        let (s1, b1, out1) = spec_feed(st, buf, data.drop_last(), cap);
        let (s2, b2, o) = spec_step(s1, b1, data.last(), cap);
        (s2, b2, match o {
            Some(r) => out1.push(r),
            None => out1,
        })
    }
}

/// Internal consistency of a parser state and its buffer.
pub open spec fn frame_wf(st: FrameState, buf: Seq<u8>, cap: nat) -> bool {
    &&& buf.len() <= cap
    &&& st == FrameState::WaitingLength ==> (cap >= 1 ==> buf.len() == 1)
    &&& st matches FrameState::Collecting { expected } ==> {
        &&& buf.len() >= 2
        &&& buf.len() - 2 < expected
        &&& expected + 2 <= cap
    }
}

impl<const N: usize> View for StreamParser<N> {
    type V = (FrameState, Seq<u8>);

    closed spec fn view(&self) -> (FrameState, Seq<u8>) {
        (self.state, self.buf@)
    }
}

impl<const N: usize> StreamParser<N> {
    /// The parser is internally consistent.
    pub closed spec fn wf(&self) -> bool {
        frame_wf(self.state, self.buf@, N as nat)
    }

    /// Create a new parser with the given buffer capacity.
    pub fn new() -> (p: Self)
        ensures
            p.wf(),
            p@ == (FrameState::WaitingHeader, Seq::<u8>::empty()),
    {
        StreamParser { buf: Vec::new(), state: FrameState::WaitingHeader }
    }

    /// Reset the parser state, discarding any partial frame.
    pub fn reset(&mut self)
        ensures
            final(self).wf(),
            final(self)@ == (FrameState::WaitingHeader, Seq::<u8>::empty()),
    {
        self.buf = Vec::new();
        self.state = FrameState::WaitingHeader;
    }

    fn push_byte(&mut self, byte: u8)
        ensures
            final(self).buf@ == spec_push(old(self).buf@, byte, N as nat),
            final(self).state == old(self).state,
    {
        if self.buf.len() < N {
            self.buf.push(byte);
        }
    }

    /// Process one byte, returning the result of the frame it completes, if any.
    fn step(&mut self, byte: u8) -> (r: Option<FrameResult>)
        requires
            old(self).wf(),
        ensures
            final(self).wf(),
            (final(self).state, final(self).buf@, r) == spec_step(old(self).state, old(self).buf@, byte, N as nat),
    {
        match self.state {
            FrameState::WaitingHeader => {
                if byte == STREAM_HEADER {
                    self.buf = Vec::new();
                    self.push_byte(byte);
                    self.state = FrameState::WaitingLength;
                }
                None
            },
            FrameState::WaitingLength => {
                let nbytes = byte as usize;
                let max = if N >= 3 { N - 3 } else { 0 };
                if nbytes == 0 || nbytes > max {
                    self.state = FrameState::WaitingHeader;
                } else {
                    self.push_byte(byte);
                    self.state = FrameState::Collecting { expected: nbytes + 1 };
                }
                None
            },
            FrameState::Collecting { expected } => {
                self.push_byte(byte);
                if self.buf.len() - 2 >= expected {
                    let r = parse_frame(&self.buf);
                    self.state = FrameState::WaitingHeader;
                    Some(r)
                } else {
                    None
                }
            },
        }
    }

    /// Feed raw bytes and hand the result of each complete frame to `sink`,
    /// as it is decoded; the sink receives exactly the results
    /// [`feed`](Self::feed) returns, in order.
    pub fn feed_with<S: FrameSink>(&mut self, data: &[u8], sink: &mut S)
        requires
            old(self).wf(),
            old(sink).ready(),
        ensures
            final(self).wf(),
            final(sink).ready(),
            (final(self)@.0, final(self)@.1, final(sink).seen()) == {
                let (s, b, out) = spec_feed(old(self)@.0, old(self)@.1, data@, N as nat);
                (s, b, old(sink).seen() + out)
            },
    {
        let ghost start = sink.seen();
        let mut i: usize = 0;
        assert(start + Seq::<FrameResult>::empty() =~= start);
        while i < data.len()
            invariant
                self.wf(),
                sink.ready(),
                i <= data@.len(),
                (self@.0, self@.1, sink.seen()) == {
                    let (s, b, out) = spec_feed(old(self)@.0, old(self)@.1, data@.take(i as int), N as nat);
                    (s, b, start + out)
                },
            decreases data@.len() - i,
        {
            proof { assert(data@.take(i as int + 1).drop_last() =~= data@.take(i as int)); }
            let ghost out = spec_feed(old(self)@.0, old(self)@.1, data@.take(i as int), N as nat).2;
            if let Some(r) = self.step(data[i]) {
                sink.on_frame(r);
                assert(start + out.push(r) =~= (start + out).push(r));
            }
            i += 1;
        }
        proof { assert(data@.take(data@.len() as int) =~= data@); }
    }

    /// Feed raw bytes from the transport into the parser.
    ///
    /// Returns the results of the frames completed by these bytes, in order.
    /// In normal operation 0 or 1 frames are returned per call.
    pub fn feed(&mut self, data: &[u8]) -> (frames: Vec<FrameResult>)
        requires
            old(self).wf(),
        ensures
            final(self).wf(),
            (final(self)@.0, final(self)@.1, frames@) == spec_feed(old(self)@.0, old(self)@.1, data@, N as nat),
    {
        let mut frames: Vec<FrameResult> = Vec::new();
        let mut i: usize = 0;
        while i < data.len()
            invariant
                self.wf(),
                i <= data@.len(),
                (self@.0, self@.1, frames@) == spec_feed(old(self)@.0, old(self)@.1, data@.take(i as int), N as nat),
            decreases data@.len() - i,
        {
            proof { assert(data@.take(i as int + 1).drop_last() =~= data@.take(i as int)); }
            if let Some(r) = self.step(data[i]) {
                frames.push(r);
            }
            i += 1;
        }
        proof { assert(data@.take(data@.len() as int) =~= data@); }
        frames
    }
}

/// Byte sum modulo 256, folding one byte at a time.
fn checksum_fold(frame: &[u8]) -> (r: u8)
    ensures
        r == byte_sum(frame@) % 256,
{
    let mut acc: u8 = 0;
    let mut i: usize = 0;
    while i < frame.len()
        invariant
            i <= frame@.len(),
            acc == byte_sum(frame@.take(i as int)) % 256,
        decreases frame@.len() - i,
    {
        proof {
            let t = frame@.take(i as int + 1);
            assert(t.drop_last() =~= frame@.take(i as int));
            vstd::arithmetic::div_mod::lemma_add_mod_noop(byte_sum(frame@.take(i as int)) as int, frame@[i as int] as int, 256);
        }
        acc = ((acc as u16 + frame[i] as u16) % 256) as u8;
        i += 1;
    }
    proof { assert(frame@.take(frame@.len() as int) =~= frame@); }
    acc
}

/// Parse a complete frame `[19][n][payload..][checksum]`.
fn parse_frame(frame: &[u8]) -> (r: FrameResult)
    requires
        frame@.len() >= 3,
    ensures
        r == spec_parse_frame(frame@),
{
    let fold = checksum_fold(frame);
    if fold != 0 {
        let actual = frame[frame.len() - 1];
        let expected: u8 = if actual >= fold { actual - fold } else { (actual as u16 + 256 - fold as u16) as u8 };
        return Err(ProtocolError::Checksum { expected, actual });
    }
    let payload = slice_subrange(frame, 2, frame.len() - 1);
    let mut sd = SensorData::default();
    let mut offset: usize = 0;
    assert(payload@.skip(0) =~= payload@);
    while offset < payload.len()
        invariant
            offset <= payload@.len(),
            spec_parse_frame(frame@) == spec_parse_payload(SensorData::empty(), payload@),
            spec_parse_payload(sd, payload@.skip(offset as int)) == spec_parse_payload(SensorData::empty(), payload@),
        decreases payload@.len() - offset,
    {
        let pkt_id = payload[offset];
        let ghost rest = payload@.skip(offset as int);
        assert(rest[0] == pkt_id);
        let info = match packet_info(pkt_id) {
            Some(i) => i,
            None => return Err(ProtocolError::UnknownPacketId(pkt_id)),
        };
        let len = info.len as usize;
        if len > payload.len() - offset - 1 {
            return Err(ProtocolError::InsufficientData { need: len, got: payload.len() - offset - 1 });
        }
        let chunk = slice_subrange(payload, offset + 1, offset + 1 + len);
        proof {
            assert(chunk@ =~= rest.subrange(1, 1 + len as int));
            assert(rest.skip(1 + len as int) =~= payload@.skip((offset + 1 + len) as int));
        }
        let _ = sd.decode_packet(pkt_id, chunk);
        offset += 1 + len;
    }
    Ok(sd)
}

/// Feeding `a + b` is feeding `a` and then `b`, with the results concatenated.
pub proof fn lemma_feed_concat(st: FrameState, buf: Seq<u8>, a: Seq<u8>, b: Seq<u8>, cap: nat)
    ensures
        ({
            let (s1, b1, o1) = spec_feed(st, buf, a, cap);
            let (s2, b2, o2) = spec_feed(s1, b1, b, cap);
            spec_feed(st, buf, a + b, cap) == (s2, b2, o1 + o2)
        }),
    decreases b.len(),
{
    let (s1, b1, o1) = spec_feed(st, buf, a, cap);
    if b.len() == 0 {
        assert(a + b =~= a);
        assert(o1 + Seq::<FrameResult>::empty() =~= o1);
    } else {
        lemma_feed_concat(st, buf, a, b.drop_last(), cap);
        assert((a + b).drop_last() =~= a + b.drop_last());
        assert((a + b).last() == b.last());
        let (s2, b2, o2) = spec_feed(s1, b1, b.drop_last(), cap);
        let (s3, b3, o) = spec_step(s2, b2, b.last(), cap);
        if let Some(r) = o {
            assert((o1 + o2).push(r) =~= o1 + o2.push(r));
        }
    }
}

/// Feeding a single byte is one step.
pub proof fn lemma_feed_one(st: FrameState, buf: Seq<u8>, x: u8, cap: nat)
    ensures
        ({
            let (s, b, o) = spec_step(st, buf, x, cap);
            spec_feed(st, buf, seq![x], cap) == (s, b, match o {
                Some(r) => seq![r],
                None => Seq::<FrameResult>::empty(),
            })
        }),
{
    assert(seq![x].drop_last() =~= Seq::<u8>::empty());
    assert(seq![x].last() == x);
    assert(spec_feed(st, buf, Seq::<u8>::empty(), cap) == (st, buf, Seq::<FrameResult>::empty()));
    let (s, b, o) = spec_step(st, buf, x, cap);
    if let Some(r) = o {
        assert(Seq::<FrameResult>::empty().push(r) =~= seq![r]);
    }
}

/// Bytes that do not complete a frame are only collected.
pub proof fn lemma_collect(expected: usize, buf: Seq<u8>, bytes: Seq<u8>, cap: nat)
    requires
        buf.len() >= 2,
        buf.len() - 2 + bytes.len() < expected,
        buf.len() + bytes.len() <= cap,
    ensures
        spec_feed(FrameState::Collecting { expected }, buf, bytes, cap)
            == (FrameState::Collecting { expected }, buf + bytes, Seq::<FrameResult>::empty()),
    decreases bytes.len(),
{
    if bytes.len() == 0 {
        assert(buf + bytes =~= buf);
    } else {
        lemma_collect(expected, buf, bytes.drop_last(), cap);
        assert((buf + bytes.drop_last()).push(bytes.last()) =~= buf + bytes);
    }
}

/// The byte sum of a sequence with one more byte.
pub proof fn lemma_byte_sum_push(s: Seq<u8>, b: u8)
    ensures
        byte_sum(s.push(b)) == byte_sum(s) + b,
{
    assert(s.push(b).drop_last() =~= s);
}

/// The stream frame carrying `payload`: header, length, payload, checksum.
pub open spec fn frame_of(payload: Seq<u8>) -> Seq<u8> {
    let head = seq![STREAM_HEADER, payload.len() as u8] + payload;
    head.push(checksum_for(head))
}

/// Every frame built by `frame_of` sums to zero modulo 256.
pub proof fn lemma_frame_checksum(payload: Seq<u8>)
    ensures
        byte_sum(frame_of(payload)) % 256 == 0,
{
    let head = seq![STREAM_HEADER, payload.len() as u8] + payload;
    lemma_byte_sum_push(head, checksum_for(head));
    let x = byte_sum(head);
    assert((x + (256 - x % 256) % 256) % 256 == 0) by (nonlinear_arith);
}

/// Law: a parser waiting for a header turns the frame of any payload it can
/// hold into exactly one result — the decoding of that payload — and is then
/// waiting for the next header.
pub proof fn lemma_frame_round_trip(buf: Seq<u8>, payload: Seq<u8>, cap: nat)
    requires
        1 <= payload.len() <= 255,
        payload.len() <= max_payload(cap),
    ensures
        spec_feed(FrameState::WaitingHeader, buf, frame_of(payload), cap)
            == (FrameState::WaitingHeader, frame_of(payload), seq![spec_parse_payload(SensorData::empty(), payload)]),
{
    let n = payload.len() as u8;
    let head = seq![STREAM_HEADER, n] + payload;
    let c = checksum_for(head);
    let frame = frame_of(payload);
    let expected = (n + 1) as usize;
    assert(frame =~= seq![STREAM_HEADER] + seq![n] + payload + seq![c]);
    lemma_feed_one(FrameState::WaitingHeader, buf, STREAM_HEADER, cap);
    assert(spec_push(Seq::empty(), STREAM_HEADER, cap) =~= seq![STREAM_HEADER]);
    lemma_feed_one(FrameState::WaitingLength, seq![STREAM_HEADER], n, cap);
    assert(spec_push(seq![STREAM_HEADER], n, cap) =~= seq![STREAM_HEADER, n]);
    lemma_collect(expected, seq![STREAM_HEADER, n], payload, cap);
    lemma_feed_one(FrameState::Collecting { expected }, head, c, cap);
    assert(spec_push(head, c, cap) =~= frame);
    lemma_feed_concat(FrameState::WaitingHeader, buf, seq![STREAM_HEADER], seq![n], cap);
    lemma_feed_concat(FrameState::WaitingHeader, buf, seq![STREAM_HEADER] + seq![n], payload, cap);
    lemma_feed_concat(FrameState::WaitingHeader, buf, seq![STREAM_HEADER] + seq![n] + payload, seq![c], cap);
    assert(seq![STREAM_HEADER] + seq![n] =~= seq![STREAM_HEADER, n]);
    lemma_frame_checksum(payload);
    assert(frame.subrange(2, frame.len() - 1) =~= payload);
    assert(Seq::<FrameResult>::empty() + Seq::<FrameResult>::empty() =~= Seq::<FrameResult>::empty());
    assert(Seq::<FrameResult>::empty() + seq![spec_parse_frame(frame)] =~= seq![spec_parse_frame(frame)]);
}

/// Law: while waiting for a header, bytes other than the header byte are
/// skipped without output or change of state.
pub proof fn lemma_skip_until_header(buf: Seq<u8>, data: Seq<u8>, cap: nat)
    requires
        forall|i: int| 0 <= i < data.len() ==> data[i] != STREAM_HEADER,
    ensures
        spec_feed(FrameState::WaitingHeader, buf, data, cap) == (FrameState::WaitingHeader, buf, Seq::<FrameResult>::empty()),
    decreases data.len(),
{
    if data.len() > 0 {
        assert(data.last() == data[data.len() - 1]);
        lemma_skip_until_header(buf, data.drop_last(), cap);
    }
}

/// Law: a frame whose bytes do not sum to zero modulo 256 is refused with a
/// checksum error naming its last byte as `actual` and, as `expected`, the
/// byte that in its place makes the frame sum to zero.
pub proof fn lemma_checksum_error(frame: Seq<u8>)
    requires
        frame.len() >= 1,
        byte_sum(frame) % 256 != 0,
    ensures
        spec_parse_frame(frame) matches Err(ProtocolError::Checksum { expected, actual })
            && actual == frame.last()
            && byte_sum(frame.drop_last().push(expected)) % 256 == 0,
{
    let front = frame.drop_last();
    let a = frame.last();
    assert(front.push(a) =~= frame);
    lemma_byte_sum_push(front, a);
    let fold = byte_sum(frame) % 256;
    let e = ((a - fold) % 256) as u8;
    lemma_byte_sum_push(front, e);
    let sf = byte_sum(front);
    assert(((a - fold) % 256) as u8 as int == (a - fold) % 256);
    assert((sf + (a - (sf + a) % 256) % 256) % 256 == 0) by (nonlinear_arith);
}

} // verus!
