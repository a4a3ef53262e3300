//! What holds of the codec across calls: the stream may be cut into chunks
//! anywhere, bad lengths are refused before anything is taken, the startup
//! frame is read only first, and every encoded frame counts its own bytes.

use crate::codec::{
    body_step, cstr_spec, decode_spec, frame_len_spec, is_first_null, DecodeState,
    FrameKind, MAX_FRAME_SIZE,
};
use crate::error::CodecError;
use crate::message::{body_of, encodable, frame_of, FrontendView};
use crate::wire::{be_u32, u32_bytes};
use vstd::prelude::*;

verus! {

/// What a run of decoder calls yields: the messages in order, the state it
/// leaves, the bytes still buffered, and the error that stopped it, if any.
pub type Drained = (Seq<FrontendView>, DecodeState, Seq<u8>, Option<CodecError>);

/// Orders the states so that a run of calls that takes no bytes still ends.
pub open spec fn rank(st: DecodeState) -> int {
    if st is Data {
        1
    } else {
        0
    }
}

/// Calls the decoder on `buf` from state `st` until it needs more bytes or
/// fails, as a driver does each time bytes arrive.
pub open spec fn drain(st: DecodeState, buf: Seq<u8>) -> Drained
    decreases buf.len(), rank(st),
{
    let (s1, n, r) = decode_spec(st, buf);
    match r {
        Ok(Some(m)) => if 0 <= n <= buf.len() && (n > 0 || rank(s1) < rank(st)) {
            let d = drain(s1, buf.skip(n));
            (seq![m] + d.0, d.1, d.2, d.3)
        } else {
            (seq![m], s1, buf.skip(n), None)
        },
        Ok(None) => (seq![], s1, buf.skip(n), None),
        Err(e) => (seq![], s1, buf.skip(n), Some(e)),
    }
}

/// Feeds `chunks` one after the other to a driver that holds `pending`
/// bytes, draining the decoder after each (and once more where no chunk is
/// left); it stops at the first error.
pub open spec fn run_chunks(st: DecodeState, pending: Seq<u8>, chunks: Seq<Seq<u8>>) -> Drained
    decreases chunks.len(),
{
    if chunks.len() == 0 {
        drain(st, pending)
    } else {
        let d = drain(st, pending + chunks[0]);
        if d.3 is Some {
            (d.0, d.1, d.2 + chunks.drop_first().flatten(), d.3)
        } else {
            let e = run_chunks(d.1, d.2, chunks.drop_first());
            (d.0 + e.0, e.1, e.2, e.3)
        }
    }
}

proof fn lemma_body_extends(kind: FrameKind, n: int, rest: Seq<u8>, pre: int, x: Seq<u8>)
    requires
        0 <= n,
    ensures
        rest.len() >= n ==> body_step(kind, n, rest + x, pre) == body_step(kind, n, rest, pre),
{
    if rest.len() >= n {
        assert((rest + x).take(n) =~= rest.take(n));
    }
}

/// One decoder call takes no more than the buffered bytes; one that returns
/// a message or an error returns the same on any longer buffer; and one that
/// returns a message without taking a byte was waiting for an empty body.
proof fn lemma_step_extends(st: DecodeState, buf: Seq<u8>, x: Seq<u8>)
    ensures
        ({
            let (s1, n, r) = decode_spec(st, buf);
            &&& 0 <= n <= buf.len()
            &&& r != Ok::<Option<FrontendView>, CodecError>(None) ==> decode_spec(st, buf + x)
                == decode_spec(st, buf)
            &&& r is Ok && r->Ok_0 is Some ==> (n > 0 || rank(s1) < rank(st))
        }),
{
    let y = buf + x;
    match st {
        DecodeState::Startup => {
            if buf.len() >= 4 {
                assert(be_u32(y) == be_u32(buf));
                assert(y.skip(4) =~= buf.skip(4) + x);
                if let Ok(n) = frame_len_spec(be_u32(buf)) {
                    lemma_body_extends(FrameKind::Startup, n, buf.skip(4), 4, x);
                }
            }
        },
        DecodeState::Head => {
            if buf.len() >= 5 {
                assert(y.skip(1).take(4) =~= buf.skip(1).take(4));
                assert(be_u32(y.skip(1)) == be_u32(buf.skip(1)));
                assert(y.skip(5) =~= buf.skip(5) + x);
                if let Ok(n) = frame_len_spec(be_u32(buf.skip(1))) {
                    lemma_body_extends(FrameKind::Typed(buf[0]), n, buf.skip(5), 5, x);
                }
            }
        },
        DecodeState::Data(kind, n) => {
            lemma_body_extends(kind, n as int, buf, 0, x);
        },
    }
}

/// A body that was waiting in state `Data` gives, once more bytes arrive,
/// the same run as the call that read its header would have given.
proof fn lemma_body_resumes(kind: FrameKind, n: int, y: Seq<u8>, pre: int)
    requires
        0 <= n <= 8188,
        0 < pre <= y.len(),
    ensures
        ({
            let (s1, c, r) = body_step(kind, n, y.skip(pre), pre);
            let d = match r {
                Ok(Some(m)) => {
                    let e = drain(s1, y.skip(c));
                    (seq![m] + e.0, e.1, e.2, e.3)
                },
                Ok(None) => (seq![], s1, y.skip(c), None),
                Err(e) => (seq![], s1, y.skip(c), Some(e)),
            };
            d == drain(DecodeState::Data(kind, n as usize), y.skip(pre))
        }),
{
    let z = y.skip(pre);
    assert(z.skip(0) =~= z);
    if z.len() >= n {
        assert(y.skip(pre + n) =~= z.skip(n));
    }
}

/// A call that needs more bytes leaves a state from which the bytes it did
/// not take, with whatever arrives next, give the same run as the whole.
proof fn lemma_step_resumes(st: DecodeState, buf: Seq<u8>, x: Seq<u8>)
    requires
        decode_spec(st, buf).2 == Ok::<Option<FrontendView>, CodecError>(None),
    ensures
        drain(st, buf + x) == drain(decode_spec(st, buf).0, buf.skip(decode_spec(st, buf).1) + x),
{
    let y = buf + x;
    match st {
        DecodeState::Startup => {
            if buf.len() < 4 {
                assert(buf.skip(0) + x =~= y);
            } else {
                assert(be_u32(y) == be_u32(buf));
                assert(buf.skip(4) + x =~= y.skip(4));
                let n = frame_len_spec(be_u32(buf))->Ok_0;
                lemma_step_extends(st, y, seq![]);
                lemma_body_resumes(FrameKind::Startup, n, y, 4);
            }
        },
        DecodeState::Head => {
            if buf.len() < 5 {
                assert(buf.skip(0) + x =~= y);
            } else {
                assert(y.skip(1).take(4) =~= buf.skip(1).take(4));
                assert(be_u32(y.skip(1)) == be_u32(buf.skip(1)));
                assert(buf.skip(5) + x =~= y.skip(5));
                assert(y[0] == buf[0]);
                let n = frame_len_spec(be_u32(buf.skip(1)))->Ok_0;
                lemma_step_extends(st, y, seq![]);
                lemma_body_resumes(FrameKind::Typed(buf[0]), n, y, 5);
            }
        },
        DecodeState::Data(kind, n) => {
            assert(buf.skip(0) + x =~= y);
        },
    }
}

/// Draining `a` and then, from where that left off, the rest with `b`
/// appended gives the same run as draining `a` and `b` together.
pub proof fn lemma_drain_split(st: DecodeState, a: Seq<u8>, b: Seq<u8>)
    ensures
        ({
            let d1 = drain(st, a);
            if d1.3 is None {
                let d2 = drain(d1.1, d1.2 + b);
                drain(st, a + b) == (d1.0 + d2.0, d2.1, d2.2, d2.3)
            } else {
                drain(st, a + b) == (d1.0, d1.1, d1.2 + b, d1.3)
            }
        }),
    decreases a.len(), rank(st),
{
    let (s1, n, r) = decode_spec(st, a);
    lemma_step_extends(st, a, b);
    assert((a + b).skip(n) =~= a.skip(n) + b);
    match r {
        Ok(Some(m)) => {
            lemma_drain_split(s1, a.skip(n), b);
            let d = drain(s1, a.skip(n));
            if d.3 is None {
                let d2 = drain(d.1, d.2 + b);
                assert(seq![m] + d.0 + d2.0 =~= seq![m] + (d.0 + d2.0));
            }
        },
        Ok(None) => {
            lemma_step_resumes(st, a, b);
            let d2 = drain(s1, a.skip(n) + b);
            assert(seq![] + d2.0 =~= d2.0);
        },
        Err(e) => {},
    }
}

/// Cutting the byte stream into chunks anywhere, and draining the decoder
/// as each chunk arrives, yields the same messages, state, buffered bytes
/// and error as draining the whole stream at once.
pub proof fn lemma_chunked_decode(st: DecodeState, pending: Seq<u8>, chunks: Seq<Seq<u8>>)
    ensures
        run_chunks(st, pending, chunks) == drain(st, pending + chunks.flatten()),
    decreases chunks.len(),
{
    if chunks.len() == 0 {
        assert(pending + chunks.flatten() =~= pending);
    } else {
        let a = pending + chunks[0];
        let b = chunks.drop_first().flatten();
        assert(pending + chunks.flatten() =~= a + b);
        lemma_drain_split(st, a, b);
        let d = drain(st, a);
        if d.3 is None {
            lemma_chunked_decode(d.1, d.2, chunks.drop_first());
        }
    }
}

proof fn lemma_u32_bytes(n: u32)
    ensures
        be_u32(u32_bytes(n)) == n,
{
    let s = u32_bytes(n);
    assert(s[0] as int == n as int / 16777216);
    assert(s[1] as int == n as int / 65536 % 256);
    assert(s[2] as int == n as int / 256 % 256);
    assert(s[3] as int == n as int % 256);
    assert(be_u32(s) == n) by (nonlinear_arith)
        requires
            s[0] as int == n as int / 16777216,
            s[1] as int == n as int / 65536 % 256,
            s[2] as int == n as int / 256 % 256,
            s[3] as int == n as int % 256,
            be_u32(s) == s[0] as int * 16777216 + s[1] as int * 65536 + s[2] as int * 256
                + s[3] as int,
            0 <= n < 0x1_0000_0000,
    ;
}

/// The length prefix of every encoded frame equals the number of body bytes
/// plus the four bytes of the prefix, and so the frame is one type byte
/// longer than its prefix says.
pub proof fn lemma_length_prefix(m: crate::message::BackendMessage)
    requires
        encodable(m),
    ensures
        be_u32(frame_of(m).skip(1)) == body_of(m).len() + 4,
        frame_of(m).len() == 1 + be_u32(frame_of(m).skip(1)),
{
    let n = (body_of(m).len() + 4) as u32;
    lemma_u32_bytes(n);
    assert(frame_of(m).skip(1).take(4) =~= u32_bytes(n));
    assert(be_u32(frame_of(m).skip(1)) == be_u32(u32_bytes(n)));
}

/// The frame length that the next header in `buf` declares, for a decoder
/// in state `st` that is waiting for a header.
pub open spec fn declared_length(st: DecodeState, buf: Seq<u8>) -> int {
    if st is Startup {
        be_u32(buf)
    } else {
        be_u32(buf.skip(1))
    }
}

/// A header that declares a length above the largest frame, or below the
/// four bytes of the length itself, is refused, and no byte is taken.
pub proof fn lemma_length_rejected(st: DecodeState, buf: Seq<u8>)
    requires
        st is Startup && buf.len() >= 4 || st is Head && buf.len() >= 5,
        declared_length(st, buf) > MAX_FRAME_SIZE || declared_length(st, buf) < 4,
    ensures
        decode_spec(st, buf) == (st, 0int, Err::<Option<FrontendView>, CodecError>(
            if declared_length(st, buf) > MAX_FRAME_SIZE {
                CodecError::FrameTooBig
            } else {
                CodecError::InvalidFrameLength
            },
        )),
{
}

/// On a fresh codec, a complete first frame is read without a type byte:
/// its first four bytes are the length, the next four the version.
pub proof fn lemma_startup_first(buf: Seq<u8>)
    requires
        8 <= be_u32(buf) <= MAX_FRAME_SIZE,
        be_u32(buf) <= buf.len(),
    ensures
        decode_spec(DecodeState::Startup, buf) == (DecodeState::Head, be_u32(buf), Ok::<
            Option<FrontendView>,
            CodecError,
        >(Some(FrontendView::Startup { version: be_u32(buf.skip(4)) as u32 }))),
{
    let n = be_u32(buf) - 4;
    assert(buf.skip(4).take(n).take(4) =~= buf.skip(4).take(4));
    assert(be_u32(buf.skip(4).take(n)) == be_u32(buf.skip(4)));
}

/// Once out of the startup state, the decoder never goes back to it, never
/// waits for a startup body again, and, waiting for a header or a typed
/// body, never yields a startup message: the same bytes that a fresh codec
/// reads as a startup frame are read otherwise afterwards.
pub proof fn lemma_startup_only_first(st: DecodeState, buf: Seq<u8>)
    requires
        !(st is Startup),
        !(st matches DecodeState::Data(FrameKind::Startup, _)),
    ensures
        !(decode_spec(st, buf).0 is Startup),
        !(decode_spec(st, buf).0 matches DecodeState::Data(FrameKind::Startup, _)),
        !(decode_spec(st, buf).2 matches Ok(Some(FrontendView::Startup { .. }))),
{
}

/// A string whose body holds no null byte at or before position `max` is
/// refused.
pub proof fn lemma_cstr_needs_null(b: Seq<u8>, max: int)
    requires
        forall|p: int| 0 <= p < b.len() && p <= max ==> b[p] != 0,
    ensures
        cstr_spec(b, max) == Err::<(Seq<char>, int), CodecError>(CodecError::InvalidInput),
{
    if exists|p: int| is_first_null(b, p) {
        let p = choose|p: int| is_first_null(b, p);
        assert(p > max);
    }
}

} // verus!
