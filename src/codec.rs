//! Reading client frames: the length check, the frame state machine, and
//! the decoding of each supported message body.

use crate::buffer::{advance_buffer, append_buffer, buffer_bytes, buffer_len, buffered};
use crate::encode::encode_frame;
use crate::error::CodecError;
use crate::message::{encodable, frame_of, BackendMessage, FrontendMessage, FrontendView};
use crate::wire::{be_u16, be_u32, read_u16, read_u32};
use bytes::BytesMut;
use vstd::prelude::*;
use vstd::slice::{slice_subrange, slice_to_vec};
use vstd::utf8::{decode_utf8, valid_utf8};

verus! {

/// The largest frame length that is accepted, its own four bytes included.
pub const MAX_FRAME_SIZE: usize = 8192;

/// Which body parser a pending frame goes to.
#[derive(Clone, Copy, Debug, PartialEq, Eq, Structural)]
pub enum FrameKind {
    /// The untyped first frame of a connection.
    Startup,
    /// A frame with the given type byte.
    Typed(u8),
}

/// Where the reader stands in the stream.
#[derive(Clone, Copy, Debug, PartialEq, Eq, Structural)]
pub enum DecodeState {
    /// Next comes the startup frame: a length, then the body, no type byte.
    Startup,
    /// Next comes a type byte and a length.
    Head,
    /// A header was read; a body of the given kind and length is pending.
    Data(FrameKind, usize),
}

/// The body length that a declared frame length gives, or why it is refused.
pub open spec fn frame_len_spec(n: int) -> Result<int, CodecError> {
    if n > MAX_FRAME_SIZE {
        Err(CodecError::FrameTooBig)
    } else if n < 4 {
        Err(CodecError::InvalidFrameLength)
    } else {
        Ok(n - 4)
    }
}

/// `p` is the position of the first null byte of `b`.
pub open spec fn is_first_null(b: Seq<u8>, p: int) -> bool {
    &&& 0 <= p < b.len()
    &&& b[p] == 0
    &&& forall|j: int| 0 <= j < p ==> b[j] != 0
}

/// The string at the front of `b` that ends at its first null byte, and the
/// number of bytes it takes with its null byte; refused where `b` holds no
/// null byte, where the null byte stands beyond `max`, or where the string
/// is not UTF-8.
pub open spec fn cstr_spec(b: Seq<u8>, max: int) -> Result<(Seq<char>, int), CodecError> {
    if exists|p: int| is_first_null(b, p) {
        let p = choose|p: int| is_first_null(b, p);
        if p <= max && valid_utf8(b.take(p)) {
            Ok((decode_utf8(b.take(p)), p + 1))
        } else {
            Err(CodecError::InvalidInput)
        }
    } else {
        Err(CodecError::InvalidInput)
    }
}

/// The parameter type OIDs of a `Parse` body, read from the bytes `b` that
/// follow the declared count: as many as declared, or as many whole
/// four-byte values as `b` holds, whichever is fewer.
pub open spec fn oids_spec(b: Seq<u8>, count: int) -> Seq<u32> {
    let k = if count <= b.len() / 4 {
        count
    } else {
        (b.len() / 4) as int
    };
    Seq::new(k as nat, |i: int| be_u32(b.subrange(4 * i, 4 * i + 4)) as u32)
}

/// The rest of a `Parse` body after its name: the statement text, the
/// declared parameter count, and the OIDs.
pub open spec fn parse_rest_spec(name: Seq<char>, b: Seq<u8>) -> Result<FrontendView, CodecError> {
    match cstr_spec(b, b.len() as int) {
        Err(e) => Err(e),
        Ok((sql, n)) => {
            let rest = b.skip(n);
            if rest.len() < 2 {
                Err(CodecError::InvalidInput)
            } else {
                Ok(
                    FrontendView::Parse {
                        name,
                        sql,
                        param_type_oids: oids_spec(rest.skip(2), be_u16(rest)),
                    },
                )
            }
        },
    }
}

/// The message that a complete frame body of the given kind stands for.
pub open spec fn body_spec(kind: FrameKind, body: Seq<u8>) -> Result<FrontendView, CodecError> {
    match kind {
        FrameKind::Startup => if body.len() < 4 {
            Err(CodecError::InvalidInput)
        } else {
            Ok(FrontendView::Startup { version: be_u32(body) as u32 })
        },
        FrameKind::Typed(t) => if t == 81 {
            if body.len() == 0 {
                Err(CodecError::InvalidInput)
            } else {
                Ok(FrontendView::Query { sql: body.take(body.len() - 1) })
            }
        } else if t == 88 {
            Ok(FrontendView::Terminate)
        } else if t == 80 {
            match cstr_spec(body, body.len() as int) {
                Err(e) => Err(e),
                Ok((name, n)) => parse_rest_spec(name, body.skip(n)),
            }
        } else {
            Err(CodecError::InvalidMessageType(t))
        },
    }
}

/// What one call of the decoder does: the state it leaves, how many bytes
/// it takes from the front of the buffer, and what it returns.
pub type Step = (DecodeState, int, Result<Option<FrontendView>, CodecError>);

/// The step that waits for, or decodes, a body of `n` bytes at the front of
/// `rest`, after `pre` header bytes were taken.
pub open spec fn body_step(kind: FrameKind, n: int, rest: Seq<u8>, pre: int) -> Step {
    if rest.len() < n {
        (DecodeState::Data(kind, n as usize), pre, Ok(None))
    } else {
        match body_spec(kind, rest.take(n)) {
            Ok(m) => (DecodeState::Head, pre + n, Ok(Some(m))),
            Err(e) => (DecodeState::Head, pre + n, Err(e)),
        }
    }
}

/// One call of the decoder in state `st` on the buffered bytes `buf`.
pub open spec fn decode_spec(st: DecodeState, buf: Seq<u8>) -> Step {
    match st {
        DecodeState::Startup => if buf.len() < 4 {
            (st, 0, Ok(None))
        } else {
            match frame_len_spec(be_u32(buf)) {
                Err(e) => (st, 0, Err(e)),
                Ok(n) => body_step(FrameKind::Startup, n, buf.skip(4), 4),
            }
        },
        DecodeState::Head => if buf.len() < 5 {
            (st, 0, Ok(None))
        } else {
            match frame_len_spec(be_u32(buf.skip(1))) {
                Err(e) => (st, 0, Err(e)),
                Ok(n) => body_step(FrameKind::Typed(buf[0]), n, buf.skip(5), 5),
            }
        },
        DecodeState::Data(kind, n) => body_step(kind, n as int, buf, 0),
    }
}

/// The mathematical value of a decoder result.
pub open spec fn result_view(r: Result<Option<FrontendMessage>, CodecError>) -> Result<
    Option<FrontendView>,
    CodecError,
> {
    match r {
        Ok(Some(m)) => Ok(Some(m@)),
        Ok(None) => Ok(None),
        Err(e) => Err(e),
    }
}

/// The mathematical value of a decoded body.
pub open spec fn message_view(r: Result<FrontendMessage, CodecError>) -> Result<FrontendView, CodecError> {
    match r {
        Ok(m) => Ok(m@),
        Err(e) => Err(e),
    }
}

/// Relies on `std::str::from_utf8`: it accepts exactly the well-formed
/// UTF-8 byte sequences, and the string then holds the decoded characters.
#[verifier::external_body]
fn utf8_string(b: &[u8]) -> (r: Option<String>)
    ensures
        r is Some <==> valid_utf8(b@),
        r matches Some(s) ==> s@ == decode_utf8(b@),
{
    std::str::from_utf8(b).ok().map(|s| s.to_owned())
}

/// Relies on `cast::usize` for a `u32`: a widening conversion that keeps
/// the value.
#[verifier::external_body]
fn widen(n: u32) -> (r: usize)
    ensures
        r == n,
{
    cast::usize(n)
}

/// Reads the body length from a four-byte frame length, refusing a length
/// above the largest frame or below the four bytes of the length itself.
pub fn parse_frame_len(src: &[u8]) -> (r: Result<usize, CodecError>)
    requires
        src@.len() >= 4,
    ensures
        r matches Ok(n) ==> frame_len_spec(be_u32(src@)) == Ok::<int, CodecError>(n as int),
        r matches Err(e) ==> frame_len_spec(be_u32(src@)) == Err::<int, CodecError>(e),
{
    let n = widen(read_u32(src));
    if n > MAX_FRAME_SIZE {
        Err(CodecError::FrameTooBig)
    } else if n < 4 {
        Err(CodecError::InvalidFrameLength)
    } else {
        Ok(n - 4)
    }
}

/// Reads the null-terminated string at the front of `b`, and the number of
/// bytes it takes with its null byte.
pub fn read_cstr(b: &[u8], max: usize) -> (r: Result<(String, usize), CodecError>)
    ensures
        r matches Ok((s, n)) ==> cstr_spec(b@, max as int) == Ok::<(Seq<char>, int), CodecError>(
            (s@, n as int),
        ),
        r matches Err(e) ==> cstr_spec(b@, max as int) == Err::<(Seq<char>, int), CodecError>(e),
{
    let mut i: usize = 0;
    while i < b.len() && b[i] != 0
        invariant
            i <= b@.len(),
            forall|j: int| 0 <= j < i ==> b@[j] != 0,
        decreases b@.len() - i,
    {
        i = i + 1;
    }
    if i == b.len() {
        assert(!exists|p: int| is_first_null(b@, p));
        return Err(CodecError::InvalidInput);
    }
    assert(is_first_null(b@, i as int));
    assert forall|p: int| is_first_null(b@, p) implies p == i by {
        if p < i {
        } else if p > i {
            assert(b@[i as int] != 0);
        }
    }
    if i > max {
        return Err(CodecError::InvalidInput);
    }
    let head = slice_subrange(b, 0, i);
    assert(head@ =~= b@.take(i as int));
    match utf8_string(head) {
        Some(s) => Ok((s, i + 1)),
        None => Err(CodecError::InvalidInput),
    }
}

/// Reads the parameter type OIDs that follow the declared count of a
/// `Parse` body.
fn read_oids(b: &[u8], count: u16) -> (r: Vec<u32>)
    ensures
        r@ == oids_spec(b@, count as int),
{
    let mut oids: Vec<u32> = Vec::new();
    let mut i: usize = 0;
    let mut off: usize = 0;
    while i < count as usize && off + 4 <= b.len()
        invariant
            off == 4 * i,
            i <= count,
            off <= b@.len(),
            oids@ =~= oids_spec(b@, count as int).take(i as int),
            i <= oids_spec(b@, count as int).len(),
        decreases count - i,
    {
        let word = slice_subrange(b, off, off + 4);
        oids.push(read_u32(word));
        i = i + 1;
        off = off + 4;
    }
    assert(i == oids_spec(b@, count as int).len());
    oids
}

/// Decodes the rest of a `Parse` body after its name.
fn parse_rest(name: String, b: &[u8]) -> (r: Result<FrontendMessage, CodecError>)
    ensures
        message_view(r) == parse_rest_spec(name@, b@),
{
    match read_cstr(b, b.len()) {
        Err(e) => Err(e),
        Ok((sql, n)) => {
            let rest = slice_subrange(b, n, b.len());
            assert(rest@ =~= b@.skip(n as int));
            if rest.len() < 2 {
                return Err(CodecError::InvalidInput);
            }
            let count = read_u16(rest);
            let tail = slice_subrange(rest, 2, rest.len());
            assert(tail@ =~= rest@.skip(2));
            let param_type_oids = read_oids(tail, count);
            Ok(FrontendMessage::Parse { name, sql, param_type_oids })
        },
    }
}

/// Decodes a complete frame body of the given kind.
pub fn parse_body(kind: FrameKind, body: &[u8]) -> (r: Result<FrontendMessage, CodecError>)
    ensures
        message_view(r) == body_spec(kind, body@),
{
    match kind {
        FrameKind::Startup => {
            if body.len() < 4 {
                Err(CodecError::InvalidInput)
            } else {
                Ok(FrontendMessage::Startup { version: read_u32(body) })
            }
        },
        FrameKind::Typed(t) => {
            if t == 81 {
                if body.len() == 0 {
                    Err(CodecError::InvalidInput)
                } else {
                    let sql = slice_to_vec(slice_subrange(body, 0, body.len() - 1));
                    Ok(FrontendMessage::Query { sql })
                }
            } else if t == 88 {
                Ok(FrontendMessage::Terminate)
            } else if t == 80 {
                match read_cstr(body, body.len()) {
                    Err(e) => Err(e),
                    Ok((name, n)) => {
                        let rest = slice_subrange(body, n, body.len());
                        assert(rest@ =~= body@.skip(n as int));
                        parse_rest(name, rest)
                    },
                }
            } else {
                Err(CodecError::InvalidMessageType(t))
            }
        },
    }
}

/// A decoder and encoder of protocol frames for one connection.
pub struct Codec {
    decode_state: DecodeState,
}

impl View for Codec {
    type V = DecodeState;

    closed spec fn view(&self) -> DecodeState {
        self.decode_state
    }
}

impl Codec {
    /// A codec for a new connection, waiting for the startup frame.
    pub fn new() -> (r: Codec)
        ensures
            r@ == DecodeState::Startup,
    {
        Codec { decode_state: DecodeState::Startup }
    }

    /// Waits for, or decodes, a body of `n` bytes at the front of `rest`,
    /// after `pre` header bytes were taken.
    fn body(&mut self, kind: FrameKind, n: usize, rest: &[u8], pre: usize) -> (r: (
        usize,
        Result<Option<FrontendMessage>, CodecError>,
    ))
        requires
            pre + rest@.len() <= usize::MAX,
        ensures
            body_step(kind, n as int, rest@, pre as int) == (final(self)@, r.0 as int, result_view(r.1)),
    {
        if rest.len() < n {
            self.decode_state = DecodeState::Data(kind, n);
            return (pre, Ok(None));
        }
        let b = slice_subrange(rest, 0, n);
        assert(b@ =~= rest@.take(n as int));
        self.decode_state = DecodeState::Head;
        match parse_body(kind, b) {
            Ok(m) => (pre + n, Ok(Some(m))),
            Err(e) => (pre + n, Err(e)),
        }
    }

    /// Decodes from the buffered bytes `src`: returns how many bytes at its
    /// front were taken, and the message of a frame that is now complete,
    /// nothing where more bytes are needed, or an error.
    pub fn decode_bytes(&mut self, src: &[u8]) -> (r: (
        usize,
        Result<Option<FrontendMessage>, CodecError>,
    ))
        ensures
            decode_spec(old(self)@, src@) == (final(self)@, r.0 as int, result_view(r.1)),
    {
        match self.decode_state {
            DecodeState::Startup => {
                if src.len() < 4 {
                    return (0, Ok(None));
                }
                match parse_frame_len(src) {
                    Err(e) => (0, Err(e)),
                    Ok(n) => {
                        let rest = slice_subrange(src, 4, src.len());
                        assert(rest@ =~= src@.skip(4));
                        self.body(FrameKind::Startup, n, rest, 4)
                    },
                }
            },
            DecodeState::Head => {
                if src.len() < 5 {
                    return (0, Ok(None));
                }
                let t = src[0];
                let len_bytes = slice_subrange(src, 1, src.len());
                assert(len_bytes@ =~= src@.skip(1));
                match parse_frame_len(len_bytes) {
                    Err(e) => (0, Err(e)),
                    Ok(n) => {
                        let rest = slice_subrange(src, 5, src.len());
                        assert(rest@ =~= src@.skip(5));
                        self.body(FrameKind::Typed(t), n, rest, 5)
                    },
                }
            },
            DecodeState::Data(kind, n) => {
                assert(src@.len() == src.len());
                self.body(kind, n, src, 0)
            },
        }
    }
    /// Decodes from the transport buffer `src`, dropping from its front
    /// exactly the bytes taken: the message of a frame that is now complete,
    /// nothing where more bytes are needed, or an error.
    pub fn decode(&mut self, src: &mut BytesMut) -> (r: Result<Option<FrontendMessage>, CodecError>)
        ensures
            ({
                let (st, n, res) = decode_spec(old(self)@, buffered(*old(src)));
                &&& final(self)@ == st
                &&& buffered(*final(src)) == buffered(*old(src)).skip(n)
                &&& result_view(r) == res
            }),
    {
        let bytes = buffer_bytes(src);
        let (n, r) = self.decode_bytes(bytes.as_slice());
        advance_buffer(src, n);
        r
    }

    /// Appends the frame of `msg` to the transport buffer `dst`. Fails, and
    /// leaves `dst` as it was, only where the message does not fit the wire
    /// format or the buffer would outgrow the address space.
    pub fn encode(&mut self, msg: BackendMessage, dst: &mut BytesMut) -> (r: Result<(), CodecError>)
        ensures
            final(self)@ == old(self)@,
            (encodable(msg) && buffered(*old(dst)).len() + frame_of(msg).len() <= usize::MAX) ==> (
            r is Ok && buffered(*final(dst)) == buffered(*old(dst)) + frame_of(msg)),
            !(encodable(msg) && buffered(*old(dst)).len() + frame_of(msg).len() <= usize::MAX)
                ==> (r == Err::<(), CodecError>(CodecError::MessageTooLarge) && buffered(
                *final(dst),
            ) == buffered(*old(dst))),
    {
        match encode_frame(&msg) {
            Err(e) => Err(e),
            Ok(frame) => {
                if frame.len() > usize::MAX - buffer_len(dst) {
                    return Err(CodecError::MessageTooLarge);
                }
                append_buffer(dst, frame.as_slice());
                Ok(())
            },
        }
    }
}

impl Default for Codec {
    fn default() -> (r: Codec)
        ensures
            r@ == DecodeState::Startup,
    {
        Codec::new()
    }
}

} // verus!
