//! Writing backend messages as frames.

use crate::decimal::put_decimal;
use crate::error::CodecError;
use crate::message::{
    body_of, cell_bytes, cells_bytes, ctext, description_bytes, descriptions_bytes, encodable,
    frame_of, tag_of, text, value_text, BackendMessage, FieldDescription, FieldValue, Interval,
};
use crate::wire::{put_bytes, put_cstr, put_i16, put_i32, put_u16, put_u32, u16_bytes, write_u32_at};
use vstd::prelude::*;

verus! {

/// Appends the UTF-8 bytes of `s`.
fn put_text(buf: &mut Vec<u8>, s: &String)
    ensures
        final(buf)@ == old(buf)@ + text(s@),
{
    put_bytes(buf, s.as_str().as_bytes());
}

/// Appends the UTF-8 bytes of `s` and a null byte.
fn put_ctext(buf: &mut Vec<u8>, s: &str)
    ensures
        final(buf)@ == old(buf)@ + ctext(s@),
{
    put_cstr(buf, s.as_bytes());
}

/// Appends the text-format bytes of a column value.
pub fn put_value_text(buf: &mut Vec<u8>, v: &FieldValue)
    ensures
        final(buf)@ == old(buf)@ + value_text(*v),
{
    match v {
        FieldValue::Bool(b) => {
            if *b {
                buf.push(116u8);
            } else {
                buf.push(102u8);
            }
            assert(final(buf)@ =~= old(buf)@ + value_text(*v));
        },
        FieldValue::Bytea(b) => put_bytes(buf, b.as_slice()),
        FieldValue::Date(s) => put_text(buf, s),
        FieldValue::Timestamp(s) => put_text(buf, s),
        FieldValue::Interval(i) => match i {
            Interval::Months(n) => {
                put_decimal(buf, *n);
                buf.push(32u8);
                buf.push(109u8);
                buf.push(111u8);
                buf.push(110u8);
                buf.push(116u8);
                buf.push(104u8);
                buf.push(115u8);
                assert(final(buf)@ =~= old(buf)@ + value_text(*v));
            },
            Interval::Duration { is_positive, duration } => {
                if !*is_positive {
                    buf.push(45u8);
                }
                put_text(buf, duration);
                assert(final(buf)@ =~= old(buf)@ + value_text(*v));
            },
        },
        FieldValue::Int4(n) => put_decimal(buf, *n as i64),
        FieldValue::Int8(n) => put_decimal(buf, *n),
        FieldValue::Float4(s) => put_text(buf, s),
        FieldValue::Float8(s) => put_text(buf, s),
        FieldValue::Numeric(s) => put_text(buf, s),
        FieldValue::Text(s) => put_text(buf, s),
    }
}

/// Appends one cell of a data row.
fn put_cell(buf: &mut Vec<u8>, c: &Option<FieldValue>)
    ensures
        final(buf)@ == old(buf)@ + cell_bytes(*c),
{
    match c {
        Some(v) => {
            let mut t: Vec<u8> = Vec::new();
            put_value_text(&mut t, v);
            assert(t@ =~= value_text(*v));
            put_u32(buf, t.len() as u32);
            put_bytes(buf, t.as_slice());
            assert(final(buf)@ =~= old(buf)@ + cell_bytes(*c));
        },
        None => put_i32(buf, -1i32),
    }
}

/// Appends one column description.
fn put_description(buf: &mut Vec<u8>, f: &FieldDescription)
    ensures
        final(buf)@ == old(buf)@ + description_bytes(*f),
{
    put_ctext(buf, f.name.as_str());
    put_u32(buf, f.table_id);
    put_u16(buf, f.column_id);
    put_u32(buf, f.type_oid);
    put_i16(buf, f.type_len);
    put_i32(buf, f.type_mod);
    put_u16(buf, f.format);
    assert(final(buf)@ =~= old(buf)@ + description_bytes(*f));
}

/// Appends the column count and the descriptions of a row description.
fn put_descriptions(buf: &mut Vec<u8>, fs: &Vec<FieldDescription>)
    ensures
        final(buf)@ == old(buf)@ + u16_bytes(fs@.len() as u16) + descriptions_bytes(fs@),
{
    put_u16(buf, fs.len() as u16);
    let ghost start = buf@;
    let mut i: usize = 0;
    while i < fs.len()
        invariant
            i <= fs@.len(),
            start == old(buf)@ + u16_bytes(fs@.len() as u16),
            buf@ == start + descriptions_bytes(fs@.subrange(0, i as int)),
        decreases fs@.len() - i,
    {
        put_description(buf, &fs[i]);
        assert(fs@.subrange(0, i + 1).drop_last() =~= fs@.subrange(0, i as int));
        i = i + 1;
        assert(buf@ =~= start + descriptions_bytes(fs@.subrange(0, i as int)));
    }
    assert(fs@.subrange(0, fs@.len() as int) =~= fs@);
}

/// Appends the column count and the cells of a data row.
fn put_cells(buf: &mut Vec<u8>, cs: &Vec<Option<FieldValue>>)
    ensures
        final(buf)@ == old(buf)@ + u16_bytes(cs@.len() as u16) + cells_bytes(cs@),
{
    put_u16(buf, cs.len() as u16);
    let ghost start = buf@;
    let mut i: usize = 0;
    while i < cs.len()
        invariant
            i <= cs@.len(),
            start == old(buf)@ + u16_bytes(cs@.len() as u16),
            buf@ == start + cells_bytes(cs@.subrange(0, i as int)),
        decreases cs@.len() - i,
    {
        put_cell(buf, &cs[i]);
        assert(cs@.subrange(0, i + 1).drop_last() =~= cs@.subrange(0, i as int));
        i = i + 1;
        assert(buf@ =~= start + cells_bytes(cs@.subrange(0, i as int)));
    }
    assert(cs@.subrange(0, cs@.len() as int) =~= cs@);
}

/// Appends the body of a backend message.
pub fn put_body(buf: &mut Vec<u8>, m: &BackendMessage)
    ensures
        final(buf)@ == old(buf)@ + body_of(*m),
{
    match m {
        BackendMessage::AuthenticationOk => put_u32(buf, 0u32),
        BackendMessage::RowDescription(fs) => {
            put_descriptions(buf, fs);
            assert(final(buf)@ =~= old(buf)@ + body_of(*m));
        },
        BackendMessage::DataRow(cs) => {
            put_cells(buf, cs);
            assert(final(buf)@ =~= old(buf)@ + body_of(*m));
        },
        BackendMessage::CommandComplete { tag } => put_ctext(buf, tag.as_str()),
        BackendMessage::EmptyQueryResponse => {
            assert(final(buf)@ =~= old(buf)@ + body_of(*m));
        },
        BackendMessage::ReadyForQuery => {
            buf.push(73u8);
            assert(final(buf)@ =~= old(buf)@ + body_of(*m));
        },
        BackendMessage::ParameterStatus(name, value) => {
            put_ctext(buf, name.as_str());
            put_ctext(buf, value.as_str());
            assert(final(buf)@ =~= old(buf)@ + body_of(*m));
        },
        BackendMessage::ParseComplete => {
            assert(final(buf)@ =~= old(buf)@ + body_of(*m));
        },
        BackendMessage::ErrorResponse { severity, code, message, detail } => {
            buf.push(83u8);
            put_ctext(buf, severity.string());
            buf.push(67u8);
            put_ctext(buf, code.as_str());
            buf.push(77u8);
            put_ctext(buf, message.as_str());
            match detail {
                Some(d) => {
                    buf.push(68u8);
                    put_ctext(buf, d.as_str());
                },
                None => {},
            }
            buf.push(0u8);
            assert(final(buf)@ =~= old(buf)@ + body_of(*m));
        },
        BackendMessage::CopyOutResponse => {
            buf.push(0u8);
            put_i16(buf, 0i16);
            assert(final(buf)@ =~= old(buf)@ + body_of(*m));
        },
        BackendMessage::CopyData(d) => put_bytes(buf, d.as_slice()),
    }
}

/// The type byte of a backend message.
pub fn tag(m: &BackendMessage) -> (r: u8)
    ensures
        r == tag_of(*m),
{
    match m {
        BackendMessage::AuthenticationOk => 82u8,
        BackendMessage::RowDescription(_) => 84u8,
        BackendMessage::DataRow(_) => 68u8,
        BackendMessage::CommandComplete { .. } => 67u8,
        BackendMessage::EmptyQueryResponse => 73u8,
        BackendMessage::ReadyForQuery => 90u8,
        BackendMessage::ParameterStatus(_, _) => 83u8,
        BackendMessage::ParseComplete => 49u8,
        BackendMessage::ErrorResponse { .. } => 69u8,
        BackendMessage::CopyOutResponse => 72u8,
        BackendMessage::CopyData(_) => 100u8,
    }
}

/// The frame of a backend message: its type byte, a length placeholder
/// that is overwritten once the body is written, and the body. Fails only
/// where the message does not fit the wire format.
pub fn encode_frame(m: &BackendMessage) -> (r: Result<Vec<u8>, CodecError>)
    ensures
        encodable(*m) ==> (r matches Ok(v) && v@ == frame_of(*m)),
        !encodable(*m) ==> r == Err::<Vec<u8>, CodecError>(CodecError::MessageTooLarge),
{
    let mut buf: Vec<u8> = Vec::new();
    buf.push(tag(m));
    let start_len = buf.len();
    put_u32(&mut buf, 0u32);
    put_body(&mut buf, m);
    let count_fits = match m {
        BackendMessage::RowDescription(fs) => fs.len() <= 0xFFFF,
        BackendMessage::DataRow(cs) => cs.len() <= 0xFFFF,
        _ => true,
    };
    let len = buf.len() - start_len;
    if !count_fits || len as u64 > 0xFFFF_FFFFu64 {
        return Err(CodecError::MessageTooLarge);
    }
    write_u32_at(&mut buf, start_len, len as u32);
    assert(buf@ =~= frame_of(*m));
    Ok(buf)
}

} // verus!
