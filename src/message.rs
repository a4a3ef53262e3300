//! The messages that the codec reads from clients and writes to them, and
//! the exact bytes that stand for each backend message on the wire.

use crate::decimal::decimal;
use crate::wire::{cstr_bytes, i16_bytes, i32_bytes, u16_bytes, u32_bytes};
use vstd::prelude::*;
use vstd::utf8::encode_utf8;

verus! {

/// A message sent by a client.
#[allow(inconsistent_fields)]
#[derive(Debug, PartialEq, Eq)]
pub enum FrontendMessage {
    /// The first message of a connection: the requested protocol version.
    /// Startup parameters that follow it are not kept.
    Startup { version: u32 },
    /// A simple query, without its terminating null byte.
    Query { sql: Vec<u8> },
    /// A prepared statement: its name, its text, and the parameter type
    /// OIDs that the client supplied.
    Parse { name: String, sql: String, param_type_oids: Vec<u32> },
    /// The client is closing the connection.
    Terminate,
}

/// What a client message holds, as mathematical values.
#[allow(inconsistent_fields)]
pub enum FrontendView {
    Startup { version: u32 },
    Query { sql: Seq<u8> },
    Parse { name: Seq<char>, sql: Seq<char>, param_type_oids: Seq<u32> },
    Terminate,
}

impl View for FrontendMessage {
    type V = FrontendView;

    open spec fn view(&self) -> FrontendView {
        match self {
            FrontendMessage::Startup { version } => FrontendView::Startup { version: *version },
            FrontendMessage::Query { sql } => FrontendView::Query { sql: sql@ },
            FrontendMessage::Parse { name, sql, param_type_oids } => FrontendView::Parse {
                name: name@,
                sql: sql@,
                param_type_oids: param_type_oids@,
            },
            FrontendMessage::Terminate => FrontendView::Terminate,
        }
    }
}

/// The description of one column of a result set.
#[derive(Clone, Debug)]
pub struct FieldDescription {
    pub name: String,
    pub table_id: u32,
    pub column_id: u16,
    pub type_oid: u32,
    pub type_len: i16,
    pub type_mod: i32,
    pub format: u16,
}

/// A time interval as a column value.
#[derive(Clone, Debug)]
pub enum Interval {
    /// A number of months.
    Months(i64),
    /// A span of time: its sign, and its magnitude already in text form.
    Duration { is_positive: bool, duration: String },
}

/// A column value. The date, time, decimal and floating-point kinds arrive
/// already in their text form, which is what goes on the wire.
#[derive(Clone, Debug)]
pub enum FieldValue {
    Bool(bool),
    Bytea(Vec<u8>),
    Date(String),
    Timestamp(String),
    Interval(Interval),
    Int4(i32),
    Int8(i64),
    Float4(String),
    Float8(String),
    Numeric(String),
    Text(String),
}

/// The severity of an error report.
#[derive(Clone, Copy, Debug, PartialEq, Eq, Structural)]
pub enum Severity {
    Error,
    Fatal,
    Panic,
    Warning,
    Notice,
    Debug,
    Info,
    Log,
}

/// A message sent to a client.
#[derive(Clone, Debug)]
pub enum BackendMessage {
    AuthenticationOk,
    RowDescription(Vec<FieldDescription>),
    DataRow(Vec<Option<FieldValue>>),
    CommandComplete { tag: String },
    EmptyQueryResponse,
    ReadyForQuery,
    ParameterStatus(String, String),
    ParseComplete,
    ErrorResponse { severity: Severity, code: String, message: String, detail: Option<String> },
    CopyOutResponse,
    CopyData(Vec<u8>),
}

/// The name of a severity as it appears in an error report.
pub open spec fn severity_name(s: Severity) -> Seq<char> {
    match s {
        Severity::Error => "ERROR"@,
        Severity::Fatal => "FATAL"@,
        Severity::Panic => "PANIC"@,
        Severity::Warning => "WARNING"@,
        Severity::Notice => "NOTICE"@,
        Severity::Debug => "DEBUG"@,
        Severity::Info => "INFO"@,
        Severity::Log => "LOG"@,
    }
}

impl Severity {
    /// The name of this severity as it appears in an error report.
    pub fn string(&self) -> (r: &'static str)
        ensures
            r@ == severity_name(*self),
    {
        match self {
            Severity::Error => "ERROR",
            Severity::Fatal => "FATAL",
            Severity::Panic => "PANIC",
            Severity::Warning => "WARNING",
            Severity::Notice => "NOTICE",
            Severity::Debug => "DEBUG",
            Severity::Info => "INFO",
            Severity::Log => "LOG",
        }
    }
}

/// The UTF-8 bytes of a string.
pub open spec fn text(s: Seq<char>) -> Seq<u8> {
    encode_utf8(s)
}

/// The UTF-8 bytes of a string followed by a null byte.
pub open spec fn ctext(s: Seq<char>) -> Seq<u8> {
    cstr_bytes(encode_utf8(s))
}

/// The text-format bytes of an interval.
pub open spec fn interval_text(i: Interval) -> Seq<u8> {
    match i {
        Interval::Months(n) => decimal(n as int) + seq![32u8, 109u8, 111u8, 110u8, 116u8, 104u8, 115u8],
        Interval::Duration { is_positive, duration } => if is_positive {
            text(duration@)
        } else {
            seq![45u8] + text(duration@)
        },
    }
}

/// The text-format bytes of a column value.
pub open spec fn value_text(v: FieldValue) -> Seq<u8> {
    match v {
        FieldValue::Bool(b) => if b {
            seq![116u8]
        } else {
            seq![102u8]
        },
        FieldValue::Bytea(b) => b@,
        FieldValue::Date(s) => text(s@),
        FieldValue::Timestamp(s) => text(s@),
        FieldValue::Interval(i) => interval_text(i),
        FieldValue::Int4(n) => decimal(n as int),
        FieldValue::Int8(n) => decimal(n as int),
        FieldValue::Float4(s) => text(s@),
        FieldValue::Float8(s) => text(s@),
        FieldValue::Numeric(s) => text(s@),
        FieldValue::Text(s) => text(s@),
    }
}

/// The bytes of one column description.
pub open spec fn description_bytes(f: FieldDescription) -> Seq<u8> {
    ctext(f.name@) + u32_bytes(f.table_id) + u16_bytes(f.column_id) + u32_bytes(f.type_oid)
        + i16_bytes(f.type_len) + i32_bytes(f.type_mod) + u16_bytes(f.format)
}

/// The bytes of a sequence of column descriptions, one after the other.
pub open spec fn descriptions_bytes(fs: Seq<FieldDescription>) -> Seq<u8>
    decreases fs.len(),
{
    if fs.len() == 0 {
        seq![]
    } else {
        descriptions_bytes(fs.drop_last()) + description_bytes(fs.last())
    }
}

/// The bytes of one cell of a data row: the length of its text, then the
/// text; or the length -1 for an absent value.
pub open spec fn cell_bytes(c: Option<FieldValue>) -> Seq<u8> {
    match c {
        Some(v) => u32_bytes(value_text(v).len() as u32) + value_text(v),
        None => i32_bytes(-1i32),
    }
}

/// The bytes of a sequence of cells, one after the other.
pub open spec fn cells_bytes(cs: Seq<Option<FieldValue>>) -> Seq<u8>
    decreases cs.len(),
{
    if cs.len() == 0 {
        seq![]
    } else {
        cells_bytes(cs.drop_last()) + cell_bytes(cs.last())
    }
}

/// The type byte of a backend message.
pub open spec fn tag_of(m: BackendMessage) -> u8 {
    match m {
        BackendMessage::AuthenticationOk => 82u8,
        BackendMessage::RowDescription(_) => 84u8,
        BackendMessage::DataRow(_) => 68u8,
        BackendMessage::CommandComplete { .. } => 67u8,
        BackendMessage::EmptyQueryResponse => 73u8,
        BackendMessage::ReadyForQuery => 90u8,
        BackendMessage::ParameterStatus(_, _) => 83u8,
        BackendMessage::ParseComplete => 49u8,
        BackendMessage::ErrorResponse { .. } => 69u8,
        BackendMessage::CopyOutResponse => 72u8,
        BackendMessage::CopyData(_) => 100u8,
    }
}

/// The body of a backend message: what follows its length prefix.
pub open spec fn body_of(m: BackendMessage) -> Seq<u8> {
    match m {
        BackendMessage::AuthenticationOk => u32_bytes(0u32),
        BackendMessage::RowDescription(fs) => u16_bytes(fs@.len() as u16) + descriptions_bytes(fs@),
        BackendMessage::DataRow(cs) => u16_bytes(cs@.len() as u16) + cells_bytes(cs@),
        BackendMessage::CommandComplete { tag } => ctext(tag@),
        BackendMessage::EmptyQueryResponse => seq![],
        BackendMessage::ReadyForQuery => seq![73u8],
        BackendMessage::ParameterStatus(name, value) => ctext(name@) + ctext(value@),
        BackendMessage::ParseComplete => seq![],
        BackendMessage::ErrorResponse { severity, code, message, detail } => seq![83u8] + ctext(
            severity_name(severity),
        ) + seq![67u8] + ctext(code@) + seq![77u8] + ctext(message@) + match detail {
            Some(d) => seq![68u8] + ctext(d@),
            None => seq![],
        } + seq![0u8],
        BackendMessage::CopyOutResponse => seq![0u8] + i16_bytes(0i16),
        BackendMessage::CopyData(d) => d@,
    }
}

/// Whether a backend message fits the wire format: at most 65535 columns,
/// and a frame length that fits in 32 bits.
pub open spec fn encodable(m: BackendMessage) -> bool {
    &&& body_of(m).len() + 4 <= 0xFFFF_FFFF
    &&& match m {
        BackendMessage::RowDescription(fs) => fs@.len() <= 0xFFFF,
        BackendMessage::DataRow(cs) => cs@.len() <= 0xFFFF,
        _ => true,
    }
}

/// The whole frame of a backend message: its type byte, its length prefix,
/// which counts itself and the body, and its body.
pub open spec fn frame_of(m: BackendMessage) -> Seq<u8> {
    seq![tag_of(m)] + u32_bytes((body_of(m).len() + 4) as u32) + body_of(m)
}

} // verus!
