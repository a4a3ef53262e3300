use bytes::BytesMut;
use pgwire::codec::{parse_body, parse_frame_len, read_cstr, Codec, FrameKind};
use pgwire::decimal::decimal_text;
use pgwire::encode::encode_frame;
use pgwire::error::CodecError;
use pgwire::message::{
    BackendMessage, FieldDescription, FieldValue, FrontendMessage, Interval, Severity,
};

const STARTUP: [u8; 8] = [0x00, 0x00, 0x00, 0x08, 0x00, 0x03, 0x00, 0x00];

fn started() -> Codec {
    let mut c = Codec::new();
    let (n, r) = c.decode_bytes(&STARTUP);
    assert_eq!(n, 8);
    assert_eq!(r, Ok(Some(FrontendMessage::Startup { version: 0x0003_0000 })));
    c
}

fn query_frame() -> Vec<u8> {
    let mut v = vec![0x51, 0x00, 0x00, 0x00, 0x0D];
    v.extend_from_slice(b"SELECT 1");
    v.push(0);
    v
}

#[test]
fn startup_on_fresh_codec() {
    let mut c = Codec::new();
    let (n, r) = c.decode_bytes(&STARTUP);
    assert_eq!(n, 8);
    assert_eq!(r, Ok(Some(FrontendMessage::Startup { version: 0x0003_0000 })));
}

#[test]
fn terminate_after_startup() {
    let mut c = started();
    let input = [0x58, 0x00, 0x00, 0x00, 0x04];
    let (n, r) = c.decode_bytes(&input);
    assert_eq!(n, input.len());
    assert_eq!(r, Ok(Some(FrontendMessage::Terminate)));
}

#[test]
fn query_after_startup() {
    let mut c = started();
    let input = query_frame();
    let (n, r) = c.decode_bytes(&input);
    assert_eq!(n, input.len());
    assert_eq!(r, Ok(Some(FrontendMessage::Query { sql: b"SELECT 1".to_vec() })));
}

#[test]
fn query_declaring_one_byte_more_waits() {
    let mut c = started();
    let mut input = vec![0x51, 0x00, 0x00, 0x00, 0x0E];
    input.extend_from_slice(b"SELECT 1");
    input.push(0);
    let (n, r) = c.decode_bytes(&input);
    assert_eq!(n, 5);
    assert_eq!(r, Ok(None));
}

#[test]
fn encode_authentication_ok() {
    let f = encode_frame(&BackendMessage::AuthenticationOk).unwrap();
    assert_eq!(f, vec![0x52, 0x00, 0x00, 0x00, 0x08, 0x00, 0x00, 0x00, 0x00]);
}

#[test]
fn encode_data_row() {
    let m = BackendMessage::DataRow(vec![Some(FieldValue::Text("hi".to_string())), None]);
    let f = encode_frame(&m).unwrap();
    assert_eq!(
        f,
        vec![
            0x44, 0x00, 0x00, 0x00, 0x10, 0x00, 0x02, 0x00, 0x00, 0x00, 0x02, 0x68, 0x69, 0xFF,
            0xFF, 0xFF, 0xFF
        ]
    );
}

#[test]
fn frame_too_big_is_refused() {
    let mut c = started();
    let input = [0x51, 0x00, 0x00, 0x20, 0x01, 0x00];
    let (n, r) = c.decode_bytes(&input);
    assert_eq!(n, 0);
    assert_eq!(r, Err(CodecError::FrameTooBig));
}

#[test]
fn frame_too_big_on_startup() {
    let mut c = Codec::new();
    let (n, r) = c.decode_bytes(&[0x00, 0x00, 0x20, 0x01]);
    assert_eq!(n, 0);
    assert_eq!(r, Err(CodecError::FrameTooBig));
}

#[test]
fn largest_frame_is_accepted() {
    assert_eq!(parse_frame_len(&[0x00, 0x00, 0x20, 0x00]), Ok(8188));
    assert_eq!(parse_frame_len(&[0x00, 0x00, 0x00, 0x04]), Ok(0));
}

#[test]
fn short_length_is_refused() {
    let mut c = started();
    let (n, r) = c.decode_bytes(&[0x58, 0x00, 0x00, 0x00, 0x03]);
    assert_eq!(n, 0);
    assert_eq!(r, Err(CodecError::InvalidFrameLength));
    assert_eq!(parse_frame_len(&[0, 0, 0, 0]), Err(CodecError::InvalidFrameLength));
}

#[test]
fn unknown_type_is_refused() {
    let mut c = started();
    let (n, r) = c.decode_bytes(&[0x73, 0x00, 0x00, 0x00, 0x04]);
    assert_eq!(n, 5);
    assert_eq!(r, Err(CodecError::InvalidMessageType(0x73)));
}

#[test]
fn startup_bytes_read_differently_after_startup() {
    let mut c = started();
    // Read as type byte 0x00 with a declared length of 0x800: a header,
    // and then a body that has not arrived.
    let (n, r) = c.decode_bytes(&STARTUP);
    assert_eq!(n, 5);
    assert_eq!(r, Ok(None));
}

#[test]
fn partial_header_waits() {
    let mut c = started();
    let (n, r) = c.decode_bytes(&[0x51, 0x00, 0x00]);
    assert_eq!(n, 0);
    assert_eq!(r, Ok(None));
}

#[test]
fn partial_body_waits_then_completes() {
    let mut c = started();
    let input = query_frame();
    let (n, r) = c.decode_bytes(&input[..9]);
    assert_eq!(n, 5);
    assert_eq!(r, Ok(None));
    let (n, r) = c.decode_bytes(&input[5..]);
    assert_eq!(n, input.len() - 5);
    assert_eq!(r, Ok(Some(FrontendMessage::Query { sql: b"SELECT 1".to_vec() })));
}

fn drain_all(c: &mut Codec, pending: &mut Vec<u8>, out: &mut Vec<FrontendMessage>) {
    loop {
        let (n, r) = c.decode_bytes(pending);
        pending.drain(..n);
        match r {
            Ok(Some(m)) => out.push(m),
            Ok(None) => return,
            Err(e) => panic!("unexpected error {:?}", e),
        }
    }
}

#[test]
fn chunked_decode_matches_whole() {
    let mut stream = STARTUP.to_vec();
    stream.extend_from_slice(&query_frame());
    stream.extend_from_slice(&[0x58, 0x00, 0x00, 0x00, 0x04]);

    let mut whole = Vec::new();
    let mut c = Codec::new();
    let mut pending = stream.clone();
    drain_all(&mut c, &mut pending, &mut whole);
    assert_eq!(whole.len(), 3);
    assert!(pending.is_empty());

    for size in 1..stream.len() {
        let mut got = Vec::new();
        let mut c = Codec::new();
        let mut pending = Vec::new();
        for chunk in stream.chunks(size) {
            pending.extend_from_slice(chunk);
            drain_all(&mut c, &mut pending, &mut got);
        }
        assert_eq!(got, whole);
        assert!(pending.is_empty());
    }
}

#[test]
fn parse_with_oids() {
    let mut body = b"stmt\0SELECT $1\0".to_vec();
    body.extend_from_slice(&[0x00, 0x02, 0x00, 0x00, 0x00, 0x17, 0x00, 0x00, 0x00, 0x19]);
    let r = parse_body(FrameKind::Typed(b'P'), &body);
    assert_eq!(
        r,
        Ok(FrontendMessage::Parse {
            name: "stmt".to_string(),
            sql: "SELECT $1".to_string(),
            param_type_oids: vec![23, 25],
        })
    );
}

#[test]
fn parse_with_fewer_oids_than_declared() {
    let mut body = b"\0SELECT $1, $2\0".to_vec();
    body.extend_from_slice(&[0x00, 0x02, 0x00, 0x00, 0x00, 0x17, 0x00, 0x00]);
    let r = parse_body(FrameKind::Typed(b'P'), &body);
    assert_eq!(
        r,
        Ok(FrontendMessage::Parse {
            name: String::new(),
            sql: "SELECT $1, $2".to_string(),
            param_type_oids: vec![23],
        })
    );
}

#[test]
fn parse_without_count_is_refused() {
    let body = b"s\0q\0".to_vec();
    assert_eq!(parse_body(FrameKind::Typed(b'P'), &body), Err(CodecError::InvalidInput));
}

#[test]
fn parse_with_invalid_utf8_is_refused() {
    let body = vec![0xFF, 0x00, b'q', 0x00, 0x00, 0x00];
    assert_eq!(parse_body(FrameKind::Typed(b'P'), &body), Err(CodecError::InvalidInput));
}

#[test]
fn short_startup_body_is_refused() {
    assert_eq!(parse_body(FrameKind::Startup, &[0, 3]), Err(CodecError::InvalidInput));
    assert_eq!(parse_body(FrameKind::Typed(b'Q'), &[]), Err(CodecError::InvalidInput));
}

#[test]
fn cstr_without_null_is_refused() {
    assert_eq!(read_cstr(b"abc", 10), Err(CodecError::InvalidInput));
    assert_eq!(read_cstr(b"abc\0", 2), Err(CodecError::InvalidInput));
    assert_eq!(read_cstr(b"abc\0rest", 3), Ok(("abc".to_string(), 4)));
    assert_eq!(read_cstr(b"\0", 0), Ok((String::new(), 1)));
}

#[test]
fn decimal_text_values() {
    assert_eq!(decimal_text(0), b"0".to_vec());
    assert_eq!(decimal_text(-5), b"-5".to_vec());
    assert_eq!(decimal_text(1234567890), b"1234567890".to_vec());
    assert_eq!(decimal_text(i64::MIN), i64::MIN.to_string().into_bytes());
    assert_eq!(decimal_text(i64::MAX), i64::MAX.to_string().into_bytes());
}

fn body(m: &BackendMessage) -> Vec<u8> {
    let f = encode_frame(m).unwrap();
    let len = u32::from_be_bytes([f[1], f[2], f[3], f[4]]) as usize;
    assert_eq!(len + 1, f.len());
    f[5..].to_vec()
}

#[test]
fn data_row_values() {
    let m = BackendMessage::DataRow(vec![
        Some(FieldValue::Bool(true)),
        Some(FieldValue::Bool(false)),
        Some(FieldValue::Int4(-42)),
        Some(FieldValue::Int8(7)),
        Some(FieldValue::Interval(Interval::Months(3))),
        Some(FieldValue::Interval(Interval::Duration {
            is_positive: false,
            duration: "1.5s".to_string(),
        })),
        Some(FieldValue::Bytea(vec![1, 2])),
        Some(FieldValue::Float8("2.5".to_string())),
    ]);
    let mut want = vec![0x00, 0x08];
    for text in [
        &b"t"[..],
        b"f",
        b"-42",
        b"7",
        b"3 months",
        b"-1.5s",
        &[1, 2],
        b"2.5",
    ] {
        want.extend_from_slice(&(text.len() as u32).to_be_bytes());
        want.extend_from_slice(text);
    }
    assert_eq!(body(&m), want);
    assert_eq!(encode_frame(&m).unwrap()[0], b'D');
}

#[test]
fn row_description_layout() {
    let m = BackendMessage::RowDescription(vec![FieldDescription {
        name: "a".to_string(),
        table_id: 1,
        column_id: 2,
        type_oid: 23,
        type_len: 4,
        type_mod: -1,
        format: 0,
    }]);
    assert_eq!(
        body(&m),
        vec![
            0x00, 0x01, b'a', 0x00, 0, 0, 0, 1, 0, 2, 0, 0, 0, 23, 0, 4, 0xFF, 0xFF, 0xFF, 0xFF,
            0, 0
        ]
    );
    assert_eq!(encode_frame(&m).unwrap()[0], b'T');
}

#[test]
fn error_response_layout() {
    let m = BackendMessage::ErrorResponse {
        severity: Severity::Error,
        code: "42601".to_string(),
        message: "bad".to_string(),
        detail: Some("d".to_string()),
    };
    assert_eq!(body(&m), b"SERROR\0C42601\0Mbad\0Dd\0\0".to_vec());
    let m = BackendMessage::ErrorResponse {
        severity: Severity::Fatal,
        code: "XX000".to_string(),
        message: "m".to_string(),
        detail: None,
    };
    assert_eq!(body(&m), b"SFATAL\0CXX000\0Mm\0\0".to_vec());
    assert_eq!(encode_frame(&m).unwrap()[0], b'E');
}

#[test]
fn small_messages_layout() {
    let cases: Vec<(BackendMessage, u8, Vec<u8>)> = vec![
        (BackendMessage::CommandComplete { tag: "SELECT 1".to_string() }, b'C', b"SELECT 1\0".to_vec()),
        (BackendMessage::EmptyQueryResponse, b'I', vec![]),
        (BackendMessage::ReadyForQuery, b'Z', vec![b'I']),
        (BackendMessage::ParameterStatus("a".to_string(), "b".to_string()), b'S', b"a\0b\0".to_vec()),
        (BackendMessage::ParseComplete, b'1', vec![]),
        (BackendMessage::CopyOutResponse, b'H', vec![0, 0, 0]),
        (BackendMessage::CopyData(vec![9, 8, 7]), b'd', vec![9, 8, 7]),
    ];
    for (m, t, b) in cases {
        let f = encode_frame(&m).unwrap();
        assert_eq!(f[0], t);
        assert_eq!(body(&m), b);
    }
}

#[test]
fn severity_names() {
    assert_eq!(Severity::Warning.string(), "WARNING");
    assert_eq!(Severity::Log.string(), "LOG");
}

#[test]
fn decode_through_transport_buffer() {
    let mut c = Codec::new();
    let mut src = BytesMut::from(&STARTUP[..]);
    src.extend_from_slice(&[0x58, 0x00]);
    assert_eq!(c.decode(&mut src), Ok(Some(FrontendMessage::Startup { version: 0x0003_0000 })));
    assert_eq!(&src[..], &[0x58, 0x00]);
    assert_eq!(c.decode(&mut src), Ok(None));
    assert_eq!(src.len(), 2);
    src.extend_from_slice(&[0x00, 0x00, 0x04]);
    assert_eq!(c.decode(&mut src), Ok(Some(FrontendMessage::Terminate)));
    assert!(src.is_empty());
}

#[test]
fn encode_through_transport_buffer() {
    let mut c = Codec::default();
    let mut dst = BytesMut::from(&[0xAA][..]);
    assert_eq!(c.encode(BackendMessage::ReadyForQuery, &mut dst), Ok(()));
    assert_eq!(&dst[..], &[0xAA, b'Z', 0, 0, 0, 5, b'I']);
}

#[test]
fn too_many_columns_is_refused() {
    let m = BackendMessage::DataRow(vec![None; 65536]);
    assert_eq!(encode_frame(&m).err(), Some(CodecError::MessageTooLarge));
    let m = BackendMessage::DataRow(vec![None; 65535]);
    let f = encode_frame(&m).unwrap();
    assert_eq!(f.len(), 1 + 4 + 2 + 4 * 65535);
    assert_eq!(&f[5..7], &[0xFF, 0xFF]);
}
