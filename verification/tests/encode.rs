//! Messages that are sent: heads, framing and what is refused.

use bytes::Bytes;
use http::header::{CONNECTION, CONTENT_LENGTH, HOST, UPGRADE};
use http::{HeaderMap, HeaderValue};
use vakya::body::size_hint::SizeHint;
use vakya::body::{Buffer, TrailerHint};
use vakya::error::{Error, ErrorKind, Source};
use vakya::message::{Method, StatusCode, Target, Version};
use vakya::proto::h1::decode::{BodyDecoder, DecodeOutcome};
use vakya::proto::h1::encode::{
    chunk_prefix, encode_request_head, encode_request_head_with_memory, encode_response_head,
    encode_response_head_with_memory, prepare_request_head, prepare_request_head_with_memory,
    prepare_response_head, prepare_response_head_with_memory, write_headers, BodyEncoder,
    BodyMetadata, BoundedWriter, DataFraming, EncodeError, EncodeLimits, Memory,
};
use vakya::proto::h1::head::{HeadLimits, HeadParser, ParseOutcome, RequestRole, ResponseRole};
use vakya::proto::h1::inline::InlineBuf;
use vakya::proto::h1::{BodyMode, Persistence, UpgradeKind};

const LIMITS: EncodeLimits = EncodeLimits { max_head_bytes: 4096, max_trailer_bytes: 4096 };

fn method(text: &str) -> Method {
    Method::from_bytes(text.as_bytes()).unwrap()
}

fn status(code: u16) -> StatusCode {
    StatusCode::from_u16(code).unwrap()
}

fn target(text: &str) -> Target {
    Target::from_bytes(text.as_bytes()).unwrap()
}

#[test]
fn request_and_response_heads_round_trip() {
    let mut request_headers = HeaderMap::new();
    request_headers.insert(HOST, HeaderValue::from_static("example.test"));
    let request = encode_request_head(
        method("POST"),
        target("/items"),
        Version::Http11,
        request_headers,
        BodyMetadata::exact(4),
        LIMITS,
    )
    .unwrap();
    assert_eq!(request.mode, BodyMode::Fixed(4));
    let mut parser = HeadParser::<RequestRole>::request(HeadLimits::new(4096, 16));
    let ParseOutcome::Complete { head, .. } = parser.parse(&request.bytes).unwrap() else {
        panic!("incomplete request")
    };
    assert_eq!(head.validate().unwrap().body, BodyMode::Fixed(4));

    let response = encode_response_head(
        status(200),
        Version::Http11,
        HeaderMap::new(),
        BodyMetadata::unknown(),
        &method("GET"),
        LIMITS,
    )
    .unwrap();
    assert_eq!(response.mode, BodyMode::Chunked);
    let mut parser = HeadParser::<ResponseRole>::response(HeadLimits::new(4096, 16));
    let ParseOutcome::Complete { head, .. } = parser.parse(&response.bytes).unwrap() else {
        panic!("incomplete response")
    };
    assert_eq!(head.validate(&method("GET")).unwrap().body, BodyMode::Chunked);
}

#[test]
fn exact_headers_must_match_body_length() {
    let mut headers = HeaderMap::new();
    headers.insert(HOST, HeaderValue::from_static("example.test"));
    headers.insert(CONTENT_LENGTH, HeaderValue::from_static("3"));
    assert_eq!(
        encode_request_head(
            method("POST"),
            target("/"),
            Version::Http11,
            headers,
            BodyMetadata::exact(4),
            LIMITS
        )
        .unwrap_err(),
        EncodeError::LengthMismatch
    );
}

#[test]
fn forbidden_responses_and_upgrades_are_validated() {
    for code in [status(204), status(205)] {
        assert_eq!(
            encode_response_head(
                code,
                Version::Http11,
                HeaderMap::new(),
                BodyMetadata::exact(1),
                &method("GET"),
                LIMITS
            )
            .unwrap_err(),
            EncodeError::BodyForbidden
        );
    }
    assert_eq!(
        encode_response_head(
            status(204),
            Version::Http11,
            HeaderMap::new(),
            BodyMetadata::exact(0),
            &method("GET"),
            LIMITS
        )
        .unwrap()
        .mode,
        BodyMode::Empty
    );
    let reset = encode_response_head(
        status(205),
        Version::Http11,
        HeaderMap::new(),
        BodyMetadata::exact(0),
        &method("GET"),
        LIMITS,
    )
    .unwrap();
    assert_eq!(reset.mode, BodyMode::Fixed(0));
    assert!(reset.bytes.windows(19).any(|bytes| bytes == b"content-length: 0\r\n"));
    let mut upgrade = HeaderMap::new();
    upgrade.insert(CONNECTION, HeaderValue::from_static("upgrade"));
    upgrade.insert(UPGRADE, HeaderValue::from_static("websocket"));
    assert_eq!(
        encode_response_head(
            status(101),
            Version::Http11,
            upgrade,
            BodyMetadata::exact(0),
            &method("GET"),
            LIMITS
        )
        .unwrap()
        .upgrade,
        Some(UpgradeKind::Protocol)
    );
}

#[test]
fn bounded_head_writer_rejects_oversized_output() {
    let mut headers = HeaderMap::new();
    headers.insert(HOST, HeaderValue::from_static("example.test"));
    assert_eq!(
        encode_request_head(
            method("GET"),
            target("/"),
            Version::Http11,
            headers,
            BodyMetadata::exact(0),
            EncodeLimits::new(8, 32)
        )
        .unwrap_err(),
        EncodeError::Limit
    );
}

#[test]
fn public_error_preserves_encoding_category_and_source() {
    let error: Error = EncodeError::Unsupported.into();
    assert_eq!(error.kind(), ErrorKind::Unsupported);
    assert!(matches!(error.source(), Some(Source::Encode(EncodeError::Unsupported))));
}

#[test]
fn body_encoder_frames_fixed_chunked_and_trailers() {
    let mut fixed = BodyEncoder::new(BodyMode::Fixed(4), BodyMetadata::exact(4), LIMITS).unwrap();
    assert_eq!(
        fixed.data(4).unwrap(),
        DataFraming {
            prefix: InlineBuf::empty(),
            suffix: Bytes::new()
        }
    );
    assert!(fixed.finish().unwrap().is_empty());

    let mut chunked = BodyEncoder::new(BodyMode::Chunked, BodyMetadata::unknown(), LIMITS).unwrap();
    let frame = chunked.data(10).unwrap();
    assert_eq!(frame.prefix.as_init(), b"a\r\n");
    assert_eq!(frame.suffix, b"\r\n"[..]);
    let mut trailers = HeaderMap::new();
    trailers.insert("x-checksum", HeaderValue::from_static("good"));
    let ending = chunked.trailers(&trailers).unwrap();
    assert_eq!(ending, "0\r\nx-checksum: good\r\n\r\n");

    let mut decoder = BodyDecoder::new(BodyMode::Chunked);
    let wire = [b"a\r\n".as_slice(), b"0123456789\r\n", ending.as_ref()].concat();
    assert!(matches!(
        decoder.decode(&wire, false).unwrap(),
        DecodeOutcome::Data { .. }
    ));
}

#[test]
fn chunk_prefix_covers_platform_length_width_without_allocation() {
    assert_eq!(chunk_prefix(0).as_init(), b"\r\n");
    assert_eq!(chunk_prefix(1).as_init(), b"1\r\n");
    assert_eq!(chunk_prefix(0x1234_abcd).as_init(), b"1234abcd\r\n");
    assert_eq!(
        chunk_prefix(usize::MAX).as_init(),
        format!("{:x}\r\n", usize::MAX).as_bytes()
    );
}

#[test]
fn body_encoder_rejects_length_and_frame_order_violations() {
    let mut too_many = BodyEncoder::new(BodyMode::Fixed(1), BodyMetadata::exact(1), LIMITS).unwrap();
    assert_eq!(too_many.data(2).unwrap_err(), EncodeError::LengthMismatch);
    let mut too_few = BodyEncoder::new(BodyMode::Fixed(2), BodyMetadata::exact(2), LIMITS).unwrap();
    too_few.data(1).unwrap();
    assert_eq!(too_few.finish().unwrap_err(), EncodeError::LengthMismatch);
    let mut none = BodyEncoder::new(BodyMode::Empty, BodyMetadata::exact(0), LIMITS).unwrap();
    assert_eq!(none.data(0).unwrap_err(), EncodeError::BodyForbidden);
    let mut chunked = BodyEncoder::new(BodyMode::Chunked, BodyMetadata::unknown(), LIMITS).unwrap();
    chunked.finish().unwrap();
    assert_eq!(chunked.data(1).unwrap_err(), EncodeError::FrameAfterEnd);
}

#[test]
fn exact_length_trailers_select_chunked_and_preserve_payload_bounds() {
    let metadata = BodyMetadata {
        size: SizeHint::with_exact(4),
        trailers: TrailerHint::MayHave,
    };
    let mut headers = HeaderMap::new();
    headers.insert(HOST, HeaderValue::from_static("example.test"));
    let request = encode_request_head(
        method("POST"),
        target("/"),
        Version::Http11,
        headers.clone(),
        metadata,
        LIMITS,
    )
    .unwrap();
    let response = encode_response_head(
        status(200),
        Version::Http11,
        HeaderMap::new(),
        metadata,
        &method("GET"),
        LIMITS,
    )
    .unwrap();
    for head in [request, response] {
        assert_eq!(head.mode, BodyMode::Chunked);
        assert!(head.bytes.windows(28).any(|b| b == b"transfer-encoding: chunked\r\n"));
        let mut encoder = BodyEncoder::new(head.mode, metadata, LIMITS).unwrap();
        encoder.data(4).unwrap();
        let mut trailers = HeaderMap::new();
        trailers.insert("x-checksum", HeaderValue::from_static("good"));
        assert_eq!(encoder.trailers(&trailers).unwrap(), "0\r\nx-checksum: good\r\n\r\n");
        assert_eq!(encoder.data(0).unwrap_err(), EncodeError::FrameAfterEnd);
    }
    headers.insert(CONTENT_LENGTH, HeaderValue::from_static("4"));
    assert_eq!(
        encode_request_head(
            method("POST"),
            target("/"),
            Version::Http11,
            headers,
            metadata,
            LIMITS
        )
        .unwrap_err(),
        EncodeError::InvalidFraming
    );
    let mut short = BodyEncoder::new(BodyMode::Chunked, metadata, LIMITS).unwrap();
    short.data(3).unwrap();
    assert_eq!(
        short.trailers(&HeaderMap::new()).unwrap_err(),
        EncodeError::LengthMismatch
    );
    assert_eq!(short.data(1).unwrap_err(), EncodeError::LengthMismatch);
    let mut long = BodyEncoder::new(BodyMode::Chunked, metadata, LIMITS).unwrap();
    assert_eq!(long.data(5).unwrap_err(), EncodeError::LengthMismatch);
    let mut unfinished = BodyEncoder::new(BodyMode::Chunked, metadata, LIMITS).unwrap();
    assert_eq!(unfinished.finish().unwrap_err(), EncodeError::LengthMismatch);
    let mut no_trailers = BodyEncoder::new(BodyMode::Chunked, metadata, LIMITS).unwrap();
    no_trailers.data(4).unwrap();
    assert_eq!(no_trailers.finish().unwrap(), "0\r\n\r\n");
}

#[test]
fn bounded_unknown_payloads_and_trailer_promises_are_enforced() {
    let metadata = BodyMetadata {
        size: SizeHint::with_bounds(2, Some(4)).unwrap(),
        trailers: TrailerHint::Absent,
    };
    for mode in [BodyMode::Chunked, BodyMode::UntilEof] {
        let mut short = BodyEncoder::new(mode, metadata, LIMITS).unwrap();
        short.data(1).unwrap();
        assert_eq!(short.finish().unwrap_err(), EncodeError::LengthMismatch);
        let mut long = BodyEncoder::new(mode, metadata, LIMITS).unwrap();
        long.data(3).unwrap();
        assert_eq!(long.data(2).unwrap_err(), EncodeError::LengthMismatch);
        let mut valid = BodyEncoder::new(mode, metadata, LIMITS).unwrap();
        valid.data(3).unwrap();
        valid.finish().unwrap();
    }
    let mut encoder = BodyEncoder::new(BodyMode::Chunked, metadata, LIMITS).unwrap();
    encoder.data(2).unwrap();
    assert_eq!(
        encoder.trailers(&HeaderMap::new()).unwrap_err(),
        EncodeError::TrailersForbidden
    );
}

#[test]
fn metadata_only_responses_suppress_payload_but_not_representation_headers() {
    for (method, code) in [(method("HEAD"), status(200)), (method("GET"), status(304))] {
        let metadata = BodyMetadata::exact(123);
        let head =
            encode_response_head(code, Version::Http11, HeaderMap::new(), metadata, &method, LIMITS).unwrap();
        assert_eq!(head.mode, BodyMode::Empty);
        assert!(head.bytes.windows(21).any(|b| b == b"content-length: 123\r\n"));
        let mut encoder = BodyEncoder::new(head.mode, metadata, LIMITS).unwrap();
        assert!(encoder.finish().unwrap().is_empty());
    }
    let metadata = BodyMetadata::unknown();
    assert_eq!(
        encode_response_head(
            status(200),
            Version::Http10,
            HeaderMap::new(),
            metadata,
            &method("GET"),
            LIMITS
        )
        .unwrap_err(),
        EncodeError::TrailersForbidden
    );
    let metadata = BodyMetadata {
        trailers: TrailerHint::Absent,
        ..metadata
    };
    let head = encode_response_head(
        status(200),
        Version::Http10,
        HeaderMap::new(),
        metadata,
        &method("GET"),
        LIMITS,
    )
    .unwrap();
    assert_eq!(head.mode, BodyMode::UntilEof);
    assert_eq!(head.persistence, Persistence::Close);
}

#[test]
fn forbidden_trailers_are_rejected() {
    let mut encoder = BodyEncoder::new(BodyMode::Chunked, BodyMetadata::unknown(), LIMITS).unwrap();
    let mut trailers = HeaderMap::new();
    trailers.insert(CONTENT_LENGTH, HeaderValue::from_static("1"));
    assert_eq!(encoder.trailers(&trailers).unwrap_err(), EncodeError::TrailersForbidden);
}

#[test]
fn heads_are_written_where_they_fit_and_there_is_memory() {
    let text = "GET / HTTP/1.1\r\nhost: a\r\ncontent-length: 0\r\n\r\n";
    let request = |limit: usize, memory: Memory| {
        let mut headers = HeaderMap::new();
        headers.insert(HOST, HeaderValue::from_static("a"));
        let limits = EncodeLimits::new(limit, 4096);
        let metadata = BodyMetadata::exact(0);
        let head = prepare_request_head_with_memory(
            method("GET"),
            target("/"),
            Version::Http11,
            headers.clone(),
            metadata,
            limits,
            memory,
        );
        let encoded = encode_request_head_with_memory(
            method("GET"),
            target("/"),
            Version::Http11,
            headers,
            metadata,
            limits,
            memory,
        );
        assert_eq!(head.is_ok(), encoded.is_ok());
        head.map(|(head, _)| head.bytes)
    };
    for memory in [Memory::Asked, Memory::Granted] {
        assert_eq!(request(text.len(), memory).unwrap(), text);
        assert_eq!(request(text.len() - 1, memory).unwrap_err(), EncodeError::Limit);
    }
    assert_eq!(request(4096, Memory::Refused).unwrap_err(), EncodeError::Limit);
    let text = "HTTP/1.1 200 OK\r\ncontent-length: 123\r\n\r\n";
    let response = |limit: usize, memory: Memory| {
        let limits = EncodeLimits::new(limit, 4096);
        let metadata = BodyMetadata::exact(123);
        let head = prepare_response_head_with_memory(
            status(200),
            Version::Http11,
            HeaderMap::new(),
            metadata,
            &method("HEAD"),
            limits,
            memory,
        );
        let encoded = encode_response_head_with_memory(
            status(200),
            Version::Http11,
            HeaderMap::new(),
            metadata,
            &method("HEAD"),
            limits,
            memory,
        );
        assert_eq!(head.is_ok(), encoded.is_ok());
        head.map(|(head, _)| head.bytes)
    };
    for memory in [Memory::Asked, Memory::Granted] {
        assert_eq!(response(text.len(), memory).unwrap(), text);
        assert_eq!(response(text.len() - 1, memory).unwrap_err(), EncodeError::Limit);
    }
    assert_eq!(response(4096, Memory::Refused).unwrap_err(), EncodeError::Limit);
}

#[test]
fn versions_that_cannot_be_written_are_refused() {
    let mut headers = HeaderMap::new();
    headers.insert(HOST, HeaderValue::from_static("a"));
    let request = |limit: usize| {
        prepare_request_head(
            method("GET"),
            target("/"),
            Version::Http2,
            headers.clone(),
            BodyMetadata::exact(0),
            EncodeLimits::new(limit, 1),
        )
        .unwrap_err()
    };
    assert_eq!(request(4096), EncodeError::Unsupported);
    assert_eq!(request(6), EncodeError::Unsupported);
    assert_eq!(request(5), EncodeError::Limit);
    let response = prepare_response_head(
        status(200),
        Version::Http2,
        HeaderMap::new(),
        BodyMetadata::exact(0),
        &method("GET"),
        EncodeLimits::new(1, 1),
    );
    assert_eq!(response.unwrap_err(), EncodeError::Unsupported);
}

#[test]
fn trailers_are_written_where_they_fit_and_there_is_memory() {
    let trailers = |limit: usize, memory: Memory| {
        let limits = EncodeLimits::new(4096, limit);
        let metadata = BodyMetadata::unknown();
        let mut encoder = BodyEncoder::new(BodyMode::Chunked, metadata, limits).unwrap();
        let mut trailers = HeaderMap::new();
        trailers.insert("x-end", HeaderValue::from_static("yes"));
        encoder.trailers_with_memory(&trailers, memory)
    };
    assert_eq!(trailers(17, Memory::Granted).unwrap(), "0\r\nx-end: yes\r\n\r\n");
    assert_eq!(trailers(16, Memory::Granted).unwrap_err(), EncodeError::Limit);
    assert_eq!(trailers(4096, Memory::Refused).unwrap_err(), EncodeError::Limit);
}

#[test]
fn no_bytes_need_no_memory() {
    let mut writer = BoundedWriter::with_memory(0, Memory::Refused);
    writer.push(b"").unwrap();
    write_headers(&mut writer, &HeaderMap::new()).unwrap();
    assert_eq!(writer.push(b"x").unwrap_err(), EncodeError::Limit);
    assert!(writer.finish().is_empty());
    let mut writer = BoundedWriter::new(4);
    writer.push(b"abcd").unwrap();
    writer.push(b"").unwrap();
    assert_eq!(writer.push(b"e").unwrap_err(), EncodeError::Limit);
    assert_eq!(writer.finish(), "abcd");
}

#[test]
fn payload_and_end_keep_to_the_promised_bounds_exactly() {
    let size = SizeHint::with_bounds(2, Some(4)).unwrap();
    let metadata = BodyMetadata { size, trailers: TrailerHint::Absent };
    for length in 0..=5usize {
        let mut encoder = BodyEncoder::new(BodyMode::Chunked, metadata, LIMITS).unwrap();
        assert_eq!(encoder.data(length).is_ok(), length <= 4);
        if length <= 4 {
            assert_eq!(encoder.finish().is_ok(), length >= 2);
        }
    }
}
