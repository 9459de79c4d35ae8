//! Received bodies: payload, trailers and what is refused.

use http::HeaderMap;
use vakya::proto::h1::decode::{
    BodyDecoder, ChunkState, DecodeError, DecodeLimit, DecodeLimits, DecodeOutcome, DecoderState,
};
use vakya::proto::h1::BodyMode;

#[test]
fn non_chunked_modes_preserve_boundaries_and_eof() {
    let mut empty = BodyDecoder::new(BodyMode::Empty);
    assert_eq!(
        empty.decode(b"next", false).unwrap(),
        DecodeOutcome::End { consumed: 0 }
    );

    let mut fixed = BodyDecoder::new(BodyMode::Fixed(4));
    assert_eq!(
        fixed.decode(b"bodyNEXT", false).unwrap(),
        DecodeOutcome::Data {
            payload: 0..4,
            consumed: 4
        }
    );
    assert_eq!(
        fixed.decode(b"NEXT", false).unwrap(),
        DecodeOutcome::End { consumed: 0 }
    );

    let mut incomplete = BodyDecoder::new(BodyMode::Fixed(1));
    assert_eq!(
        incomplete.decode(&[], false).unwrap(),
        DecodeOutcome::NeedMore { consumed: 0 }
    );
    assert_eq!(incomplete.decode(&[], true).unwrap_err(), DecodeError::UnexpectedEof);
    assert_eq!(incomplete.decode(b"x", false).unwrap_err(), DecodeError::UnexpectedEof);

    let mut eof = BodyDecoder::new(BodyMode::UntilEof);
    assert_eq!(
        eof.decode(b"last", true).unwrap(),
        DecodeOutcome::Data {
            payload: 0..4,
            consumed: 4
        }
    );
    assert_eq!(eof.decode(&[], false).unwrap(), DecodeOutcome::End { consumed: 0 });
}

#[test]
fn fixed_body_decodes_at_every_fragment_size() {
    let body = b"fragmented fixed body";
    for width in 1..=body.len() {
        let mut decoder = BodyDecoder::new(BodyMode::Fixed(body.len() as u64));
        let mut data = Vec::new();
        for input in body.chunks(width) {
            let DecodeOutcome::Data { payload, .. } = decoder.decode(input, false).unwrap() else {
                panic!("expected data")
            };
            data.extend_from_slice(&input[payload]);
        }
        assert_eq!(decoder.decode(&[], false).unwrap(), DecodeOutcome::End { consumed: 0 });
        assert_eq!(data, body);
    }
}

#[test]
fn chunked_data_trailers_and_excess_survive_every_fragment_size() {
    let wire = b"4;name=token\r\nWiki\r\n5\r\npedia\r\n0;done=\"yes\"\r\nX-Checksum: good\r\n\r\nNEXT";
    for width in 1..=wire.len() {
        let decoded = fragmented(wire, width).unwrap();
        assert_eq!(decoded.data, b"Wikipedia");
        assert_eq!(decoded.trailers["x-checksum"], "good");
        assert_eq!(decoded.remaining, b"NEXT");
    }
}

#[test]
fn chunk_sizes_accept_case_and_empty_trailers() {
    for size in *b"aA" {
        let mut wire = vec![size];
        wire.extend_from_slice(b"\r\n0123456789\r\n0\r\n\r\nafter");
        let decoded = fragmented(&wire, 3).unwrap();
        assert_eq!(decoded.data, b"0123456789");
        assert!(decoded.trailers.is_empty());
        assert_eq!(decoded.remaining, b"after");
    }
}

#[test]
fn fragmented_chunk_metadata_advances_incremental_scans() {
    let mut decoder = BodyDecoder::new(BodyMode::Chunked);
    let mut line = b"1;name=".to_vec();
    line.extend(std::iter::repeat_n(b'a', 256));
    line.push(b'\r');

    let mut pending = Vec::new();
    for byte in line {
        pending.push(byte);
        assert_eq!(
            decoder.decode(&pending, false).unwrap(),
            DecodeOutcome::NeedMore { consumed: 0 }
        );
        assert!(matches!(
            decoder.state(),
            DecoderState::Chunked(ChunkState::Size { scanned })
                if scanned == pending.len()
        ));
    }
    pending.push(b'\n');
    assert_eq!(
        decoder.decode(&pending, false).unwrap(),
        DecodeOutcome::NeedMore {
            consumed: pending.len()
        }
    );

    let mut decoder = BodyDecoder::new(BodyMode::Chunked);
    assert_eq!(
        decoder.decode(b"0\r\n", false).unwrap(),
        DecodeOutcome::NeedMore { consumed: 3 }
    );
    let mut trailer = b"X-Long: ".to_vec();
    trailer.extend(std::iter::repeat_n(b'a', 256));
    trailer.extend_from_slice(b"\r\n\r");
    pending.clear();
    for byte in trailer {
        pending.push(byte);
        assert_eq!(
            decoder.decode(&pending, false).unwrap(),
            DecodeOutcome::NeedMore { consumed: 0 }
        );
        assert!(matches!(
            decoder.state(),
            DecoderState::Chunked(ChunkState::Trailers { scanned })
                if scanned == pending.len()
        ));
        assert!(!decoder.has_read_trailers());
    }
    pending.push(b'\n');
    assert!(matches!(
        decoder.decode(&pending, false).unwrap(),
        DecodeOutcome::Trailers { consumed, .. } if consumed == pending.len()
    ));
    assert!(decoder.has_read_trailers());
}

#[test]
fn malformed_chunks_fail_terminally() {
    for wire in [
        b"10000000000000000\r\n".as_slice(),
        b"x\r\n".as_slice(),
        b"1;=bad\r\n".as_slice(),
        b"1;name=\r\n".as_slice(),
    ] {
        let mut decoder = BodyDecoder::new(BodyMode::Chunked);
        assert!(matches!(
            decoder.decode(wire, false),
            Err(DecodeError::InvalidChunkSize | DecodeError::InvalidChunkExtension)
        ));
    }
    let mut terminator = BodyDecoder::new(BodyMode::Chunked);
    assert!(matches!(
        terminator.decode(b"1\r\naX", false).unwrap(),
        DecodeOutcome::Data { .. }
    ));
    assert_eq!(
        terminator.decode(b"X", false).unwrap_err(),
        DecodeError::InvalidChunkTerminator
    );
    assert_eq!(
        terminator.decode(b"ignored", false).unwrap_err(),
        DecodeError::InvalidChunkTerminator
    );
}

#[test]
fn premature_eof_is_distinct_from_waiting() {
    for wire in [b"1\r\n".as_slice(), b"1\r\na\r".as_slice(), b"0\r\nX".as_slice()] {
        let mut decoder = BodyDecoder::new(BodyMode::Chunked);
        let mut input = wire;
        loop {
            match decoder.decode(input, true) {
                Ok(DecodeOutcome::Data { consumed, .. }) => input = &input[consumed..],
                Err(error) => {
                    assert_eq!(error, DecodeError::UnexpectedEof);
                    break;
                }
                other => panic!("unexpected EOF outcome: {other:?}"),
            }
        }
    }
}

#[test]
fn decoder_enforces_chunk_and_trailer_limits() {
    let limits = DecodeLimits::new(4, 8, 1);
    let mut line = BodyDecoder::with_limits(BodyMode::Chunked, limits);
    assert_eq!(
        line.decode(b"1;x\r\n", false).unwrap_err(),
        DecodeError::Limit(DecodeLimit::ChunkLineBytes)
    );
    let mut bytes = BodyDecoder::with_limits(BodyMode::Chunked, limits);
    assert_eq!(
        bytes.decode(b"0\r\nLong: value\r\n\r\n", false).unwrap_err(),
        DecodeError::Limit(DecodeLimit::TrailerBytes)
    );
    let count_limits = DecodeLimits::new(4, 64, 1);
    let mut count = BodyDecoder::with_limits(BodyMode::Chunked, count_limits);
    assert_eq!(
        count.decode(b"0\r\nA: 1\r\nB: 2\r\n\r\n", false).unwrap_err(),
        DecodeError::Limit(DecodeLimit::Trailers)
    );

    let exact_limits = DecodeLimits::new(3, 8, 1);
    let mut exact = BodyDecoder::with_limits(BodyMode::Chunked, exact_limits);
    assert!(matches!(
        exact.decode(b"1\r\nx\r\n0\r\nA: 1\r\n\r\n", false).unwrap(),
        DecodeOutcome::Data { .. }
    ));
    assert!(matches!(
        exact.decode(b"\r\n0\r\nA: 1\r\n\r\n", false).unwrap(),
        DecodeOutcome::Trailers { .. }
    ));
}

#[test]
fn forbidden_and_malformed_trailers_are_rejected() {
    let mut forbidden = BodyDecoder::new(BodyMode::Chunked);
    assert_eq!(
        forbidden.decode(b"0\r\nContent-Length: 1\r\n\r\n", false).unwrap_err(),
        DecodeError::ForbiddenTrailer
    );
    let mut malformed = BodyDecoder::new(BodyMode::Chunked);
    assert_eq!(
        malformed.decode(b"0\r\nBad trailer\r\n\r\n", false).unwrap_err(),
        DecodeError::InvalidTrailer
    );
}

struct Decoded {
    data: Vec<u8>,
    trailers: HeaderMap,
    remaining: Vec<u8>,
}

fn fragmented(wire: &[u8], width: usize) -> Result<Decoded, DecodeError> {
    let mut decoder = BodyDecoder::new(BodyMode::Chunked);
    let (mut pending, mut source, mut data) = (Vec::new(), 0, Vec::new());
    let trailers = loop {
        if source < wire.len() {
            let end = (source + width).min(wire.len());
            pending.extend_from_slice(&wire[source..end]);
            source = end;
        }
        match decoder.decode(&pending, false)? {
            DecodeOutcome::NeedMore { consumed } => {
                pending.drain(..consumed);
                assert!(source < wire.len());
            }
            DecodeOutcome::Data { payload, consumed } => {
                data.extend_from_slice(&pending[payload]);
                pending.drain(..consumed);
            }
            DecodeOutcome::Trailers { trailers, consumed } => {
                pending.drain(..consumed);
                break trailers;
            }
            DecodeOutcome::End { .. } => panic!("body ended before trailer outcome"),
        }
    };
    assert_eq!(decoder.decode(&pending, false)?, DecodeOutcome::End { consumed: 0 });
    pending.extend_from_slice(&wire[source..]);
    Ok(Decoded {
        data,
        trailers,
        remaining: pending,
    })
}

#[test]
fn reports_lie_within_the_input() {
    let wire = b"3\r\nabc\r\n0\r\nX-End: yes\r\n\r\nNEXT";
    for width in 1..=wire.len() {
        let mut decoder = BodyDecoder::new(BodyMode::Chunked);
        let mut kept: Vec<u8> = Vec::new();
        let mut data = Vec::new();
        let mut found = None;
        for piece in wire.chunks(width) {
            kept.extend_from_slice(piece);
            while found.is_none() {
                let consumed = match decoder.decode(&kept, false).unwrap() {
                    DecodeOutcome::Data { payload, consumed } => {
                        assert!(payload.start < payload.end && payload.end <= consumed);
                        data.extend_from_slice(&kept[payload]);
                        consumed
                    }
                    DecodeOutcome::Trailers { trailers, consumed } => {
                        found = Some(trailers);
                        consumed
                    }
                    DecodeOutcome::NeedMore { consumed } => {
                        kept.drain(..consumed);
                        break;
                    }
                    DecodeOutcome::End { .. } => panic!("the end came before the trailers"),
                };
                kept.drain(..consumed);
            }
        }
        assert_eq!(data, b"abc");
        assert_eq!(found.unwrap()["x-end"], "yes");
        assert_eq!(kept, b"NEXT");
        assert_eq!(decoder.decode(&kept, false).unwrap(), DecodeOutcome::End { consumed: 0 });
    }
}
