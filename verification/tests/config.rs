//! Limits and timeouts that callers configure.

use std::time::{Duration, Instant};
use vakya::client::builder::Builder;
use vakya::engine::config::{ClientConfig, ServerConfig};
use vakya::error::{Error, ErrorKind};
use vakya::proto::h1::config::Config;
use vakya::proto::h1::decode::DecodeLimits;
use vakya::proto::h1::head::HeadLimits;

#[test]
fn directional_limits_are_independent_and_rejection_is_atomic() {
    let mut config = Config::default();
    config.head_limits(400, 10).unwrap();
    config.body_limits(100, 200, 5).unwrap();
    config.incoming_head_limits(40, 2).unwrap();
    config.incoming_body_limits(10, 20, 1).unwrap();
    assert_eq!(config.encode.max_head_bytes, 400);
    assert_eq!(config.encode.max_trailer_bytes, 200);
    config.outgoing_head_limit(800).unwrap();
    config.outgoing_trailer_limit(600).unwrap();
    assert_eq!(config.head, HeadLimits::new(40, 2));
    assert_eq!(config.decode, DecodeLimits::new(10, 20, 1));
    assert!(config.head_limits(900, 0).is_err());
    assert!(config.body_limits(1, 900, 0).is_err());
    assert!(config.outgoing_head_limit(0).is_err());
    assert!(config.outgoing_trailer_limit(0).is_err());
    assert_eq!(config.head, HeadLimits::new(40, 2));
    assert_eq!(config.decode, DecodeLimits::new(10, 20, 1));
    assert_eq!(config.encode.max_head_bytes, 800);
    assert_eq!(config.encode.max_trailer_bytes, 600);
    config.head_limits(500, 4).unwrap();
    config.body_limits(50, 300, 3).unwrap();
    assert_eq!(config.head, HeadLimits::new(500, 4));
    assert_eq!(config.decode, DecodeLimits::new(50, 300, 3));
    assert_eq!(config.encode.max_head_bytes, 500);
    assert_eq!(config.encode.max_trailer_bytes, 300);
}

#[test]
fn timeout_validation_preserves_configuration_on_rejection() {
    let mut builder = Builder::new();

    let previous = builder.head_timeout;
    assert_eq!(
        builder.head_timeout(Some(Duration::MAX)).unwrap_err().kind(),
        ErrorKind::LocalMessage
    );
    assert_eq!(builder.head_timeout, previous);
    for timeout in [None, Some(Duration::ZERO), Some(Duration::from_secs(1))] {
        builder.head_timeout(timeout).unwrap();
        assert_eq!(builder.head_timeout, timeout);
    }

    let previous = builder.body_progress_timeout;
    assert_eq!(
        builder.body_progress_timeout(Some(Duration::MAX)).unwrap_err().kind(),
        ErrorKind::LocalMessage
    );
    assert_eq!(builder.body_progress_timeout, previous);
    for timeout in [None, Some(Duration::ZERO), Some(Duration::from_secs(1))] {
        builder.body_progress_timeout(timeout).unwrap();
        assert_eq!(builder.body_progress_timeout, timeout);
    }

    let previous = builder.write_progress_timeout;
    assert_eq!(
        builder.write_progress_timeout(Some(Duration::MAX)).unwrap_err().kind(),
        ErrorKind::LocalMessage
    );
    assert_eq!(builder.write_progress_timeout, previous);
    for timeout in [None, Some(Duration::ZERO), Some(Duration::from_secs(1))] {
        builder.write_progress_timeout(timeout).unwrap();
        assert_eq!(builder.write_progress_timeout, timeout);
    }

    let previous = builder.continue_wait;
    assert_eq!(
        builder.continue_wait(Some(Duration::MAX)).unwrap_err().kind(),
        ErrorKind::LocalMessage
    );
    assert_eq!(builder.continue_wait, previous);
    for timeout in [None, Some(Duration::ZERO), Some(Duration::from_secs(1))] {
        builder.continue_wait(timeout).unwrap();
        assert_eq!(builder.continue_wait, timeout);
    }
}

#[test]
fn checked_timeouts_are_kept_or_refused() {
    let refusal = || Error::new(ErrorKind::LocalMessage, "refused");
    let timeout = Some(Duration::from_secs(7));

    let mut builder = Builder::new();
    let previous = builder.head_timeout;
    let error = builder.keep_head_timeout(timeout, Err(refusal())).unwrap_err();
    assert_eq!((error.kind(), error.context), (ErrorKind::LocalMessage, "refused"));
    assert_eq!(builder.head_timeout, previous);
    builder.keep_head_timeout(timeout, Ok(Some(Instant::now()))).unwrap();
    assert_eq!(builder.head_timeout, timeout);

    let mut builder = Builder::new();
    let previous = builder.body_progress_timeout;
    let error = builder.keep_body_progress_timeout(timeout, Err(refusal())).unwrap_err();
    assert_eq!((error.kind(), error.context), (ErrorKind::LocalMessage, "refused"));
    assert_eq!(builder.body_progress_timeout, previous);
    builder.keep_body_progress_timeout(timeout, Ok(Some(Instant::now()))).unwrap();
    assert_eq!(builder.body_progress_timeout, timeout);

    let mut builder = Builder::new();
    let previous = builder.write_progress_timeout;
    let error = builder.keep_write_progress_timeout(timeout, Err(refusal())).unwrap_err();
    assert_eq!((error.kind(), error.context), (ErrorKind::LocalMessage, "refused"));
    assert_eq!(builder.write_progress_timeout, previous);
    builder.keep_write_progress_timeout(timeout, Ok(Some(Instant::now()))).unwrap();
    assert_eq!(builder.write_progress_timeout, timeout);

    let mut builder = Builder::new();
    let previous = builder.continue_wait;
    let error = builder.keep_continue_wait(timeout, Err(refusal())).unwrap_err();
    assert_eq!((error.kind(), error.context), (ErrorKind::LocalMessage, "refused"));
    assert_eq!(builder.continue_wait, previous);
    builder.keep_continue_wait(timeout, Ok(Some(Instant::now()))).unwrap();
    assert_eq!(builder.continue_wait, timeout);
}

#[test]
fn builder_setters_chain_and_refuse_zero() {
    let mut builder = Builder::new();
    builder.max_informational(3).head_limits(512, 7).unwrap().body_limits(9, 99, 4).unwrap();
    assert_eq!(builder.protocol.max_informational, 3);
    assert_eq!(builder.protocol.head, HeadLimits::new(512, 7));
    assert_eq!(builder.protocol.decode, DecodeLimits::new(9, 99, 4));
    assert_eq!(builder.protocol.encode.max_head_bytes, 512);
    assert_eq!(builder.protocol.encode.max_trailer_bytes, 99);
    builder.read_buffer_limits(10, 20).unwrap();
    for (preferred, retained) in [(0, 5), (6, 5)] {
        let error = builder.read_buffer_limits(preferred, retained).unwrap_err();
        assert_eq!(
            error.to_string(),
            "receive limits must be nonzero and ordered: invalid local message"
        );
    }
    assert_eq!((builder.preferred_read, builder.max_retained), (10, 20));
    assert_eq!(
        builder.head_limits(0, 1).unwrap_err().to_string(),
        "head limits must be nonzero: invalid local message"
    );
    assert_eq!(
        builder.body_limits(1, 0, 1).unwrap_err().to_string(),
        "body framing limits must be nonzero: invalid local message"
    );
    assert_eq!(builder.protocol.head, HeadLimits::new(512, 7));
}

#[test]
fn defaults_are_bounded() {
    let config = Config::default();
    assert_eq!(config.head, HeadLimits::new(64 * 1024, 100));
    assert_eq!(config.decode, DecodeLimits::new(8 * 1024, 16 * 1024, 32));
    assert_eq!(config.encode.max_head_bytes, 64 * 1024);
    assert_eq!(config.encode.max_trailer_bytes, 16 * 1024);
    assert_eq!(config.max_informational, 16);
    let client = ClientConfig::default();
    assert_eq!(client.head_timeout, None);
    assert_eq!((client.preferred_read, client.max_retained), (16 * 1024, 128 * 1024));
    assert_eq!(client.drain.timeout, Duration::from_secs(5));
    assert_eq!(client.drain.wire_allowance, 64 * 1024);
    let server = ServerConfig::default();
    assert_eq!(server.head_timeout, Some(Duration::from_secs(30)));
    assert!(server.auto_date);
    let mut titled = Config::default();
    titled.title_case_headers(true);
    assert!(titled.encode.title_case_headers);
    assert_eq!(titled.encode.limits().max_head_bytes, 64 * 1024);
}
