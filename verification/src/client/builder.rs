//! Configuration of client connections.

use crate::error::{Error, ErrorKind};
use crate::io::deadline::{self, configured_after};
use crate::outside::time;
use crate::proto::h1::config::{self, Config};
use crate::proto::h1::decode::DecodeLimits;
use crate::proto::h1::encode::EncodeConfig;
use crate::proto::h1::head::HeadLimits;
use std::time::{Duration, Instant};
use vstd::prelude::*;

verus! {

/// Configuration for low-level HTTP/1 client connections.
///
/// Defaults bound heads to 64 KiB/100 fields, retained input to 128 KiB with
/// 16 KiB reads, chunk lines to 8 KiB, and trailers to 16 KiB/32 fields.
#[derive(Clone, Debug)]
pub struct Builder {
    pub protocol: Config,
    pub head_timeout: Option<Duration>,
    pub body_progress_timeout: Option<Duration>,
    pub write_progress_timeout: Option<Duration>,
    pub preferred_read: usize,
    pub max_retained: usize,
    pub continue_wait: Option<Duration>,
}

/// The configuration that a builder starts with.
pub open spec fn initial(builder: Builder) -> bool {
    &&& builder.protocol == (Config {
        head: HeadLimits { max_bytes: 65536, max_headers: 100 },
        decode: DecodeLimits {
            max_chunk_line_bytes: 8192,
            max_trailer_bytes: 16384,
            max_trailers: 32,
        },
        encode: EncodeConfig {
            max_head_bytes: 65536,
            max_trailer_bytes: 16384,
            title_case_headers: false,
        },
        max_informational: 16,
        preserve_header_case: false,
    })
    &&& builder.head_timeout is None
    &&& builder.body_progress_timeout is None
    &&& builder.write_progress_timeout is None
    &&& builder.preferred_read == 16384
    &&& builder.max_retained == 131072
    &&& builder.continue_wait is None
}

/// Whether a timeout may be refused, and whether an error is how. Which durations
/// the clock of the machine cannot represent is up to the machine.
pub open spec fn timeout_refused(timeout: Option<Duration>, error: Error) -> bool {
    &&& deadline::misconfigured(error)
    &&& timeout matches Some(duration) && time::nanos(duration) > 0
}

impl Default for Builder {
    fn default() -> (result: Self)
        ensures
            initial(result),
    {
        Builder {
            protocol: Config::default(),
            head_timeout: None,
            body_progress_timeout: None,
            write_progress_timeout: None,
            preferred_read: 16384,
            max_retained: 131072,
            continue_wait: None,
        }
    }
}

impl Builder {
    /// Create a builder with bounded defaults.
    pub fn new() -> (result: Self)
        ensures
            initial(result),
    {
        Builder::default()
    }

    /// Set response-head byte and field limits for this connection. Encoded
    /// request heads share the byte limit. A limit of zero is refused.
    pub fn head_limits(&mut self, bytes: usize, fields: usize) -> (result: Result<&mut Self, Error>)
        ensures
            match result {
                Ok(builder) => {
                    &&& bytes > 0 && fields > 0
                    &&& *builder == (Builder {
                        protocol: Config {
                            head: HeadLimits { max_bytes: bytes, max_headers: fields },
                            encode: EncodeConfig {
                                max_head_bytes: bytes,
                                ..old(self).protocol.encode
                            },
                            ..old(self).protocol
                        },
                        ..*old(self)
                    })
                    &&& *final(self) == *final(builder)
                },
                Err(error) => {
                    &&& bytes == 0 || fields == 0
                    &&& error == config::refusal("head limits must be nonzero")
                    &&& *final(self) == *old(self)
                },
            },
    {
        match self.protocol.head_limits(bytes, fields) {
            Ok(()) => Ok(self),
            Err(error) => Err(error),
        }
    }

    /// Set the maximum informational heads per exchange, including automatic
    /// 100 Continue. Defaults to 16; zero disables informational responses.
    pub fn max_informational(&mut self, count: usize) -> (result: &mut Self)
        ensures
            *result == (Builder {
                protocol: Config { max_informational: count, ..old(self).protocol },
                ..*old(self)
            }),
            *final(self) == *final(result),
    {
        self.protocol.max_informational = count;
        self
    }

    /// Set the total deadline for a final response head, including informational
    /// responses. `None` disables it. A duration that cannot be represented as a
    /// deadline is refused and changes nothing.
    pub fn head_timeout(&mut self, timeout: Option<Duration>) -> (result: Result<&mut Self, Error>)
        ensures
            match result {
                Ok(builder) => deadline::representable(timeout) && *builder == (Builder {
                    head_timeout: timeout,
                    ..*old(self)
                }) && *final(self) == *final(builder),
                Err(error) => timeout_refused(timeout, error) && *final(self) == *old(self),
            },
    {
        let checked = configured_after(timeout);
        self.keep_head_timeout(timeout, checked)
    }

    /// Sets the total deadline for a final response head, of which it was checked whether it can be represented as a
    /// deadline: it is kept where there is one, and refused with the error
    /// otherwise, which changes nothing.
    pub fn keep_head_timeout(
        &mut self,
        timeout: Option<Duration>,
        checked: Result<Option<Instant>, Error>,
    ) -> (result: Result<&mut Self, Error>)
        ensures
            match checked {
                Ok(_) => result matches Ok(builder) && *builder == (Builder {
                    head_timeout: timeout,
                    ..*old(self)
                }) && *final(self) == *final(builder),
                Err(error) => result matches Err(refusal) && refusal == error && *final(self)
                    == *old(self),
            },
    {
        match checked {
            Ok(_) => {
                self.head_timeout = timeout;
                Ok(self)
            },
            Err(error) => Err(error),
        }
    }

    /// Set the maximum wait for each demanded body read to make peer progress.
    /// Disabled by default. A duration that cannot be represented as a deadline is
    /// refused and changes nothing.
    pub fn body_progress_timeout(&mut self, timeout: Option<Duration>) -> (result: Result<
        &mut Self,
        Error,
    >)
        ensures
            match result {
                Ok(builder) => deadline::representable(timeout) && *builder == (Builder {
                    body_progress_timeout: timeout,
                    ..*old(self)
                }) && *final(self) == *final(builder),
                Err(error) => timeout_refused(timeout, error) && *final(self) == *old(self),
            },
    {
        let checked = configured_after(timeout);
        self.keep_body_progress_timeout(timeout, checked)
    }

    /// Sets the wait for a body read, of which it was checked whether it can be represented as a
    /// deadline: it is kept where there is one, and refused with the error
    /// otherwise, which changes nothing.
    pub fn keep_body_progress_timeout(
        &mut self,
        timeout: Option<Duration>,
        checked: Result<Option<Instant>, Error>,
    ) -> (result: Result<&mut Self, Error>)
        ensures
            match checked {
                Ok(_) => result matches Ok(builder) && *builder == (Builder {
                    body_progress_timeout: timeout,
                    ..*old(self)
                }) && *final(self) == *final(builder),
                Err(error) => result matches Err(refusal) && refusal == error && *final(self)
                    == *old(self),
            },
    {
        match checked {
            Ok(_) => {
                self.body_progress_timeout = timeout;
                Ok(self)
            },
            Err(error) => Err(error),
        }
    }

    /// Set the maximum wait for each write, flush, or shutdown completion.
    /// Disabled by default. A duration that cannot be represented as a deadline is
    /// refused and changes nothing.
    pub fn write_progress_timeout(&mut self, timeout: Option<Duration>) -> (result: Result<
        &mut Self,
        Error,
    >)
        ensures
            match result {
                Ok(builder) => deadline::representable(timeout) && *builder == (Builder {
                    write_progress_timeout: timeout,
                    ..*old(self)
                }) && *final(self) == *final(builder),
                Err(error) => timeout_refused(timeout, error) && *final(self) == *old(self),
            },
    {
        let checked = configured_after(timeout);
        self.keep_write_progress_timeout(timeout, checked)
    }

    /// Sets the wait for a write, of which it was checked whether it can be represented as a
    /// deadline: it is kept where there is one, and refused with the error
    /// otherwise, which changes nothing.
    pub fn keep_write_progress_timeout(
        &mut self,
        timeout: Option<Duration>,
        checked: Result<Option<Instant>, Error>,
    ) -> (result: Result<&mut Self, Error>)
        ensures
            match checked {
                Ok(_) => result matches Ok(builder) && *builder == (Builder {
                    write_progress_timeout: timeout,
                    ..*old(self)
                }) && *final(self) == *final(builder),
                Err(error) => result matches Err(refusal) && refusal == error && *final(self)
                    == *old(self),
            },
    {
        match checked {
            Ok(_) => {
                self.write_progress_timeout = timeout;
                Ok(self)
            },
            Err(error) => Err(error),
        }
    }

    /// Set incoming chunk-line, trailer-byte, and trailer-field limits. Trailer
    /// output shares the byte limit. A limit of zero is refused.
    pub fn body_limits(
        &mut self,
        chunk_line: usize,
        trailer_bytes: usize,
        trailer_fields: usize,
    ) -> (result: Result<&mut Self, Error>)
        ensures
            match result {
                Ok(builder) => {
                    &&& chunk_line > 0 && trailer_bytes > 0 && trailer_fields > 0
                    &&& *builder == (Builder {
                        protocol: Config {
                            decode: DecodeLimits {
                                max_chunk_line_bytes: chunk_line,
                                max_trailer_bytes: trailer_bytes,
                                max_trailers: trailer_fields,
                            },
                            encode: EncodeConfig {
                                max_trailer_bytes: trailer_bytes,
                                ..old(self).protocol.encode
                            },
                            ..old(self).protocol
                        },
                        ..*old(self)
                    })
                    &&& *final(self) == *final(builder)
                },
                Err(error) => {
                    &&& chunk_line == 0 || trailer_bytes == 0 || trailer_fields == 0
                    &&& error == config::refusal("body framing limits must be nonzero")
                    &&& *final(self) == *old(self)
                },
            },
    {
        match self.protocol.body_limits(chunk_line, trailer_bytes, trailer_fields) {
            Ok(()) => Ok(self),
            Err(error) => Err(error),
        }
    }

    /// Set preferred read size and the maximum initialized input retained by the
    /// parser. Body data is delivered on demand; application-retained data is
    /// outside this limit. Zero or reversed limits are refused.
    pub fn read_buffer_limits(&mut self, preferred: usize, retained: usize) -> (result: Result<
        &mut Self,
        Error,
    >)
        ensures
            match result {
                Ok(builder) => {
                    &&& 0 < preferred <= retained
                    &&& *builder == (Builder {
                        preferred_read: preferred,
                        max_retained: retained,
                        ..*old(self)
                    })
                    &&& *final(self) == *final(builder)
                },
                Err(error) => {
                    &&& preferred == 0 || preferred > retained
                    &&& error == config::refusal("receive limits must be nonzero and ordered")
                    &&& *final(self) == *old(self)
                },
            },
    {
        if preferred == 0 || preferred > retained {
            return Err(
                Error::new(ErrorKind::LocalMessage, "receive limits must be nonzero and ordered"),
            );
        }
        self.preferred_read = preferred;
        self.max_retained = retained;
        Ok(self)
    }

    /// Configure bounded waiting after flushing an Expect: 100-continue request
    /// head. A peer 100, any final response, or timeout permits the upload. `None`
    /// (the default) sends immediately. A duration that cannot be represented as a
    /// deadline is refused and changes nothing.
    pub fn continue_wait(&mut self, timeout: Option<Duration>) -> (result: Result<&mut Self, Error>)
        ensures
            match result {
                Ok(builder) => deadline::representable(timeout) && *builder == (Builder {
                    continue_wait: timeout,
                    ..*old(self)
                }) && *final(self) == *final(builder),
                Err(error) => timeout_refused(timeout, error) && *final(self) == *old(self),
            },
    {
        let checked = configured_after(timeout);
        self.keep_continue_wait(timeout, checked)
    }

    /// Sets the wait for permission, of which it was checked whether it can be represented as a
    /// deadline: it is kept where there is one, and refused with the error
    /// otherwise, which changes nothing.
    pub fn keep_continue_wait(
        &mut self,
        timeout: Option<Duration>,
        checked: Result<Option<Instant>, Error>,
    ) -> (result: Result<&mut Self, Error>)
        ensures
            match checked {
                Ok(_) => result matches Ok(builder) && *builder == (Builder {
                    continue_wait: timeout,
                    ..*old(self)
                }) && *final(self) == *final(builder),
                Err(error) => result matches Err(refusal) && refusal == error && *final(self)
                    == *old(self),
            },
    {
        match checked {
            Ok(_) => {
                self.continue_wait = timeout;
                Ok(self)
            },
            Err(error) => Err(error),
        }
    }
}

} // verus!
