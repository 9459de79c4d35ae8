//! Protocol configuration that the client and server drivers share.

use crate::error::{Error, ErrorKind};
use crate::proto::h1::decode::DecodeLimits;
use crate::proto::h1::encode::EncodeConfig;
use crate::proto::h1::head::HeadLimits;
use vstd::prelude::*;

verus! {

/// Limits and choices of one connection.
#[derive(Clone, Copy, Debug, PartialEq, Eq, Structural)]
pub struct Config {
    pub head: HeadLimits,
    pub decode: DecodeLimits,
    pub encode: EncodeConfig,
    pub max_informational: usize,
    pub preserve_header_case: bool,
}

/// A refusal of what a caller configured.
pub open spec fn refusal(context: &'static str) -> Error {
    Error { kind: ErrorKind::LocalMessage, context, source: None }
}

impl Default for Config {
    fn default() -> (result: Self)
        ensures
            result == (Config {
                head: HeadLimits { max_bytes: 65536, max_headers: 100 },
                decode: DecodeLimits {
                    max_chunk_line_bytes: 8192,
                    max_trailer_bytes: 16384,
                    max_trailers: 32,
                },
                encode: EncodeConfig {
                    max_head_bytes: 65536,
                    max_trailer_bytes: 16384,
                    title_case_headers: false,
                },
                max_informational: 16,
                preserve_header_case: false,
            }),
            result.wf(),
    {
        Config {
            head: HeadLimits::new(65536, 100),
            decode: DecodeLimits::default(),
            encode: EncodeConfig::new(65536, 16384),
            max_informational: 16,
            preserve_header_case: false,
        }
    }
}

impl Config {
    /// No limit refuses every message.
    pub open spec fn wf(self) -> bool {
        &&& self.head.max_bytes > 0 && self.head.max_headers > 0
        &&& self.decode.max_chunk_line_bytes > 0 && self.decode.max_trailer_bytes > 0
            && self.decode.max_trailers > 0
        &&& self.encode.max_head_bytes > 0 && self.encode.max_trailer_bytes > 0
    }

    /// Limits received heads, and the bytes of those that are sent. A limit of
    /// zero is refused and changes nothing.
    pub fn head_limits(&mut self, bytes: usize, headers: usize) -> (result: Result<(), Error>)
        ensures
            old(self).wf() ==> final(self).wf(),
            if bytes > 0 && headers > 0 {
                result is Ok && *final(self) == (Config {
                    head: HeadLimits { max_bytes: bytes, max_headers: headers },
                    encode: EncodeConfig { max_head_bytes: bytes, ..old(self).encode },
                    ..*old(self)
                })
            } else {
                result == Err::<(), Error>(refusal("head limits must be nonzero")) && *final(self)
                    == *old(self)
            },
    {
        self.incoming_head_limits(bytes, headers)?;
        self.encode.max_head_bytes = bytes;
        Ok(())
    }

    /// Limits received heads.
    pub fn incoming_head_limits(&mut self, bytes: usize, headers: usize) -> (result: Result<
        (),
        Error,
    >)
        ensures
            old(self).wf() ==> final(self).wf(),
            if bytes > 0 && headers > 0 {
                result is Ok && *final(self) == (Config {
                    head: HeadLimits { max_bytes: bytes, max_headers: headers },
                    ..*old(self)
                })
            } else {
                result == Err::<(), Error>(refusal("head limits must be nonzero")) && *final(self)
                    == *old(self)
            },
    {
        if bytes == 0 || headers == 0 {
            return Err(Error::new(ErrorKind::LocalMessage, "head limits must be nonzero"));
        }
        self.head = HeadLimits::new(bytes, headers);
        Ok(())
    }

    /// Limits the framing of received bodies, and the bytes of trailers that are
    /// sent. A limit of zero is refused and changes nothing.
    pub fn body_limits(
        &mut self,
        chunk_line: usize,
        trailer_bytes: usize,
        trailers: usize,
    ) -> (result: Result<(), Error>)
        ensures
            old(self).wf() ==> final(self).wf(),
            if chunk_line > 0 && trailer_bytes > 0 && trailers > 0 {
                result is Ok && *final(self) == (Config {
                    decode: DecodeLimits {
                        max_chunk_line_bytes: chunk_line,
                        max_trailer_bytes: trailer_bytes,
                        max_trailers: trailers,
                    },
                    encode: EncodeConfig { max_trailer_bytes: trailer_bytes, ..old(self).encode },
                    ..*old(self)
                })
            } else {
                result == Err::<(), Error>(refusal("body framing limits must be nonzero"))
                    && *final(self) == *old(self)
            },
    {
        self.incoming_body_limits(chunk_line, trailer_bytes, trailers)?;
        self.encode.max_trailer_bytes = trailer_bytes;
        Ok(())
    }

    /// Limits the framing of received bodies.
    pub fn incoming_body_limits(
        &mut self,
        chunk_line: usize,
        trailer_bytes: usize,
        trailers: usize,
    ) -> (result: Result<(), Error>)
        ensures
            old(self).wf() ==> final(self).wf(),
            if chunk_line > 0 && trailer_bytes > 0 && trailers > 0 {
                result is Ok && *final(self) == (Config {
                    decode: DecodeLimits {
                        max_chunk_line_bytes: chunk_line,
                        max_trailer_bytes: trailer_bytes,
                        max_trailers: trailers,
                    },
                    ..*old(self)
                })
            } else {
                result == Err::<(), Error>(refusal("body framing limits must be nonzero"))
                    && *final(self) == *old(self)
            },
    {
        if chunk_line == 0 || trailer_bytes == 0 || trailers == 0 {
            return Err(Error::new(ErrorKind::LocalMessage, "body framing limits must be nonzero"));
        }
        self.decode = DecodeLimits::new(chunk_line, trailer_bytes, trailers);
        Ok(())
    }

    /// Limits the heads that are sent.
    pub fn outgoing_head_limit(&mut self, bytes: usize) -> (result: Result<(), Error>)
        ensures
            old(self).wf() ==> final(self).wf(),
            if bytes > 0 {
                result is Ok && *final(self) == (Config {
                    encode: EncodeConfig { max_head_bytes: bytes, ..old(self).encode },
                    ..*old(self)
                })
            } else {
                result == Err::<(), Error>(refusal("output limit must be nonzero")) && *final(self)
                    == *old(self)
            },
    {
        nonzero(bytes)?;
        self.encode.max_head_bytes = bytes;
        Ok(())
    }

    /// Limits the trailers that are sent.
    pub fn outgoing_trailer_limit(&mut self, bytes: usize) -> (result: Result<(), Error>)
        ensures
            old(self).wf() ==> final(self).wf(),
            if bytes > 0 {
                result is Ok && *final(self) == (Config {
                    encode: EncodeConfig { max_trailer_bytes: bytes, ..old(self).encode },
                    ..*old(self)
                })
            } else {
                result == Err::<(), Error>(refusal("output limit must be nonzero")) && *final(self)
                    == *old(self)
            },
    {
        nonzero(bytes)?;
        self.encode.max_trailer_bytes = bytes;
        Ok(())
    }

    pub fn title_case_headers(&mut self, enabled: bool)
        ensures
            old(self).wf() ==> final(self).wf(),
            *final(self) == (Config {
                encode: EncodeConfig { title_case_headers: enabled, ..old(self).encode },
                ..*old(self)
            }),
    {
        self.encode.title_case_headers = enabled;
    }
}

fn nonzero(bytes: usize) -> (result: Result<(), Error>)
    ensures
        result is Ok <==> bytes > 0,
        result matches Err(error) ==> error == refusal("output limit must be nonzero"),
{
    if bytes == 0 {
        return Err(Error::new(ErrorKind::LocalMessage, "output limit must be nonzero"));
    }
    Ok(())
}

} // verus!
