//! Value-owned settings, independent of builder shapes.

use crate::body::incoming::DrainConfig;
use crate::outside::time;
use crate::proto::h1::config::Config;
use std::time::Duration;
use vstd::prelude::*;

verus! {

/// Settings of a client connection.
#[derive(Clone, Debug)]
pub struct ClientConfig {
    pub protocol: Config,
    pub drain: DrainConfig,
    pub head_timeout: Option<Duration>,
    pub body_progress_timeout: Option<Duration>,
    pub write_progress_timeout: Option<Duration>,
    pub preferred_read: usize,
    pub max_retained: usize,
    pub continue_wait: Option<Duration>,
}

impl Default for ClientConfig {
    fn default() -> (result: Self)
        ensures
            result.protocol.wf(),
            result.protocol.max_informational == 16,
            result.protocol.head.max_bytes == 65536,
            result.protocol.head.max_headers == 100,
            time::nanos(result.drain.timeout) == 5_000_000_000,
            result.drain.wire_allowance == 65536,
            result.head_timeout is None,
            result.body_progress_timeout is None,
            result.write_progress_timeout is None,
            result.preferred_read == 16384,
            result.max_retained == 131072,
            result.continue_wait is None,
    {
        ClientConfig {
            protocol: Config::default(),
            drain: DrainConfig::default(),
            head_timeout: None,
            body_progress_timeout: None,
            write_progress_timeout: None,
            preferred_read: 16384,
            max_retained: 131072,
            continue_wait: None,
        }
    }
}

/// Settings of a server connection.
#[derive(Clone, Debug)]
pub struct ServerConfig {
    pub protocol: Config,
    pub drain: DrainConfig,
    pub head_timeout: Option<Duration>,
    pub body_progress_timeout: Option<Duration>,
    pub write_progress_timeout: Option<Duration>,
    pub preferred_read: usize,
    pub max_retained: usize,
    pub auto_date: bool,
}

impl Default for ServerConfig {
    fn default() -> (result: Self)
        ensures
            result.protocol.wf(),
            result.protocol.max_informational == 16,
            result.protocol.head.max_bytes == 65536,
            result.protocol.head.max_headers == 100,
            time::nanos(result.drain.timeout) == 5_000_000_000,
            result.drain.wire_allowance == 65536,
            result.head_timeout matches Some(timeout) && time::nanos(timeout) == 30_000_000_000,
            result.body_progress_timeout is None,
            result.write_progress_timeout is None,
            result.preferred_read == 16384,
            result.max_retained == 131072,
            result.auto_date,
    {
        ServerConfig {
            protocol: Config::default(),
            drain: DrainConfig::default(),
            head_timeout: Some(time::seconds(30)),
            body_progress_timeout: None,
            write_progress_timeout: None,
            preferred_read: 16384,
            max_retained: 131072,
            auto_date: true,
        }
    }
}

} // verus!
