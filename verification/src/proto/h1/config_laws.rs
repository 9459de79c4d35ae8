//! What holds of limits, however they are set.

use crate::client::builder::Builder;
use crate::engine::config::{ClientConfig, ServerConfig};
use crate::error::{Error, ErrorKind};
use crate::io::deadline;
use crate::outside::time;
use crate::proto::h1::config::Config;
use std::time::{Duration, Instant};
use vstd::prelude::*;

verus! {

/// Limits of heads are taken where none is zero; they bound what is received, and the
/// bytes of what is sent where both are set together. Nothing else changes.
pub proof fn head_limits_are_taken(
    both: &mut Config,
    incoming: &mut Config,
    outgoing: &mut Config,
    bytes: usize,
    headers: usize,
    first: Result<(), Error>,
    second: Result<(), Error>,
    third: Result<(), Error>,
)
    requires
        call_ensures(Config::head_limits, (both, bytes, headers), first),
        call_ensures(Config::incoming_head_limits, (incoming, bytes, headers), second),
        call_ensures(Config::outgoing_head_limit, (outgoing, bytes), third),
    ensures
        first is Ok <==> bytes > 0 && headers > 0,
        second is Ok <==> bytes > 0 && headers > 0,
        third is Ok <==> bytes > 0,
        first is Ok ==> final(both).head.max_bytes == bytes && final(both).head.max_headers
            == headers && final(both).encode.max_head_bytes == bytes,
        second is Ok ==> final(incoming).head.max_bytes == bytes && final(
            incoming
        ).head.max_headers == headers && final(incoming).encode == old(incoming).encode,
        third is Ok ==> final(outgoing).encode.max_head_bytes == bytes && final(outgoing).head
            == old(outgoing).head,
        first is Err ==> *final(both) == *old(both),
        second is Err ==> *final(incoming) == *old(incoming),
        third is Err ==> *final(outgoing) == *old(outgoing),
        first matches Err(error) ==> error.kind == ErrorKind::LocalMessage,
        second matches Err(error) ==> error.kind == ErrorKind::LocalMessage,
        third matches Err(error) ==> error.kind == ErrorKind::LocalMessage,
        final(both).decode == old(both).decode && final(incoming).decode == old(incoming).decode
            && final(outgoing).decode == old(outgoing).decode,
        final(both).encode.max_trailer_bytes == old(both).encode.max_trailer_bytes,
        final(outgoing).encode.max_trailer_bytes == old(outgoing).encode.max_trailer_bytes,
        final(both).encode.title_case_headers == old(both).encode.title_case_headers,
        final(outgoing).encode.title_case_headers == old(outgoing).encode.title_case_headers,
        final(both).max_informational == old(both).max_informational,
        final(both).preserve_header_case == old(both).preserve_header_case,
{
}

/// Limits of bodies are taken where none is zero; they bound what is received, and the
/// trailers that are sent where both are set together. Nothing else changes.
pub proof fn body_limits_are_taken(
    both: &mut Config,
    incoming: &mut Config,
    outgoing: &mut Config,
    line: usize,
    bytes: usize,
    count: usize,
    first: Result<(), Error>,
    second: Result<(), Error>,
    third: Result<(), Error>,
)
    requires
        call_ensures(Config::body_limits, (both, line, bytes, count), first),
        call_ensures(Config::incoming_body_limits, (incoming, line, bytes, count), second),
        call_ensures(Config::outgoing_trailer_limit, (outgoing, bytes), third),
    ensures
        first is Ok <==> line > 0 && bytes > 0 && count > 0,
        second is Ok <==> line > 0 && bytes > 0 && count > 0,
        third is Ok <==> bytes > 0,
        first is Ok ==> final(both).decode.max_chunk_line_bytes == line && final(
            both
        ).decode.max_trailer_bytes == bytes && final(both).decode.max_trailers == count && final(
            both
        ).encode.max_trailer_bytes == bytes,
        second is Ok ==> final(incoming).decode.max_chunk_line_bytes == line && final(
            incoming
        ).decode.max_trailer_bytes == bytes && final(incoming).decode.max_trailers == count
            && final(incoming).encode == old(incoming).encode,
        third is Ok ==> final(outgoing).encode.max_trailer_bytes == bytes && final(outgoing).decode
            == old(outgoing).decode,
        first is Err ==> *final(both) == *old(both),
        second is Err ==> *final(incoming) == *old(incoming),
        third is Err ==> *final(outgoing) == *old(outgoing),
        final(both).head == old(both).head && final(incoming).head == old(incoming).head && final(
            outgoing
        ).head == old(outgoing).head,
        final(both).encode.max_head_bytes == old(both).encode.max_head_bytes,
        final(outgoing).encode.max_head_bytes == old(outgoing).encode.max_head_bytes,
        first matches Err(error) ==> error.kind == ErrorKind::LocalMessage,
{
}

/// The case of written names is chosen by itself.
pub proof fn title_case_is_chosen(config: &mut Config, enabled: bool)
    requires
        call_ensures(Config::title_case_headers, (config, enabled), ()),
    ensures
        final(config).encode.title_case_headers == enabled,
        final(config).encode.max_head_bytes == old(config).encode.max_head_bytes,
        final(config).encode.max_trailer_bytes == old(config).encode.max_trailer_bytes,
        final(config).head == old(config).head,
        final(config).decode == old(config).decode,
        final(config).preserve_header_case == old(config).preserve_header_case,
        final(config).max_informational == old(config).max_informational,
{
}

/// Connections start with the same bounds, whichever way they are configured: 64 KiB
/// and a hundred fields for a head, 8 KiB for a chunk line, 16 KiB and 32 fields for
/// trailers, reads of 16 KiB and 128 KiB of retained input. A server gives a head half
/// a minute and dates its responses.
pub proof fn defaults_bound_everything(
    protocol: Config,
    client: ClientConfig,
    server: ServerConfig,
    builder: Builder,
)
    requires
        call_ensures(<Config as Default>::default, (), protocol),
        call_ensures(<ClientConfig as Default>::default, (), client),
        call_ensures(<ServerConfig as Default>::default, (), server),
        call_ensures(Builder::new, (), builder),
    ensures
        protocol.head.max_bytes == 64 * 1024 && protocol.head.max_headers == 100,
        protocol.decode.max_chunk_line_bytes == 8 * 1024 && protocol.decode.max_trailer_bytes == 16
            * 1024 && protocol.decode.max_trailers == 32,
        protocol.encode.max_head_bytes == protocol.head.max_bytes,
        protocol.encode.max_trailer_bytes == protocol.decode.max_trailer_bytes,
        !protocol.encode.title_case_headers && !protocol.preserve_header_case,
        protocol.max_informational == 16,
        builder.protocol == protocol,
        builder.preferred_read == 16 * 1024 && builder.max_retained == 128 * 1024,
        builder.preferred_read <= builder.max_retained,
        client.preferred_read == builder.preferred_read && client.max_retained
            == builder.max_retained,
        server.preferred_read == builder.preferred_read && server.max_retained
            == builder.max_retained,
        client.protocol.head == protocol.head && server.protocol.head == protocol.head,
        client.head_timeout is None && client.continue_wait is None,
        client.body_progress_timeout is None && client.write_progress_timeout is None,
        server.body_progress_timeout is None && server.write_progress_timeout is None,
        client.protocol.max_informational == protocol.max_informational,
        server.protocol.max_informational == protocol.max_informational,
        builder.head_timeout is None && builder.continue_wait is None
            && builder.body_progress_timeout is None && builder.write_progress_timeout is None,
        server.head_timeout matches Some(timeout) && time::nanos(timeout) == 30 * 1_000_000_000,
        server.auto_date,
        time::nanos(client.drain.timeout) == 5 * 1_000_000_000 && client.drain.wire_allowance == 64
            * 1024,
        time::nanos(server.drain.timeout) == 5 * 1_000_000_000 && server.drain.wire_allowance == 64
            * 1024,
{
}

/// A builder takes the limits that a connection can have, hands itself on, and keeps
/// every other setting; limits that none can have change nothing.
pub proof fn builders_take_limits(
    first: &mut Builder,
    bytes: usize,
    count: usize,
    heads: Result<&mut Builder, Error>,
    second: &mut Builder,
    line: usize,
    bodies: Result<&mut Builder, Error>,
    third: &mut Builder,
    preferred: usize,
    retained: usize,
    reads: Result<&mut Builder, Error>,
)
    requires
        call_ensures(Builder::head_limits, (first, bytes, count), heads),
        call_ensures(Builder::body_limits, (second, line, bytes, count), bodies),
        call_ensures(Builder::read_buffer_limits, (third, preferred, retained), reads),
    ensures
        heads is Ok <==> bytes > 0 && count > 0,
        bodies is Ok <==> line > 0 && bytes > 0 && count > 0,
        reads is Ok <==> preferred > 0 && preferred <= retained,
        heads matches Ok(made) ==> made.protocol.head.max_bytes == bytes
            && made.protocol.head.max_headers == count && made.protocol.encode.max_head_bytes
            == bytes && made.protocol.decode == old(first).protocol.decode && made.max_retained
            == old(first).max_retained && made.preferred_read == old(first).preferred_read
            && made.head_timeout == old(first).head_timeout,
        bodies matches Ok(made) ==> made.protocol.decode.max_chunk_line_bytes == line
            && made.protocol.decode.max_trailer_bytes == bytes
            && made.protocol.decode.max_trailers == count
            && made.protocol.encode.max_trailer_bytes == bytes && made.protocol.head == old(
            second
        ).protocol.head && made.max_retained == old(second).max_retained,
        reads matches Ok(made) ==> made.preferred_read == preferred && made.max_retained == retained
            && made.protocol == old(third).protocol && made.head_timeout == old(third).head_timeout
            && made.continue_wait == old(third).continue_wait,
        heads matches Err(error) ==> error.kind == ErrorKind::LocalMessage && *final(first) == *old(
            first
        ),
        bodies matches Err(error) ==> error.kind == ErrorKind::LocalMessage && *final(second)
            == *old(second),
        reads matches Err(error) ==> error.kind == ErrorKind::LocalMessage && *final(third) == *old(
            third
        ),
{
}

/// A builder takes any number of informational responses, none at all too.
pub proof fn builders_bound_informational(
    builder: &mut Builder,
    count: usize,
    made: &mut Builder,
)
    requires
        call_ensures(Builder::max_informational, (builder, count), made),
    ensures
        old(made).protocol.max_informational == count,
        old(made).protocol.head == old(builder).protocol.head,
        old(made).protocol.decode == old(builder).protocol.decode,
        old(made).protocol.encode == old(builder).protocol.encode,
        old(made).head_timeout == old(builder).head_timeout,
        old(made).max_retained == old(builder).max_retained,
        old(made).preferred_read == old(builder).preferred_read,
        old(made).continue_wait == old(builder).continue_wait,
{
}

/// A builder keeps a timeout where it was found to become a deadline, each in its own
/// place, and is otherwise left as it was.
pub proof fn builders_keep_timeouts(
    timeout: Option<Duration>,
    checked: Result<Option<Instant>, Error>,
    first: &mut Builder,
    heads: Result<&mut Builder, Error>,
    second: &mut Builder,
    bodies: Result<&mut Builder, Error>,
    third: &mut Builder,
    writes: Result<&mut Builder, Error>,
    fourth: &mut Builder,
    waits: Result<&mut Builder, Error>,
)
    requires
        call_ensures(Builder::keep_head_timeout, (first, timeout, checked), heads),
        call_ensures(Builder::keep_body_progress_timeout, (second, timeout, checked), bodies),
        call_ensures(Builder::keep_write_progress_timeout, (third, timeout, checked), writes),
        call_ensures(Builder::keep_continue_wait, (fourth, timeout, checked), waits),
    ensures
        checked is Ok ==> heads is Ok && bodies is Ok && writes is Ok && waits is Ok,
        heads matches Ok(made) ==> made.head_timeout == timeout && made.body_progress_timeout
            == old(first).body_progress_timeout && made.write_progress_timeout == old(
            first
        ).write_progress_timeout && made.continue_wait == old(first).continue_wait && made.protocol
            == old(first).protocol,
        bodies matches Ok(made) ==> made.body_progress_timeout == timeout && made.head_timeout
            == old(second).head_timeout && made.write_progress_timeout == old(
            second
        ).write_progress_timeout && made.continue_wait == old(second).continue_wait,
        writes matches Ok(made) ==> made.write_progress_timeout == timeout && made.head_timeout
            == old(third).head_timeout && made.body_progress_timeout == old(
            third
        ).body_progress_timeout && made.continue_wait == old(third).continue_wait,
        waits matches Ok(made) ==> made.continue_wait == timeout && made.head_timeout == old(
            fourth
        ).head_timeout && made.body_progress_timeout == old(fourth).body_progress_timeout
            && made.write_progress_timeout == old(fourth).write_progress_timeout,
        checked matches Err(error) ==> (heads matches Err(refusal) && refusal == error) && *final(
            first
        ) == *old(first) && (bodies matches Err(refusal) && refusal == error) && *final(second)
            == *old(second) && (writes matches Err(refusal) && refusal == error) && *final(third)
            == *old(third) && (waits matches Err(refusal) && refusal == error) && *final(fourth)
            == *old(fourth),
{
}

/// A builder refuses a timeout only where it is not empty and no deadline stands for
/// it, as a mistake of its caller, and is then left as it was.
pub proof fn builders_check_timeouts(
    timeout: Option<Duration>,
    first: &mut Builder,
    heads: Result<&mut Builder, Error>,
    second: &mut Builder,
    bodies: Result<&mut Builder, Error>,
    third: &mut Builder,
    writes: Result<&mut Builder, Error>,
    fourth: &mut Builder,
    waits: Result<&mut Builder, Error>,
)
    requires
        call_ensures(Builder::head_timeout, (first, timeout), heads),
        call_ensures(Builder::body_progress_timeout, (second, timeout), bodies),
        call_ensures(Builder::write_progress_timeout, (third, timeout), writes),
        call_ensures(Builder::continue_wait, (fourth, timeout), waits),
    ensures
        heads is Err || bodies is Err || writes is Err || waits is Err ==> (timeout matches Some(
            duration,
        ) && time::nanos(duration) > 0),
        heads matches Ok(made) ==> made.head_timeout == timeout && deadline::representable(timeout),
        bodies matches Ok(made) ==> made.body_progress_timeout == timeout,
        writes matches Ok(made) ==> made.write_progress_timeout == timeout,
        waits matches Ok(made) ==> made.continue_wait == timeout,
        heads matches Err(error) ==> error.kind == ErrorKind::LocalMessage && *final(first) == *old(
            first
        ),
        bodies matches Err(error) ==> error.kind == ErrorKind::LocalMessage && *final(second)
            == *old(second),
        writes matches Err(error) ==> error.kind == ErrorKind::LocalMessage && *final(third)
            == *old(third),
        waits matches Err(error) ==> error.kind == ErrorKind::LocalMessage && *final(fourth)
            == *old(fourth),
{
}

} // verus!
