//! Budgets of time. A deadline that passes never hides a failure of its own.

use crate::error::{Error, ErrorKind, Source};
use crate::outside::io::{self, IoKind};
use crate::outside::time;
use std::rc::Rc;
use std::time::{Duration, Instant};
use vstd::prelude::*;

verus! {

/// Whether an I/O failure says that a timeout cannot become a deadline.
pub open spec fn unrepresentable(error: std::io::Error) -> bool {
    io::is_own(error, IoKind::InvalidInput, "timeout cannot be represented as a deadline")
}

/// The deadline that adding a timeout gave, or that there is none to represent.
pub fn represented(sum: Option<Instant>) -> (result: Result<Instant, std::io::Error>)
    ensures
        match sum {
            Some(deadline) => result == Ok::<Instant, std::io::Error>(deadline),
            None => result matches Err(error) && unrepresentable(error),
        },
{
    match sum {
        Some(deadline) => Ok(deadline),
        None => Err(
            io::error(IoKind::InvalidInput, "timeout cannot be represented as a deadline"),
        ),
    }
}

/// The deadline of a timeout that starts at a point in time. A timeout that
/// cannot be represented as a deadline is an error and never disables the
/// budget.
pub fn after_from(start: &Instant, timeout: Option<Duration>) -> (result: Result<
    Option<Instant>,
    std::io::Error,
>)
    ensures
        match timeout {
            None => result == Ok::<Option<Instant>, std::io::Error>(None),
            Some(duration) => match result {
                Ok(Some(deadline)) => time::moment(deadline) == time::moment(*start) + time::nanos(
                    duration,
                ),
                Ok(None) => false,
                Err(error) => unrepresentable(error) && time::nanos(duration) > 0,
            },
        },
{
    match timeout {
        None => Ok(None),
        Some(duration) => match represented(time::checked_add(start, duration)) {
            Ok(deadline) => Ok(Some(deadline)),
            Err(error) => Err(error),
        },
    }
}

/// Whether a deadline lies a duration behind some point in time.
pub open spec fn reaches(duration: Duration, deadline: Instant) -> bool {
    exists|start: Instant|
        #[trigger] time::moment(start) + time::nanos(duration) == time::moment(deadline)
}

/// Whether some deadline lies a timeout behind a point in time, where there is a
/// timeout.
pub open spec fn representable(timeout: Option<Duration>) -> bool {
    timeout matches Some(duration) ==> exists|deadline: Instant| #[trigger]
        reaches(duration, deadline)
}

/// Whether a result is what a timeout may give: no timeout gives no deadline, an
/// empty one a deadline, and another one a deadline that lies behind a point in
/// time by the timeout, or the error that says that there is none to represent.
pub open spec fn budgeted<E>(
    timeout: Option<Duration>,
    result: Result<Option<Instant>, E>,
    refuses: spec_fn(E) -> bool,
) -> bool {
    match timeout {
        None => result == Ok::<Option<Instant>, E>(None),
        Some(duration) => match result {
            Ok(deadline) => deadline matches Some(deadline) && reaches(duration, deadline),
            Err(error) => refuses(error) && time::nanos(duration) > 0,
        },
    }
}

/// The deadline of a timeout that starts now.
pub fn after(timeout: Option<Duration>) -> (result: Result<Option<Instant>, std::io::Error>)
    ensures
        budgeted(timeout, result, |error: std::io::Error| unrepresentable(error)),
{
    let start = time::now();
    after_from(&start, timeout)
}

/// Whether an error says that a configured timeout cannot become a deadline.
pub open spec fn misconfigured(error: Error) -> bool {
    &&& error.kind == ErrorKind::LocalMessage
    &&& error.context == "invalid timeout duration"
    &&& error.source matches Some(Source::Io(cause)) && unrepresentable(*cause)
}

/// The deadline that a configured timeout turned into, or the error that says
/// what is wrong with the configuration.
pub fn configured(deadline: Result<Option<Instant>, std::io::Error>) -> (result: Result<
    Option<Instant>,
    Error,
>)
    ensures
        match deadline {
            Ok(deadline) => result == Ok::<Option<Instant>, Error>(deadline),
            Err(cause) => result == Err::<Option<Instant>, Error>(
                Error {
                    kind: ErrorKind::LocalMessage,
                    context: "invalid timeout duration",
                    source: Some(Source::Io(Rc::new(cause))),
                },
            ),
        },
{
    match deadline {
        Ok(deadline) => Ok(deadline),
        Err(cause) => Err(
            Error::with_io(ErrorKind::LocalMessage, "invalid timeout duration", cause),
        ),
    }
}

/// The deadline of a configured timeout that starts now.
pub fn configured_after(timeout: Option<Duration>) -> (result: Result<Option<Instant>, Error>)
    ensures
        budgeted(timeout, result, |error: Error| misconfigured(error)),
{
    configured(after(timeout))
}

/// Whether a deadline has passed. Without a deadline nothing passes.
pub fn expired(deadline: Option<Instant>, now: &Instant) -> (result: bool)
    ensures
        result == (deadline matches Some(deadline) && time::moment(deadline) <= time::moment(*now)),
{
    match deadline {
        Some(deadline) => !time::earlier(now, &deadline),
        None => false,
    }
}

/// Whether a deadline that elapsed takes the place of what an operation ended
/// with: of success and of a cancellation, never of a failure of its own.
pub open spec fn replaced<T>(result: Result<T, std::io::Error>, elapsed: bool) -> bool {
    elapsed && (result matches Err(error) ==> io::cancels(error))
}

/// What a write operation ends with under its progress budget.
pub fn timed<T>(result: Result<T, std::io::Error>, elapsed: bool) -> (timed: Result<
    T,
    std::io::Error,
>)
    ensures
        if replaced(result, elapsed) {
            timed matches Err(error) && io::is_own(
                error,
                IoKind::TimedOut,
                "HTTP transport progress deadline exceeded",
            )
        } else {
            timed == result
        },
{
    let replaced = match &result {
        Ok(_) => elapsed,
        Err(error) => elapsed && io::is_canceled(error),
    };
    if replaced {
        Err(io::error(IoKind::TimedOut, "HTTP transport progress deadline exceeded"))
    } else {
        result
    }
}

/// What a read ends with under its deadline.
pub fn timed_read<T>(result: Result<T, Error>, elapsed: bool) -> (timed: Result<T, Error>)
    ensures
        timed == (if elapsed && (result matches Err(error) ==> error.kind == ErrorKind::Canceled) {
            Err(
                Error {
                    kind: ErrorKind::Timeout,
                    context: "HTTP receive deadline exceeded",
                    source: None,
                },
            )
        } else {
            result
        }),
{
    let replaced = match &result {
        Ok(_) => elapsed,
        Err(error) => elapsed && error.is_canceled(),
    };
    if replaced {
        Err(Error::new(ErrorKind::Timeout, "HTTP receive deadline exceeded"))
    } else {
        result
    }
}

} // verus!
