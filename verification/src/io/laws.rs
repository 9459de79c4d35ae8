//! What holds of reads, writes and deadlines, whatever the transport does.

use crate::body::incoming::{IncomingData, Leased};
use crate::error::{Error, ErrorKind, Source};
use crate::io::deadline;
use crate::io::managed;
use crate::io::recv::{self, PendingRead, ReadStart, ReadStatus, RecvBuffer};
use crate::io::send::{self, Cursor, WriteAction};
use crate::outside::io::{self, IoKind};
use crate::outside::octets;
use crate::outside::time;
use bytes::{Bytes, BytesMut};
use std::ops::Range;
use std::time::{Duration, Instant};
use vstd::prelude::*;

verus! {

/// A buffer is made for limits that are in order, and starts empty.
pub proof fn buffer_starts_empty(
    preferred: usize,
    most: usize,
    result: Result<RecvBuffer, Error>,
)
    requires
        call_ensures(RecvBuffer::new, (preferred, most), result),
    ensures
        result is Ok <==> preferred > 0 && preferred <= most,
        result matches Ok(buffer) ==> buffer@ == Seq::<u8>::empty() && buffer.preferred()
            == preferred && buffer.most() == most && !buffer.lease().held,
        result matches Err(error) ==> error.kind == ErrorKind::Limit,
{
}

/// What is consumed, and what is left, put together, are what was there: a prefix is
/// taken off exactly where there is as much, and nothing else changes.
pub proof fn prefixes_are_taken_off(
    buffer: &mut RecvBuffer,
    count: usize,
    consumed: Result<(), Error>,
    shared: &mut RecvBuffer,
    prefix: Result<Bytes, Error>,
    whole: &mut RecvBuffer,
    rest: Bytes,
)
    requires
        call_ensures(RecvBuffer::consume, (buffer, count), consumed),
        call_ensures(RecvBuffer::take_shared_prefix, (shared, count), prefix),
        call_ensures(RecvBuffer::take_all, (whole,), rest),
        old(shared)@ == old(buffer)@,
        old(whole)@ == final(shared)@,
    ensures
        consumed is Ok <==> count <= old(buffer)@.len(),
        prefix is Ok <==> count <= old(buffer)@.len(),
        prefix matches Ok(bytes) ==> octets::octets(bytes).len() == count && octets::octets(bytes)
            + octets::octets(rest) == old(buffer)@,
        consumed is Ok ==> final(buffer)@ == octets::octets(rest),
        consumed matches Err(error) ==> error.kind == ErrorKind::Internal && final(buffer)@ == old(
            buffer,
        )@,
        prefix matches Err(error) ==> error.kind == ErrorKind::Internal && octets::octets(rest)
            == old(buffer)@,
        final(whole)@.len() == 0,
{
    if count <= old(buffer)@.len() {
        assert(old(buffer)@.subrange(0, count as int) + old(buffer)@.subrange(
            count as int,
            old(buffer)@.len() as int,
        ) =~= old(buffer)@);
    }
}

/// A payload is the bytes of its range; what was consumed around it is gone, and what
/// follows stays. A range beyond what was consumed, or beyond the input, is refused
/// and changes nothing.
pub proof fn payload_is_taken_out(
    buffer: &mut RecvBuffer,
    payload: Range<usize>,
    consumed: usize,
    result: Result<IncomingData, Error>,
)
    requires
        call_ensures(RecvBuffer::take_payload, (buffer, payload, consumed), result),
    ensures
        result is Ok <==> payload.start <= payload.end && payload.end <= consumed && consumed
            <= old(buffer)@.len(),
        result matches Ok(data) ==> data@.len() == payload.end - payload.start && (forall|i: int|
            0 <= i < data@.len() ==> #[trigger] data@[i] == old(buffer)@[payload.start + i]),
        result is Ok ==> final(buffer)@.len() == old(buffer)@.len() - consumed && (forall|i: int|
            0 <= i < final(buffer)@.len() ==> #[trigger] final(buffer)@[i] == old(buffer)@[consumed
                + i]),
        result matches Ok(data) ==> (data.managed() <==> old(buffer).managed()),
        result is Ok && old(buffer).managed() ==> final(buffer).lease().held,
        result is Ok ==> !final(buffer).managed(),
        result matches Err(error) ==> error.kind == ErrorKind::Internal && *final(buffer) == *old(
            buffer,
        ),
{
}

/// A read is submitted exactly where it is not canceled and there is room. It asks for
/// a byte at least, and for no more than it prefers or than there is room for; until
/// it completes, what was received is kept.
pub proof fn reads_ask_for_what_fits(buffer: RecvBuffer, canceled: bool, result: ReadStart)
    requires
        call_ensures(RecvBuffer::read, (buffer, canceled), result),
        buffer@.len() <= buffer.most(),
        0 < buffer.preferred(),
    ensures
        result is Submit <==> !canceled && buffer@.len() < buffer.most(),
        result matches ReadStart::Submit { bytes, start, end, pending } ==> octets::held(bytes)
            == buffer@ && start == buffer@.len() && start < end <= buffer.most() && end - start
            <= buffer.preferred() && (end == buffer.most() || end - start == buffer.preferred())
            && pending.start == start && pending.target == end - start && pending.max_retained
            == buffer.most() && pending.preferred_read == buffer.preferred(),
        result matches ReadStart::Refused(error, kept) ==> kept@ == buffer@ && (!canceled
            ==> error.kind == ErrorKind::Limit),
        !(result is Lease),
{
}

/// A buffer is leased for a read exactly where nothing is retained, no earlier lease
/// is held and nobody canceled; the lease is no larger than the read prefers.
pub proof fn leases_need_an_empty_buffer(buffer: RecvBuffer, canceled: bool, result: ReadStart)
    requires
        call_ensures(RecvBuffer::read_managed, (buffer, canceled), result),
        0 < buffer.preferred() <= buffer.most(),
    ensures
        result is Lease ==> !canceled && buffer@.len() == 0 && !buffer.lease().held,
        canceled ==> result is Refused,
        !canceled && buffer@.len() == 0 && !buffer.lease().held ==> result is Lease,
        result matches ReadStart::Lease { limit, buffer: kept } ==> limit == buffer.preferred()
            && kept == buffer,
        result matches ReadStart::Submit { bytes, start, end, .. } ==> octets::held(bytes)
            == buffer@ && start == buffer@.len() && start < end <= buffer.most(),
{
}

/// What a completed read brought is counted as the reader counts it, where the buffer
/// agrees: no byte means the end, a count that is not what came in is an error, and so
/// is a failure.
pub proof fn completed_reads_are_counted(
    pending: PendingRead,
    bytes: BytesMut,
    result: Result<usize, std::io::Error>,
    completed: (Result<ReadStatus, Error>, RecvBuffer),
)
    requires
        call_ensures(PendingRead::complete, (pending, bytes, result), completed),
    ensures
        completed.1@ == octets::held(bytes),
        completed.0 matches Ok(ReadStatus::Data(count)) ==> result is Ok && result->Ok_0 == count
            && 0 < count <= pending.target && octets::held(bytes).len() == pending.start + count,
        completed.0 == Ok::<ReadStatus, Error>(ReadStatus::Eof) ==> result is Ok && result->Ok_0
            == 0 && octets::held(bytes).len() == pending.start,
        result matches Ok(count) ==> (count <= pending.target && octets::held(bytes).len()
            == pending.start + count ==> completed.0 is Ok),
        result is Ok ==> (completed.0 matches Err(error) ==> error.kind == ErrorKind::Io),
        result matches Err(cause) ==> (completed.0 matches Err(error) && (io::cancels(cause)
            <==> error.kind == ErrorKind::Canceled) && (error.source matches Some(Source::Io(kept))
            && *kept == cause)),
        completed.1.most() == pending.max_retained,
        completed.1.preferred() == pending.preferred_read,
        completed.1.lease() == pending.managed_permit,
{
}

/// A leased buffer is taken in as it is: it holds a byte at least and no more than was
/// asked for, and all of it is input.
pub proof fn leased_input_is_taken_in(
    brought: Result<Option<Leased>, std::io::Error>,
    requested: usize,
    checked: Result<Option<Leased>, Error>,
    buffer: RecvBuffer,
    completed: (Result<ReadStatus, Error>, RecvBuffer),
)
    requires
        call_ensures(managed::checked_lease, (brought, requested), checked),
        call_ensures(RecvBuffer::complete_managed, (buffer, checked), completed),
    ensures
        checked matches Ok(Some(lease)) ==> brought is Ok && brought->Ok_0 == Some(lease)
            && lease.bytes().len() > 0 && (requested != 0 ==> lease.bytes().len() <= requested),
        brought matches Ok(Some(lease)) ==> (lease.bytes().len() > 0 && (requested == 0
            || lease.bytes().len() <= requested) ==> checked is Ok),
        brought is Ok ==> (checked matches Err(error) ==> error.kind == ErrorKind::Internal),
        (brought matches Ok(None)) <==> (checked matches Ok(None)),
        brought matches Err(cause) ==> (checked matches Err(error) && (io::cancels(cause)
            <==> error.kind == ErrorKind::Canceled)),
        checked matches Ok(Some(lease)) ==> completed.1@ == lease.bytes() && completed.0 == Ok::<
            ReadStatus,
            Error,
        >(ReadStatus::Data(lease.bytes().len() as usize)),
        (checked matches Ok(None)) ==> completed.0 == Ok::<ReadStatus, Error>(ReadStatus::Eof)
            && completed.1 == buffer,
        checked matches Err(error) ==> completed.0 == Err::<ReadStatus, Error>(error)
            && completed.1 == buffer,
{
}

/// An empty buffer keeps up to four reads' worth of storage, and never more than its
/// bound.
pub proof fn storage_is_let_go(capacity: usize, preferred: usize, most: usize, result: bool)
    requires
        call_ensures(recv::is_oversized, (capacity, preferred, most), result),
    ensures
        !result <==> capacity <= most && capacity <= 4 * preferred || capacity <= most && most <= 4
            * preferred,
{
}

/// A write that reports progress has made it, within what there was. One that was
/// interrupted is tried again, one that wrote nothing or too much fails, and every
/// other failure is kept.
pub proof fn writes_make_progress(
    result: Result<usize, std::io::Error>,
    remaining: usize,
    progress: Result<usize, std::io::Error>,
)
    requires
        call_ensures(send::checked_progress, (result, remaining), progress),
    ensures
        result matches Ok(count) ==> (progress is Ok <==> 0 < count <= remaining),
        result matches Ok(count) ==> (progress matches Ok(made) ==> made == count),
        result matches Ok(0) ==> (progress matches Err(error) && io::kind_of(error)
            == IoKind::WriteZero),
        result matches Ok(count) ==> (count > remaining && count > 0 ==> (
        progress matches Err(error) && io::kind_of(error) == IoKind::InvalidData)),
        result matches Err(cause) ==> (progress is Ok <==> io::kind_of(cause)
            == IoKind::Interrupted),
        result is Err ==> (progress matches Ok(made) ==> made == 0),
        result matches Err(cause) ==> (progress matches Err(error) ==> error == cause),
{
}

/// A write goes on from where it stopped until everything is written: it is done
/// exactly then, and a cancellation stops it only before.
pub proof fn writes_go_on_to_the_end(
    length: usize,
    fresh: Cursor,
    cursor: &mut Cursor,
    result: Result<usize, std::io::Error>,
    progress: Result<usize, std::io::Error>,
    canceled: bool,
    action: WriteAction,
)
    requires
        call_ensures(Cursor::new, (length,), fresh),
        call_ensures(Cursor::advance, (cursor, result), progress),
        call_ensures(Cursor::next, (&*final(cursor), canceled), action),
        old(cursor).written <= old(cursor).length,
    ensures
        fresh.written == 0 && fresh.length == length,
        final(cursor).length == old(cursor).length,
        progress matches Ok(count) ==> final(cursor).written == old(cursor).written + count,
        progress is Err ==> final(cursor).written == old(cursor).written,
        action is Done <==> final(cursor).written == final(cursor).length,
        action matches WriteAction::Done(written) ==> written == old(cursor).length,
        action is Canceled <==> canceled && final(cursor).written != final(cursor).length,
        action matches WriteAction::Canceled(error) ==> io::cancels(error),
        action matches WriteAction::Submit { from, to } ==> from == final(cursor).written && to
            == old(cursor).length,
{
}

/// Several buffers are as long as all of them.
pub proof fn buffers_add_up(
    first: usize,
    second: usize,
    lengths: &[usize],
    result: Result<Cursor, std::io::Error>,
)
    requires
        call_ensures(Cursor::over, (lengths,), result),
        lengths@ == seq![first, second],
    ensures
        result is Ok <==> first + second <= usize::MAX,
        result matches Ok(cursor) ==> cursor.written == 0 && cursor.length == first + second,
        result matches Err(error) ==> io::kind_of(error) == IoKind::InvalidInput,
{
    reveal_with_fuel(send::total, 3);
    assert(lengths@.drop_last() =~= seq![first]);
    assert(lengths@.drop_last().drop_last() =~= Seq::<usize>::empty());
}

/// Without a timeout there is no deadline. A deadline lies behind its start by the
/// timeout; it has passed once that much time has, and not before.
pub proof fn deadlines_pass_in_time(
    start: Instant,
    timeout: Option<Duration>,
    result: Result<Option<Instant>, std::io::Error>,
    now: Instant,
    passed: bool,
)
    requires
        call_ensures(deadline::after_from, (&start, timeout), result),
        result is Ok,
        call_ensures(deadline::expired, (result->Ok_0, &now), passed),
    ensures
        timeout is None <==> result->Ok_0 is None,
        timeout is None ==> !passed,
        timeout matches Some(duration) ==> (passed <==> time::moment(now) >= time::moment(start)
            + time::nanos(duration)),
{
}

/// A timeout is refused only where it is not empty, and with an error that says what
/// is wrong.
pub proof fn refused_timeouts_are_told(
    start: Instant,
    timeout: Option<Duration>,
    result: Result<Option<Instant>, std::io::Error>,
    configured: Result<Option<Instant>, Error>,
)
    requires
        call_ensures(deadline::after_from, (&start, timeout), result),
        call_ensures(deadline::configured, (result,), configured),
    ensures
        result matches Err(error) ==> (timeout matches Some(duration) && time::nanos(duration) > 0)
            && io::kind_of(error) == IoKind::InvalidInput && !io::cancels(error),
        result matches Ok(deadline) ==> configured == Ok::<Option<Instant>, Error>(deadline),
        result matches Err(cause) ==> (configured matches Err(error) && error.kind
            == ErrorKind::LocalMessage && (error.source matches Some(Source::Io(kept)) && *kept
            == cause)),
{
}

/// A deadline that elapsed takes the place of success and of a cancellation, and of
/// nothing else; one that did not elapse changes nothing.
pub proof fn elapsed_deadlines_hide_no_failure<T>(
    written: Result<T, std::io::Error>,
    read: Result<T, Error>,
    elapsed: bool,
    write: Result<T, std::io::Error>,
    receive: Result<T, Error>,
)
    requires
        call_ensures(deadline::timed::<T>, (written, elapsed), write),
        call_ensures(deadline::timed_read::<T>, (read, elapsed), receive),
    ensures
        !elapsed ==> write == written && receive == read,
        elapsed && written is Ok ==> (write matches Err(error) && io::kind_of(error)
            == IoKind::TimedOut && !io::cancels(error)),
        elapsed && read is Ok ==> (receive matches Err(error) && error.kind == ErrorKind::Timeout),
        elapsed ==> (written matches Err(cause) ==> (write matches Err(error) && if io::cancels(
            cause,
        ) {
            io::kind_of(error) == IoKind::TimedOut && !io::cancels(error)
        } else {
            error == cause
        })),
        elapsed ==> (read matches Err(cause) ==> (receive matches Err(error) && if cause.kind
            == ErrorKind::Canceled {
            error.kind == ErrorKind::Timeout
        } else {
            error == cause
        })),
{
}

/// A deadline is what adding its timeout gave; where there is none, the error says so.
pub proof fn sums_become_deadlines(
    sum: Option<Instant>,
    result: Result<Instant, std::io::Error>,
    cause: std::io::Error,
    failure: Error,
)
    requires
        call_ensures(deadline::represented, (sum,), result),
        call_ensures(managed::map_error, (cause,), failure),
    ensures
        sum matches Some(instant) ==> result == Ok::<Instant, std::io::Error>(instant),
        sum is None ==> (result matches Err(error) && io::kind_of(error) == IoKind::InvalidInput),
        failure.kind == ErrorKind::Canceled <==> io::cancels(cause),
        failure.source matches Some(Source::Io(kept)) && *kept == cause,
{
}

/// A buffer shows what it retains, and a lease that was released is not held.
pub proof fn buffers_show_what_they_retain(
    buffer: RecvBuffer,
    bytes: &[u8],
    length: usize,
    leased: bool,
    returned: &mut RecvBuffer,
)
    requires
        call_ensures(RecvBuffer::bytes, (&buffer,), bytes),
        call_ensures(RecvBuffer::len, (&buffer,), length),
        call_ensures(RecvBuffer::is_leased, (&buffer,), leased),
        call_ensures(RecvBuffer::lease_released, (returned,), ()),
    ensures
        bytes@ == buffer@,
        length == buffer@.len(),
        leased == buffer.lease().held,
        !final(returned).lease().held,
        final(returned)@ == old(returned)@,
{
}

} // verus!
