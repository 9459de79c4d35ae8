//! Bodies gathered into one run of bytes.

use crate::ascii::{self, decimal_text};
use crate::body::frame::{Frame, Kind};
use crate::body::size_hint::SizeHint;
use crate::body::{Buffer, TrailerHint};
use crate::outside::memory;
use crate::outside::octets;
use crate::outside::text::write_text;
use bytes::Bytes;
use http::HeaderMap;
use std::collections::TryReserveError;
use vstd::prelude::*;
use vstd::string::StringExecFns;

verus! {

/// A bounded body collected into contiguous bytes and optional trailers.
#[derive(Debug)]
pub struct Collected {
    data: Bytes,
    trailers: Option<HeaderMap>,
}

impl Collected {
    /// The bytes of the body.
    pub closed spec fn payload(self) -> Seq<u8> {
        octets::octets(self.data)
    }

    /// The trailers of the body.
    pub closed spec fn fields(self) -> Option<HeaderMap> {
        self.trailers
    }

    /// Returns the collected body bytes.
    pub fn bytes(&self) -> (result: &Bytes)
        ensures
            octets::octets(*result) == self.payload(),
    {
        &self.data
    }

    /// Returns the received trailers, when the body supplied them.
    pub fn trailers(&self) -> (result: Option<&HeaderMap>)
        ensures
            match self.fields() {
                Some(trailers) => result == Some(&trailers),
                None => result is None,
            },
    {
        self.trailers.as_ref()
    }

    /// Separates the collected bytes and trailers without copying.
    pub fn into_parts(self) -> (result: (Bytes, Option<HeaderMap>))
        ensures
            octets::octets(result.0) == self.payload(),
            result.1 == self.fields(),
    {
        (self.data, self.trailers)
    }

    /// The collected body bytes.
    pub fn as_ref(&self) -> (result: &[u8])
        ensures
            result@ == self.payload(),
    {
        octets::as_slice(&self.data)
    }
}

/// An error produced while collecting a bounded body.
#[derive(Debug)]
pub enum CollectError<E> {
    /// The source body failed while producing its next frame.
    Body(E),
    /// The collected data would exceed the caller's byte limit.
    LimitExceeded {
        /// The maximum number of bytes accepted by the operation.
        limit: usize,
    },
    /// Aggregate frame lengths overflowed the platform's address space.
    LengthOverflow,
    /// Reserving bounded output storage failed.
    Allocation(TryReserveError),
    /// The body emitted data outside its declared remaining-size bounds.
    LengthMismatch,
    /// The body produced trailers despite promising none.
    UnexpectedTrailers,
    /// The body emitted frames in an invalid order.
    InvalidSequence,
}

impl<E> CollectError<E> {
    /// The text that stands for the error. It holds nothing of the cause.
    pub open spec fn shown(&self) -> Seq<char> {
        match self {
            CollectError::Body(_) => "body failed while being collected"@,
            CollectError::LimitExceeded { limit } => "body exceeds collection limit of "@
                + ascii::decimal_chars(*limit as nat) + " bytes"@,
            CollectError::LengthOverflow => "collected body length overflowed"@,
            CollectError::Allocation(_) => "could not allocate bounded body storage"@,
            CollectError::LengthMismatch => "body length did not match its size hint"@,
            CollectError::UnexpectedTrailers => "body produced unexpected trailers"@,
            CollectError::InvalidSequence => "body emitted an invalid frame sequence"@,
        }
    }

    pub fn display_text(&self) -> (result: String)
        ensures
            result@ == self.shown(),
    {
        match self {
            CollectError::Body(_) => "body failed while being collected".to_owned(),
            CollectError::LimitExceeded { limit } => {
                let mut text = "body exceeds collection limit of ".to_owned();
                text.append(decimal_text(*limit as u64).as_str());
                text.append(" bytes");
                text
            },
            CollectError::LengthOverflow => "collected body length overflowed".to_owned(),
            CollectError::Allocation(_) => "could not allocate bounded body storage".to_owned(),
            CollectError::LengthMismatch => "body length did not match its size hint".to_owned(),
            CollectError::UnexpectedTrailers => "body produced unexpected trailers".to_owned(),
            CollectError::InvalidSequence => "body emitted an invalid frame sequence".to_owned(),
        }
    }
}

impl<E> core::fmt::Display for CollectError<E> {
    fn fmt(&self, formatter: &mut core::fmt::Formatter<'_>) -> Result<(), core::fmt::Error> {
        write_text(formatter, self.display_text().as_str())
    }
}

/// Why lengths do not add up to one that is allowed.
#[derive(Clone, Copy, Debug, PartialEq, Eq, Structural)]
pub enum AggregateError {
    Overflow,
    Limit { limit: usize },
}

/// The sum of two lengths, within a limit. That the sum is no length at all comes
/// before that it exceeds the limit.
pub fn checked_total(current: usize, additional: usize, limit: usize) -> (result: Result<
    usize,
    AggregateError,
>)
    ensures
        result == (if current + additional > usize::MAX {
            Err(AggregateError::Overflow)
        } else if current + additional > limit {
            Err(AggregateError::Limit { limit })
        } else {
            Ok((current + additional) as usize)
        }),
{
    let total = match current.checked_add(additional) {
        Some(total) => total,
        None => return Err(AggregateError::Overflow),
    };
    if total > limit {
        return Err(AggregateError::Limit { limit });
    }
    Ok(total)
}

/// The room to have for a length: twice as much as there is, within the limit.
pub open spec fn growth(capacity: nat, new_len: nat, limit: nat) -> nat {
    let wanted = if 2 * capacity > new_len {
        2 * capacity
    } else {
        new_len
    };
    if wanted < limit {
        wanted
    } else {
        limit
    }
}

/// The room to have for a length that there is no room for.
pub fn grown(capacity: usize, new_len: usize, limit: usize) -> (result: usize)
    requires
        new_len <= limit,
    ensures
        result == growth(capacity as nat, new_len as nat, limit as nat),
        new_len <= result <= limit,
{
    let doubled = if capacity <= usize::MAX / 2 {
        capacity * 2
    } else {
        usize::MAX
    };
    let wanted = if doubled > new_len {
        doubled
    } else {
        new_len
    };
    if wanted < limit {
        wanted
    } else {
        limit
    }
}

/// How many bytes more there has to be room for, behind `len` bytes in storage of
/// this capacity, `None` where the length fits as it is.
pub fn shortfall(capacity: usize, len: usize, new_len: usize, limit: usize) -> (result: Option<
    usize,
>)
    requires
        len <= new_len <= limit,
    ensures
        result == (if new_len <= capacity {
            None
        } else {
            Some((growth(capacity as nat, new_len as nat, limit as nat) - len) as usize)
        }),
        result matches Some(additional) ==> new_len <= len + additional <= limit,
{
    if new_len <= capacity {
        return None;
    }
    Some(grown(capacity, new_len, limit) - len)
}

/// Makes room for a length. The bytes stay as they are. The machine has no say
/// where the length is the one there is already; how much room there is beyond the
/// bytes, and whether it gives more, is up to the allocator.
pub fn reserve_for_append(data: &mut Vec<u8>, new_len: usize, limit: usize) -> (result: Result<
    (),
    TryReserveError,
>)
    requires
        old(data)@.len() <= new_len <= limit,
    ensures
        final(data)@ == old(data)@,
        new_len == old(data)@.len() ==> result is Ok,
{
    match shortfall(memory::capacity(data), data.len(), new_len, limit) {
        None => Ok(()),
        Some(additional) => memory::reserve_exact(data, additional),
    }
}

/// What a payload is refused for behind the bytes that were collected.
pub open spec fn payload_refusal<E>(
    collected: nat,
    payload: nat,
    limit: usize,
    hint: SizeHint,
    after_trailers: bool,
) -> Option<CollectError<E>> {
    if after_trailers {
        Some(CollectError::InvalidSequence)
    } else if collected + payload > usize::MAX {
        Some(CollectError::LengthOverflow)
    } else if collected + payload > limit {
        Some(CollectError::LimitExceeded { limit })
    } else if hint.high() matches Some(upper) && collected + payload > upper {
        Some(CollectError::LengthMismatch)
    } else {
        None
    }
}

/// Adds a payload to the bytes that were collected, for which `reserved` says
/// whether there is room. Nothing is added where it is refused.
pub fn append_reserved<E>(
    data: &mut Vec<u8>,
    frame: &[u8],
    reserved: Result<(), TryReserveError>,
) -> (result: Result<(), CollectError<E>>)
    ensures
        match reserved {
            Ok(()) => result is Ok && final(data)@ == old(data)@ + frame@,
            Err(error) => result == Err::<(), CollectError<E>>(CollectError::Allocation(error))
                && final(data)@ == old(data)@,
        },
{
    match reserved {
        Ok(()) => {
            data.extend_from_slice(frame);
            assert(data@ =~= old(data)@ + frame@);
            Ok(())
        },
        Err(error) => Err(CollectError::Allocation(error)),
    }
}

/// Adds a payload to the bytes that were collected. One that the machine has no
/// memory for is refused like the others; nothing is added then. A payload without
/// bytes needs no memory.
pub fn append<E>(
    data: &mut Vec<u8>,
    frame: &[u8],
    limit: usize,
    hint: SizeHint,
    after_trailers: bool,
) -> (result: Result<(), CollectError<E>>)
    ensures
        match payload_refusal::<E>(
            old(data)@.len(),
            frame@.len(),
            limit,
            hint,
            after_trailers,
        ) {
            Some(refusal) => result == Err::<(), CollectError<E>>(refusal) && final(data)@ == old(
                data)@,
            None => match result {
                Ok(()) => final(data)@ == old(data)@ + frame@,
                Err(error) => error is Allocation && frame@.len() > 0 && final(data)@ == old(data)@,
            },
        },
{
    if after_trailers {
        return Err(CollectError::InvalidSequence);
    }
    let new_len = match checked_total(data.len(), frame.len(), limit) {
        Ok(total) => total,
        Err(AggregateError::Overflow) => return Err(CollectError::LengthOverflow),
        Err(AggregateError::Limit { limit }) => return Err(CollectError::LimitExceeded { limit }),
    };
    if let Some(upper) = hint.upper() {
        if new_len as u64 > upper {
            return Err(CollectError::LengthMismatch);
        }
    }
    let reserved = reserve_for_append(data, new_len, limit);
    append_reserved(data, frame, reserved)
}

/// Collects the frames of one body, up to an explicit payload-byte limit.
///
/// Data is copied into contiguous storage and handed back for its producer.
/// Trailers are kept separately. The size bounds and the trailer capability that
/// the body announced are checked against what it yields.
#[derive(Debug)]
pub struct Collector {
    pub data: Vec<u8>,
    pub trailers: Option<HeaderMap>,
    pub hint: SizeHint,
    pub trailer_hint: TrailerHint,
    pub max_bytes: usize,
}

/// Why a body is not collected at all, if it is not: it announces more than is
/// allowed.
pub open spec fn announcement_refusal<E>(hint: SizeHint, max_bytes: usize) -> Option<
    CollectError<E>,
> {
    if hint.low() > max_bytes {
        Some(CollectError::LimitExceeded { limit: max_bytes })
    } else {
        None
    }
}

impl Collector {
    /// What was collected keeps to the limit and to the bounds that the body
    /// announced.
    pub open spec fn wf(self) -> bool {
        &&& self.data@.len() <= self.max_bytes
        &&& self.hint.low() <= self.max_bytes
        &&& self.hint.high() matches Some(upper) ==> self.data@.len() <= upper
        &&& self.trailers is Some ==> self.trailer_hint == TrailerHint::MayHave
    }

    /// Starts to collect a body, from what it announces. A body that announces
    /// more than the limit is not asked for anything.
    pub fn new<E>(hint: SizeHint, trailer_hint: TrailerHint, max_bytes: usize) -> (result: Result<
        Self,
        CollectError<E>,
    >)
        ensures
            match result {
                Ok(collector) => {
                    &&& announcement_refusal::<E>(hint, max_bytes) is None
                    &&& collector.wf()
                    &&& collector.data@ == Seq::<u8>::empty()
                    &&& collector.trailers is None
                    &&& collector.hint == hint
                    &&& collector.trailer_hint == trailer_hint
                    &&& collector.max_bytes == max_bytes
                },
                Err(error) => announcement_refusal::<E>(hint, max_bytes) == Some(error) || (
                announcement_refusal::<E>(hint, max_bytes) is None && hint.agreed() is Some
                    && hint.low() > 0 && error is Allocation),
            },
    {
        if hint.lower() > max_bytes as u64 {
            return Err(CollectError::LimitExceeded { limit: max_bytes });
        }
        let mut data: Vec<u8> = Vec::new();
        let reserved = match hint.exact() {
            // An exact length is also the lower bound, so it is within the limit.
            Some(length) if length > 0 => memory::reserve_exact(&mut data, length as usize),
            _ => Ok(()),
        };
        Collector::new_reserved(data, hint, trailer_hint, max_bytes, reserved)
    }

    /// Starts to collect a body into storage, for which `reserved` says whether
    /// there is room.
    pub fn new_reserved<E>(
        data: Vec<u8>,
        hint: SizeHint,
        trailer_hint: TrailerHint,
        max_bytes: usize,
        reserved: Result<(), TryReserveError>,
    ) -> (result: Result<Self, CollectError<E>>)
        requires
            data@.len() == 0,
        ensures
            match announcement_refusal::<E>(hint, max_bytes) {
                Some(refusal) => result == Err::<Self, CollectError<E>>(refusal),
                None => match reserved {
                    Err(error) => result == Err::<Self, CollectError<E>>(
                        CollectError::Allocation(error),
                    ),
                    Ok(()) => result == Ok::<Self, CollectError<E>>(
                        Collector { data, trailers: None, hint, trailer_hint, max_bytes },
                    ) && result->Ok_0.wf(),
                },
            },
    {
        if hint.lower() > max_bytes as u64 {
            return Err(CollectError::LimitExceeded { limit: max_bytes });
        }
        match reserved {
            Ok(()) => Ok(Collector { data, trailers: None, hint, trailer_hint, max_bytes }),
            Err(error) => Err(CollectError::Allocation(error)),
        }
    }

    /// Takes in a frame. A payload is handed back for its producer, whether it was
    /// taken in or not.
    pub fn take<D: Buffer, E>(&mut self, frame: Frame<D>) -> (result: (
        Option<D>,
        Result<(), CollectError<E>>,
    ))
        requires
            old(self).wf(),
        ensures
            final(self).wf(),
            final(self).hint == old(self).hint,
            final(self).trailer_hint == old(self).trailer_hint,
            final(self).max_bytes == old(self).max_bytes,
            match frame.kind {
                Kind::Data(data) => {
                    &&& result.0 == Some(data)
                    &&& final(self).trailers == old(self).trailers
                    &&& match payload_refusal::<E>(
                        old(self).data@.len(),
                        data.contents().len(),
                        old(self).max_bytes,
                        old(self).hint,
                        old(self).trailers is Some,
                    ) {
                        Some(refusal) => result.1 == Err::<(), CollectError<E>>(refusal) && final(
                            self).data@ == old(self).data@,
                        None => match result.1 {
                            Ok(()) => final(self).data@ == old(self).data@ + data.contents(),
                            Err(error) => error is Allocation && data.contents().len() > 0
                                && final(self).data@ == old(self).data@,
                        },
                    }
                },
                Kind::Trailers(trailers) => {
                    &&& result.0 is None
                    &&& final(self).data@ == old(self).data@
                    &&& if old(self).trailers is Some {
                        result.1 == Err::<(), CollectError<E>>(CollectError::InvalidSequence)
                            && final(self).trailers == old(self).trailers
                    } else if old(self).trailer_hint == TrailerHint::Absent {
                        result.1 == Err::<(), CollectError<E>>(CollectError::UnexpectedTrailers)
                            && final(self).trailers == old(self).trailers
                    } else {
                        result.1 is Ok && final(self).trailers == Some(trailers)
                    }
                },
            },
    {
        match frame.kind {
            Kind::Data(data) => {
                let after_trailers = self.trailers.is_some();
                let appended = append(
                    &mut self.data,
                    data.as_init(),
                    self.max_bytes,
                    self.hint,
                    after_trailers,
                );
                (Some(data), appended)
            },
            Kind::Trailers(trailers) => {
                if self.trailers.is_some() {
                    return (None, Err(CollectError::InvalidSequence));
                }
                if self.trailer_hint == TrailerHint::Absent {
                    return (None, Err(CollectError::UnexpectedTrailers));
                }
                self.trailers = Some(trailers);
                (None, Ok(()))
            },
        }
    }

    /// Ends behind the last frame. A body that yielded less than it announced is
    /// refused.
    pub fn finish<E>(self) -> (result: Result<Collected, CollectError<E>>)
        ensures
            match result {
                Ok(collected) => self.data@.len() >= self.hint.low() && collected.payload()
                    == self.data@ && collected.fields() == self.trailers,
                Err(error) => self.data@.len() < self.hint.low() && error
                    == CollectError::<E>::LengthMismatch,
            },
    {
        if (self.data.len() as u64) < self.hint.lower() {
            return Err(CollectError::LengthMismatch);
        }
        Ok(Collected { data: octets::from_vec(self.data), trailers: self.trailers })
    }
}

/// The payload of frames, put together.
pub open spec fn joined<D: Buffer>(frames: Seq<Frame<D>>) -> Seq<u8>
    decreases frames.len(),
{
    if frames.len() == 0 {
        Seq::empty()
    } else {
        joined(frames.drop_last()) + (match frames.last().kind {
            Kind::Data(data) => data.contents(),
            Kind::Trailers(_) => Seq::empty(),
        })
    }
}

/// Whether a collector follows another one by a frame that it took in.
pub open spec fn took<D: Buffer>(before: Collector, after: Collector, frame: Frame<D>) -> bool {
    &&& after.wf()
    &&& after.hint == before.hint
    &&& after.max_bytes == before.max_bytes
    &&& match frame.kind {
        Kind::Data(data) => after.data@ == before.data@ + data.contents(),
        Kind::Trailers(_) => after.data@ == before.data@,
    }
}

/// What is collected is the payload of the frames put together, in their order,
/// and never more than the limit.
pub proof fn collected_is_joined<D: Buffer>(states: Seq<Collector>, frames: Seq<Frame<D>>)
    requires
        states.len() == frames.len() + 1,
        states[0].wf(),
        states[0].data@ == Seq::<u8>::empty(),
        forall|i: int|
            0 <= i < frames.len() ==> took(states[i], states[i + 1], #[trigger] frames[i]),
    ensures
        states.last().data@ == joined(frames),
        joined(frames).len() <= states[0].max_bytes,
    decreases frames.len(),
{
    if frames.len() > 0 {
        let last = frames.len() - 1;
        assert(took(states[last], states[last + 1], frames[last]));
        assert forall|i: int| 0 <= i < frames.drop_last().len() implies took(
            states.drop_last()[i],
            states.drop_last()[i + 1],
            #[trigger] frames.drop_last()[i],
        ) by {
            assert(frames.drop_last()[i] == frames[i]);
        }
        collected_is_joined(states.drop_last(), frames.drop_last());
        limit_is_kept(states, frames);
    }
}

proof fn limit_is_kept<D: Buffer>(states: Seq<Collector>, frames: Seq<Frame<D>>)
    requires
        states.len() == frames.len() + 1,
        forall|i: int|
            0 <= i < frames.len() ==> took(states[i], states[i + 1], #[trigger] frames[i]),
    ensures
        states.last().max_bytes == states[0].max_bytes,
    decreases frames.len(),
{
    if frames.len() > 0 {
        let last = frames.len() - 1;
        assert(took(states[last], states[last + 1], frames[last]));
        assert forall|i: int| 0 <= i < frames.drop_last().len() implies took(
            states.drop_last()[i],
            states.drop_last()[i + 1],
            #[trigger] frames.drop_last()[i],
        ) by {
            assert(frames.drop_last()[i] == frames[i]);
        }
        limit_is_kept(states.drop_last(), frames.drop_last());
    }
}

} // verus!
