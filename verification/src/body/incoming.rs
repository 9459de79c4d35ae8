//! Bodies that a connection receives.

use crate::ascii::{self, decimal_text};
use crate::body::frame::{Frame, Kind};
use crate::body::pipe::TakeError;
use crate::body::size_hint::SizeHint;
use crate::body::{Buffer, TrailerHint};
use crate::error::{Error, ErrorKind};
use crate::io::deadline;
use crate::outside::octets;
use crate::outside::text::{is_alternate, write_text};
use crate::outside::time;
use bytes::Bytes;
use std::ops::Range;
use std::rc::Rc;
use std::time::{Duration, Instant};
use vstd::prelude::*;
use vstd::string::StringExecFns;

verus! {

/// The budgets of discarding the rest of a body.
#[derive(Clone, Copy, Debug)]
pub struct DrainConfig {
    pub timeout: Duration,
    pub wire_allowance: u64,
}

impl Default for DrainConfig {
    fn default() -> (result: Self)
        ensures
            time::nanos(result.timeout) == 5_000_000_000,
            result.wire_allowance == 65536,
    {
        DrainConfig { timeout: time::seconds(5), wire_allowance: 65536 }
    }
}

/// Limits one connection to one managed lease retained by application data.
#[derive(Debug)]
pub struct ManagedLeasePermit {
    pub held: bool,
}

impl ManagedLeasePermit {
    pub fn new() -> (result: Self)
        ensures
            !result.held,
    {
        ManagedLeasePermit { held: false }
    }

    pub fn is_held(&self) -> (result: bool)
        ensures
            result == self.held,
    {
        self.held
    }

    /// Says that every view of the lease is gone.
    pub fn release(&mut self)
        ensures
            !final(self).held,
    {
        self.held = false;
    }
}

/// A receive buffer that belongs to a pool and returns to it.
pub struct Leased {
    pub buffer: Box<dyn Buffer>,
}

impl Leased {
    pub open spec fn bytes(self) -> Seq<u8> {
        self.buffer.contents()
    }

    /// The bytes that were received into the buffer.
    pub fn as_init(&self) -> (result: &[u8])
        ensures
            result@ == self.bytes(),
    {
        self.buffer.as_init()
    }
}

/// Where the bytes of a payload segment are.
enum IncomingStorage {
    Shared(Bytes),
    Managed { incoming: Rc<Leased>, range: Range<usize> },
}

/// An immutable owned payload segment from a received HTTP body.
///
/// The private storage may be backed by ordinary [`Bytes`] or by a managed
/// receive buffer. Clones and slices share storage without copying. Data stays
/// valid after its body or connection is dropped.
pub struct IncomingData {
    storage: IncomingStorage,
}

/// The end of a range, as ranges are written.
#[derive(Clone, Copy, Debug, PartialEq, Eq, Structural)]
pub enum Edge {
    Included(usize),
    Excluded(usize),
    Unbounded,
}

/// Where a range starts that begins at an edge.
pub open spec fn range_start(edge: Edge) -> nat {
    match edge {
        Edge::Included(start) => start as nat,
        Edge::Excluded(start) => (start + 1) as nat,
        Edge::Unbounded => 0,
    }
}

/// Where a range ends that stops at an edge.
pub open spec fn range_end(edge: Edge, length: nat) -> nat {
    match edge {
        Edge::Included(end) => (end + 1) as nat,
        Edge::Excluded(end) => end as nat,
        Edge::Unbounded => length,
    }
}

/// The range between two edges.
pub fn normalize_range(start: Edge, end: Edge, length: usize) -> (result: Range<usize>)
    requires
        range_start(start) <= range_end(end, length as nat) <= length,
    ensures
        result.start == range_start(start),
        result.end == range_end(end, length as nat),
{
    let start = match start {
        Edge::Included(start) => start,
        Edge::Excluded(start) => start + 1,
        Edge::Unbounded => 0,
    };
    let end = match end {
        Edge::Included(end) => end + 1,
        Edge::Excluded(end) => end,
        Edge::Unbounded => length,
    };
    start..end
}

impl View for IncomingData {
    type V = Seq<u8>;

    closed spec fn view(&self) -> Seq<u8> {
        match self.storage {
            IncomingStorage::Shared(bytes) => octets::octets(bytes),
            IncomingStorage::Managed { incoming, range } => incoming.bytes().subrange(
                range.start as int,
                range.end as int,
            ),
        }
    }
}

/// Why a managed segment cannot be made, if it cannot.
pub open spec fn managed_refusal(length: nat, range: Range<usize>, held: bool) -> Option<Error> {
    if range.start > range.end || range.end > length {
        Some(
            Error {
                kind: ErrorKind::Internal,
                context: "managed incoming-data view lies outside initialized bytes",
                source: None,
            },
        )
    } else if held {
        Some(
            Error {
                kind: ErrorKind::Internal,
                context: "connection attempted to transfer multiple managed leases",
                source: None,
            },
        )
    } else {
        None
    }
}

impl IncomingData {
    /// A managed segment lies within its buffer.
    #[verifier::type_invariant]
    spec fn within(self) -> bool {
        self.storage matches IncomingStorage::Managed { incoming, range } ==> range.start
            <= range.end <= incoming.bytes().len()
    }

    /// A segment of ordinary bytes.
    pub fn from_bytes(bytes: Bytes) -> (result: Self)
        ensures
            result@ == octets::octets(bytes),
            !result.managed(),
    {
        IncomingData { storage: IncomingStorage::Shared(bytes) }
    }

    /// A segment of a managed buffer, which from then on holds the permit of its
    /// connection.
    pub fn from_managed(
        buffer: Leased,
        range: Range<usize>,
        permit: &mut ManagedLeasePermit,
    ) -> (result: Result<Self, Error>)
        ensures
            match managed_refusal(buffer.bytes().len(), range, old(permit).held) {
                Some(refusal) => result == Err::<Self, Error>(refusal) && final(permit).held
                    == old(permit).held,
                None => final(permit).held && (result matches Ok(data) && data.managed() && data@
                    == buffer.bytes().subrange(range.start as int, range.end as int)),
            },
    {
        let length = buffer.as_init().len();
        if range.start > range.end || range.end > length {
            return Err(
                Error::new(
                    ErrorKind::Internal,
                    "managed incoming-data view lies outside initialized bytes",
                ),
            );
        }
        if permit.held {
            return Err(
                Error::new(
                    ErrorKind::Internal,
                    "connection attempted to transfer multiple managed leases",
                ),
            );
        }
        permit.held = true;
        Ok(
            IncomingData {
                storage: IncomingStorage::Managed { incoming: Rc::new(buffer), range },
            },
        )
    }

    /// Whether the segment is part of a managed buffer.
    pub closed spec fn managed(self) -> bool {
        self.storage is Managed
    }

    pub fn is_managed(&self) -> (result: bool)
        ensures
            result == self.managed(),
    {
        match &self.storage {
            IncomingStorage::Managed { .. } => true,
            IncomingStorage::Shared(_) => false,
        }
    }

    /// Returns the number of bytes remaining in this payload view.
    pub fn len(&self) -> (result: usize)
        ensures
            result == self@.len(),
    {
        proof {
            use_type_invariant(self);
        }
        match &self.storage {
            IncomingStorage::Shared(bytes) => octets::as_slice(bytes).len(),
            IncomingStorage::Managed { range, .. } => range.end - range.start,
        }
    }

    /// Returns `true` when this payload view contains no remaining bytes.
    pub fn is_empty(&self) -> (result: bool)
        ensures
            result == (self@.len() == 0),
    {
        self.len() == 0
    }

    /// Returns an owned view of a subrange without copying its payload bytes.
    ///
    /// Advancing either value changes only that value's local view.
    pub fn slice(&self, range: Range<usize>) -> (result: Self)
        requires
            range.start <= range.end <= self@.len(),
        ensures
            result@ == self@.subrange(range.start as int, range.end as int),
            result.managed() == self.managed(),
    {
        proof {
            use_type_invariant(self);
        }
        match &self.storage {
            IncomingStorage::Shared(bytes) => IncomingData::from_bytes(
                octets::slice(bytes, range.start, range.end),
            ),
            IncomingStorage::Managed { incoming, range: current } => {
                let result = IncomingData {
                    storage: IncomingStorage::Managed {
                        incoming: Rc::clone(incoming),
                        range: current.start + range.start..current.start + range.end,
                    },
                };
                assert(result@ =~= self@.subrange(range.start as int, range.end as int));
                result
            },
        }
    }

    /// The bytes of this payload view.
    pub fn as_ref(&self) -> (result: &[u8])
        ensures
            result@ == self@,
    {
        proof {
            use_type_invariant(self);
        }
        match &self.storage {
            IncomingStorage::Shared(bytes) => octets::as_slice(bytes),
            IncomingStorage::Managed { incoming, range } => {
                let bytes = incoming.as_init();
                &bytes[range.start..range.end]
            },
        }
    }

    /// Removes the first bytes of this view. Other views of the same storage
    /// keep theirs.
    pub fn advance(&mut self, count: usize)
        requires
            count <= old(self)@.len(),
        ensures
            final(self)@ == old(self)@.subrange(count as int, old(self)@.len() as int),
            final(self).managed() == old(self).managed(),
    {
        let length = self.len();
        let rest = self.slice(count..length);
        *self = rest;
    }

    /// The text that stands for the segment in diagnostics: its length, and
    /// nothing of its bytes, on one line or over several.
    pub open spec fn shown(&self, alternate: bool) -> Seq<char> {
        if alternate {
            "IncomingData {\n    length: "@ + ascii::decimal_chars(self@.len()) + ",\n    ..\n}"@
        } else {
            "IncomingData { length: "@ + ascii::decimal_chars(self@.len()) + ", .. }"@
        }
    }

    pub fn debug_text(&self, alternate: bool) -> (result: String)
        ensures
            result@ == self.shown(alternate),
    {
        if alternate {
            let mut text = "IncomingData {\n    length: ".to_owned();
            text.append(decimal_text(self.len() as u64).as_str());
            text.append(",\n    ..\n}");
            text
        } else {
            let mut text = "IncomingData { length: ".to_owned();
            text.append(decimal_text(self.len() as u64).as_str());
            text.append(", .. }");
            text
        }
    }
}

impl Clone for IncomingData {
    fn clone(&self) -> (result: Self)
        ensures
            result@ == self@,
            result.managed() == self.managed(),
    {
        let length = self.len();
        let result = self.slice(0..length);
        assert(self@.subrange(0, length as int) =~= self@);
        result
    }
}

impl Buffer for IncomingData {
    open spec fn contents(&self) -> Seq<u8> {
        self@
    }

    fn as_init(&self) -> (result: &[u8]) {
        self.as_ref()
    }
}

impl core::fmt::Debug for IncomingData {
    fn fmt(&self, formatter: &mut core::fmt::Formatter<'_>) -> Result<(), core::fmt::Error> {
        let text = self.debug_text(is_alternate(formatter));
        write_text(formatter, text.as_str())
    }
}

/// The account that a received body keeps of its frames.
///
/// The frames themselves come through a rendezvous. Metadata alone is no end: a
/// body of exactly zero bytes stays open until its connection ends it.
pub struct Incoming {
    pub open: bool,
    pub size: SizeHint,
    pub trailers: TrailerHint,
    pub trailers_seen: bool,
    pub drain: DrainConfig,
}

/// What the rendezvous has given.
pub type Taken = Result<Option<Frame<IncomingData>>, TakeError<Error>>;

/// Why a frame breaks what the framing of its body promised, if it does.
pub open spec fn frame_refusal(body: Incoming, frame: Frame<IncomingData>) -> Option<Error> {
    match frame.kind {
        Kind::Data(data) => if body.trailers_seen || (body.size.high() matches Some(upper)
            && data@.len() > upper) {
            Some(
                Error {
                    kind: ErrorKind::InvalidMessage,
                    context: "received body violated its framing metadata",
                    source: None,
                },
            )
        } else {
            None
        },
        Kind::Trailers(_) => if body.trailers == TrailerHint::Absent || body.trailers_seen
            || body.size.low() != 0 {
            Some(
                Error {
                    kind: ErrorKind::InvalidMessage,
                    context: "received trailers violated body framing",
                    source: None,
                },
            )
        } else {
            None
        },
    }
}

/// Whether an account follows another one by a frame.
pub open spec fn accounts_for(
    before: Incoming,
    after: Incoming,
    frame: Frame<IncomingData>,
) -> bool {
    &&& after.open == before.open
    &&& after.drain == before.drain
    &&& match frame.kind {
        Kind::Data(data) => {
            &&& after.trailers == before.trailers
            &&& after.trailers_seen == before.trailers_seen
            &&& after.size.low() == (if before.size.low() >= data@.len() {
                before.size.low() - data@.len()
            } else {
                0
            })
            &&& after.size.high() == (match before.size.high() {
                Some(upper) => Some((upper - data@.len()) as u64),
                None => None,
            })
        },
        Kind::Trailers(_) => {
            &&& after.trailers == TrailerHint::Absent
            &&& after.trailers_seen
            &&& after.size.low() == 0
            &&& after.size.high() == Some(0u64)
        },
    }
}

/// Whether an account is that of a body that has ended.
pub open spec fn ended(before: Incoming, after: Incoming) -> bool {
    &&& !after.open
    &&& after.size.low() == 0
    &&& after.size.high() == Some(0u64)
    &&& after.trailers == TrailerHint::Absent
    &&& after.trailers_seen == before.trailers_seen
    &&& after.drain == before.drain
}

/// What a body gives its reader for what the rendezvous has given.
pub open spec fn delivered(body: Incoming, taken: Taken) -> Result<
    Option<Frame<IncomingData>>,
    Error,
> {
    if !body.open {
        Ok(None)
    } else {
        match taken {
            Ok(Some(frame)) => match frame_refusal(body, frame) {
                Some(refusal) => Err(refusal),
                None => Ok(Some(frame)),
            },
            Ok(None) => if body.size.low() != 0 {
                Err(
                    Error {
                        kind: ErrorKind::InvalidMessage,
                        context: "received body ended before its declared length",
                        source: None,
                    },
                )
            } else {
                Ok(None)
            },
            Err(TakeError::Failed(error)) => Err(error),
            Err(TakeError::Disconnected) => Err(
                Error {
                    kind: ErrorKind::Closed,
                    context: "incoming body driver ended without framing completion",
                    source: None,
                },
            ),
        }
    }
}

/// Why a body drained to a limit fails on a frame, if it does, and what is left
/// of the limit.
pub open spec fn drained(remaining: u64, frame: Frame<IncomingData>) -> Result<u64, Error> {
    match frame.kind {
        Kind::Data(data) => if data@.len() > remaining {
            Err(
                Error {
                    kind: ErrorKind::Limit,
                    context: "body drain payload limit exceeded",
                    source: None,
                },
            )
        } else {
            Ok((remaining - data@.len()) as u64)
        },
        Kind::Trailers(_) => Ok(remaining),
    }
}

impl Incoming {
    /// A body of which protocol semantics say that no frames remain.
    pub fn empty() -> (result: Self)
        ensures
            !result.open,
            result.size.low() == 0,
            result.size.high() == Some(0u64),
            result.trailers == TrailerHint::Absent,
            !result.trailers_seen,
            time::nanos(result.drain.timeout) == 5_000_000_000,
            result.drain.wire_allowance == 65536,
    {
        Incoming {
            open: false,
            size: SizeHint::with_exact(0),
            trailers: TrailerHint::Absent,
            trailers_seen: false,
            drain: DrainConfig::default(),
        }
    }

    /// A body that frames are still to come for.
    pub fn channel(size: SizeHint, trailers: TrailerHint) -> (result: Self)
        ensures
            result.open,
            result.size == size,
            result.trailers == trailers,
            !result.trailers_seen,
            time::nanos(result.drain.timeout) == 5_000_000_000,
            result.drain.wire_allowance == 65536,
    {
        Incoming {
            open: true,
            size,
            trailers,
            trailers_seen: false,
            drain: DrainConfig::default(),
        }
    }

    pub fn with_drain_config(self, config: DrainConfig) -> (result: Self)
        ensures
            result == (Incoming { drain: config, ..self }),
    {
        Incoming { drain: config, ..self }
    }

    fn finish(&mut self)
        ensures
            ended(*old(self), *final(self)),
    {
        self.open = false;
        self.size = SizeHint::with_exact(0);
        self.trailers = TrailerHint::Absent;
    }

    /// Takes a frame into account, unless it breaks what the framing promised.
    pub fn observe(&mut self, frame: &Frame<IncomingData>) -> (result: Result<(), Error>)
        ensures
            match frame_refusal(*old(self), *frame) {
                Some(refusal) => result == Err::<(), Error>(refusal) && *final(self) == *old(self),
                None => result is Ok && accounts_for(*old(self), *final(self), *frame),
            },
    {
        match &frame.kind {
            Kind::Data(data) => {
                let length = data.len() as u64;
                let lower = self.size.lower();
                let upper = self.size.upper();
                let too_long = match upper {
                    Some(upper) => length > upper,
                    None => false,
                };
                if self.trailers_seen || too_long {
                    return Err(
                        Error::new(
                            ErrorKind::InvalidMessage,
                            "received body violated its framing metadata",
                        ),
                    );
                }
                let lower = lower.saturating_sub(length);
                let upper = match upper {
                    Some(upper) => Some(upper - length),
                    None => None,
                };
                match SizeHint::with_bounds(lower, upper) {
                    Ok(size) => {
                        self.size = size;
                        Ok(())
                    },
                    Err(error) => Err(error),
                }
            },
            Kind::Trailers(_) => {
                if self.trailers == TrailerHint::Absent || self.trailers_seen || self.size.lower()
                    != 0 {
                    return Err(
                        Error::new(
                            ErrorKind::InvalidMessage,
                            "received trailers violated body framing",
                        ),
                    );
                }
                self.trailers_seen = true;
                self.trailers = TrailerHint::Absent;
                self.size = SizeHint::with_exact(0);
                Ok(())
            },
        }
    }

    /// Gives the reader its next frame, from what the rendezvous has given. Every
    /// answer but a frame ends the body, and a body that has ended gives nothing
    /// more.
    pub fn next_frame(&mut self, taken: Taken) -> (result: Result<
        Option<Frame<IncomingData>>,
        Error,
    >)
        ensures
            result == delivered(*old(self), taken),
            match result {
                _ if !old(self).open => *final(self) == *old(self),
                Ok(Some(frame)) => accounts_for(*old(self), *final(self), frame),
                _ => ended(*old(self), *final(self)),
            },
    {
        if !self.open {
            return Ok(None);
        }
        let result = match taken {
            Ok(Some(frame)) => match self.observe(&frame) {
                Ok(()) => return Ok(Some(frame)),
                Err(error) => Err(error),
            },
            Ok(None) => if self.size.lower() != 0 {
                Err(
                    Error::new(
                        ErrorKind::InvalidMessage,
                        "received body ended before its declared length",
                    ),
                )
            } else {
                Ok(None)
            },
            Err(TakeError::Failed(error)) => Err(error),
            Err(TakeError::Disconnected) => Err(
                Error::new(
                    ErrorKind::Closed,
                    "incoming body driver ended without framing completion",
                ),
            ),
        };
        self.finish();
        result
    }

    pub fn size_hint(&self) -> (result: SizeHint)
        ensures
            result == self.size,
    {
        self.size
    }

    pub fn trailer_hint(&self) -> (result: TrailerHint)
        ensures
            result == self.trailers,
    {
        self.trailers
    }

    pub fn is_end_stream(&self) -> (result: bool)
        ensures
            result == !self.open,
    {
        !self.open
    }

    /// The deadline of draining the body, from the sum of the present and its
    /// timeout.
    pub fn drain_deadline(sum: Option<Instant>) -> (result: Result<Instant, Error>)
        ensures
            match sum {
                Some(deadline) => result == Ok::<Instant, Error>(deadline),
                None => result == Err::<Instant, Error>(
                    Error {
                        kind: ErrorKind::LocalMessage,
                        context: "invalid drain timeout duration",
                        source: None,
                    },
                ),
            },
    {
        match sum {
            Some(deadline) => Ok(deadline),
            None => Err(Error::new(ErrorKind::LocalMessage, "invalid drain timeout duration")),
        }
    }

    /// The deadline of draining the body from now on. Which timeouts the clock of
    /// the machine cannot represent is up to the machine.
    pub fn drained_by(&self) -> (result: Result<Instant, Error>)
        ensures
            match result {
                Ok(deadline) => deadline::reaches(self.drain.timeout, deadline),
                Err(error) => time::nanos(self.drain.timeout) > 0 && error == (Error {
                    kind: ErrorKind::LocalMessage,
                    context: "invalid drain timeout duration",
                    source: None,
                }),
            },
    {
        let start = time::now();
        Incoming::drain_deadline(time::checked_add(&start, self.drain.timeout))
    }

    /// Discards a frame of a body that is drained to a payload limit.
    pub fn discard(remaining: &mut u64, frame: Frame<IncomingData>) -> (result: Result<(), Error>)
        ensures
            match drained(*old(remaining), frame) {
                Ok(left) => result is Ok && *final(remaining) == left,
                Err(error) => result == Err::<(), Error>(error) && *final(remaining) == *old(remaining),
            },
    {
        match frame.into_data() {
            Ok(data) => {
                let length = data.len() as u64;
                if length > *remaining {
                    return Err(Error::new(ErrorKind::Limit, "body drain payload limit exceeded"));
                }
                *remaining = *remaining - length;
                Ok(())
            },
            Err(_) => Ok(()),
        }
    }

    /// What draining ends with: a deadline that elapsed comes before any other
    /// end.
    pub fn drain_result(result: Result<(), Error>, elapsed: bool) -> (drained: Result<(), Error>)
        ensures
            drained == (if elapsed {
                Err(
                    Error {
                        kind: ErrorKind::Timeout,
                        context: "body drain deadline exceeded",
                        source: None,
                    },
                )
            } else {
                result
            }),
    {
        if elapsed {
            Err(Error::new(ErrorKind::Timeout, "body drain deadline exceeded"))
        } else {
            result
        }
    }
}

/// The payload bytes of a frame.
pub open spec fn payload_len(frame: Frame<IncomingData>) -> nat {
    match frame.kind {
        Kind::Data(data) => data@.len(),
        Kind::Trailers(_) => 0,
    }
}

/// The account that a body keeps while it gives these frames, where it accepts
/// them all.
pub open spec fn follows_frames(accounts: Seq<Incoming>, frames: Seq<Frame<IncomingData>>) -> bool {
    &&& accounts.len() == frames.len() + 1
    &&& forall|i: int|
        0 <= i < frames.len() ==> frame_refusal(accounts[i], #[trigger] frames[i]) is None
            && accounts_for(accounts[i], accounts[i + 1], frames[i])
}

pub open spec fn total_payload(frames: Seq<Frame<IncomingData>>) -> nat
    decreases frames.len(),
{
    if frames.len() == 0 {
        0
    } else {
        total_payload(frames.drop_last()) + payload_len(frames.last())
    }
}

/// A body never gives more payload than its framing announced, and what it may
/// still give is what is left of the announcement.
pub proof fn payload_stays_within_announcement(
    accounts: Seq<Incoming>,
    frames: Seq<Frame<IncomingData>>,
    announced: u64,
)
    requires
        follows_frames(accounts, frames),
        accounts[0].size.high() == Some(announced),
    ensures
        total_payload(frames) <= announced,
        accounts.last().size.high() matches Some(upper) && upper <= announced - total_payload(
            frames,
        ),
    decreases frames.len(),
{
    if frames.len() > 0 {
        let last = frames.len() - 1;
        assert(frame_refusal(accounts[last], frames[last]) is None);
        assert forall|i: int| 0 <= i < frames.drop_last().len() implies frame_refusal(
            accounts.drop_last()[i],
            #[trigger] frames.drop_last()[i],
        ) is None && accounts_for(
            accounts.drop_last()[i],
            accounts.drop_last()[i + 1],
            frames.drop_last()[i],
        ) by {
            assert(frames.drop_last()[i] == frames[i]);
        }
        payload_stays_within_announcement(accounts.drop_last(), frames.drop_last(), announced);
    }
}

/// A body of an announced length ends well only once all of it has been given.
pub proof fn clean_end_means_whole_payload(
    accounts: Seq<Incoming>,
    frames: Seq<Frame<IncomingData>>,
    announced: u64,
)
    requires
        follows_frames(accounts, frames),
        accounts[0].size.low() == announced,
        accounts[0].size.high() == Some(announced),
        accounts.last().open,
        delivered(accounts.last(), Ok(None)) == Ok::<Option<Frame<IncomingData>>, Error>(None),
    ensures
        total_payload(frames) == announced,
{
    payload_stays_within_announcement(accounts, frames, announced);
    least_is_still_due(accounts, frames, announced);
}

proof fn least_is_still_due(
    accounts: Seq<Incoming>,
    frames: Seq<Frame<IncomingData>>,
    announced: u64,
)
    requires
        follows_frames(accounts, frames),
        accounts[0].size.low() == announced,
    ensures
        accounts.last().size.low() + total_payload(frames) >= announced,
    decreases frames.len(),
{
    if frames.len() > 0 {
        let last = frames.len() - 1;
        assert(frame_refusal(accounts[last], frames[last]) is None);
        assert forall|i: int| 0 <= i < frames.drop_last().len() implies frame_refusal(
            accounts.drop_last()[i],
            #[trigger] frames.drop_last()[i],
        ) is None && accounts_for(
            accounts.drop_last()[i],
            accounts.drop_last()[i + 1],
            frames.drop_last()[i],
        ) by {
            assert(frames.drop_last()[i] == frames[i]);
        }
        least_is_still_due(accounts.drop_last(), frames.drop_last(), announced);
    }
}

} // verus!
