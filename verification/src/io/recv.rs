//! Input that was received and not yet parsed.

use crate::body::incoming::{IncomingData, Leased, ManagedLeasePermit};
use crate::error::{self, Error, ErrorKind};
use crate::outside::io;
use crate::outside::octets;
use bytes::{Bytes, BytesMut};
use std::ops::Range;
use vstd::prelude::*;

verus! {

/// What a read brought.
#[derive(Clone, Copy, Debug, PartialEq, Eq, Structural)]
pub enum ReadStatus {
    Data(usize),
    Eof,
}

/// Where retained input is.
enum ReceiveStorage {
    Portable(BytesMut),
    Managed { buffer: Leased, range: Range<usize> },
}

impl ReceiveStorage {
    spec fn retained(self) -> Seq<u8> {
        match self {
            ReceiveStorage::Portable(bytes) => octets::held(bytes),
            ReceiveStorage::Managed { buffer, range } => buffer.bytes().subrange(
                range.start as int,
                range.end as int,
            ),
        }
    }

    spec fn wf(self) -> bool {
        self matches ReceiveStorage::Managed { buffer, range } ==> range.start <= range.end
            <= buffer.bytes().len()
    }

    fn bytes(&self) -> (result: &[u8])
        requires
            self.wf(),
        ensures
            result@ == self.retained(),
    {
        match self {
            ReceiveStorage::Portable(bytes) => octets::held_slice(bytes),
            ReceiveStorage::Managed { buffer, range } => {
                let bytes = buffer.as_init();
                &bytes[range.start..range.end]
            },
        }
    }
}

/// Retained, initialized input for incremental parsing. Payload extraction
/// shares the allocation; later reads cannot overwrite retained payloads. The
/// bound applies to input retained here, not to data that an application holds.
pub struct RecvBuffer {
    storage: ReceiveStorage,
    managed_permit: ManagedLeasePermit,
    preferred_read: usize,
    max_retained: usize,
}

impl View for RecvBuffer {
    type V = Seq<u8>;

    closed spec fn view(&self) -> Seq<u8> {
        self.storage.retained()
    }
}

/// A read that was submitted: it owns the rest of the buffer until it completes.
pub struct PendingRead {
    pub managed_permit: ManagedLeasePermit,
    pub preferred_read: usize,
    pub max_retained: usize,
    pub start: usize,
    pub target: usize,
}

/// What a read starts with.
pub enum ReadStart {
    /// The read is not submitted.
    Refused(Error, RecvBuffer),
    /// The read is to fill the buffer between two positions.
    Submit { bytes: BytesMut, start: usize, end: usize, pending: PendingRead },
    /// The read is to lease a pooled buffer of at most so many bytes.
    Lease { limit: usize, buffer: RecvBuffer },
}

/// An error of the buffer itself.
pub open spec fn internal(context: &'static str) -> Error {
    Error { kind: ErrorKind::Internal, context, source: None }
}

/// Whether an error says that the runtime canceled an operation.
pub open spec fn is_cancellation(error: Error) -> bool {
    exists|cause: std::io::Error| io::cancels(cause) && error == error::io_failure(cause)
}

/// How many bytes a read asks for.
pub open spec fn read_size(preferred: nat, available: nat) -> nat {
    if available < preferred {
        available
    } else {
        preferred
    }
}

/// Whether a buffer grew beyond what is kept once it is empty.
pub open spec fn oversized(capacity: nat, preferred: nat, max_retained: nat) -> bool {
    capacity > (if 4 * preferred < max_retained {
        4 * preferred
    } else {
        max_retained
    })
}

/// Whether a buffer grew beyond what is kept once it is empty.
pub fn is_oversized(capacity: usize, preferred: usize, max_retained: usize) -> (result: bool)
    ensures
        result == oversized(capacity as nat, preferred as nat, max_retained as nat),
{
    if preferred <= usize::MAX / 4 && preferred * 4 < max_retained {
        capacity > preferred * 4
    } else {
        capacity > max_retained
    }
}

/// Why a payload range is refused, if it is.
pub open spec fn range_refused(payload: Range<usize>, consumed: nat, length: nat) -> bool {
    payload.start > payload.end || payload.end > consumed || consumed > length
}

impl RecvBuffer {
    /// The limits are in order, what is retained stays within them, and input in
    /// a pooled buffer was not yet handed out.
    pub closed spec fn wf(self) -> bool {
        &&& 0 < self.preferred_read <= self.max_retained
        &&& self.preferred_read <= isize::MAX
        &&& self.storage.wf()
        &&& self@.len() <= self.max_retained
        &&& self.storage is Managed ==> !self.managed_permit.held
    }

    /// How many bytes a read asks for.
    pub closed spec fn preferred(self) -> usize {
        self.preferred_read
    }

    /// How many bytes are retained at most.
    pub closed spec fn most(self) -> usize {
        self.max_retained
    }

    /// Whether an application holds a view of a leased buffer.
    pub closed spec fn lease(self) -> ManagedLeasePermit {
        self.managed_permit
    }

    /// Whether the input is in a leased buffer.
    pub closed spec fn managed(self) -> bool {
        self.storage is Managed
    }

    pub open spec fn same_limits(self, other: RecvBuffer) -> bool {
        self.preferred() == other.preferred() && self.most() == other.most()
    }

    /// Whether an application holds a view of a leased buffer.
    pub fn is_leased(&self) -> (result: bool)
        ensures
            result == self.lease().held,
    {
        self.managed_permit.is_held()
    }

    pub fn new(preferred_read: usize, max_retained: usize) -> (result: Result<Self, Error>)
        requires
            preferred_read <= max_retained ==> preferred_read <= isize::MAX,
        ensures
            result is Ok <==> 0 < preferred_read <= max_retained,
            result matches Ok(buffer) ==> buffer.wf() && buffer@.len() == 0
                && buffer.preferred() == preferred_read && buffer.most() == max_retained
                && !buffer.lease().held && !buffer.managed(),
            result matches Err(error) ==> error == (Error {
                kind: ErrorKind::Limit,
                context: "receive limits must be nonzero and ordered",
                source: None,
            }),
    {
        if preferred_read == 0 || preferred_read > max_retained {
            return Err(Error::new(ErrorKind::Limit, "receive limits must be nonzero and ordered"));
        }
        Ok(
            RecvBuffer {
                storage: ReceiveStorage::Portable(octets::with_capacity(preferred_read)),
                managed_permit: ManagedLeasePermit::new(),
                preferred_read,
                max_retained,
            },
        )
    }

    /// Returns the initialized bytes available to a synchronous parser.
    pub fn bytes(&self) -> (result: &[u8])
        requires
            self.wf(),
        ensures
            result@ == self@,
    {
        self.storage.bytes()
    }

    /// Returns the initialized byte count.
    pub fn len(&self) -> (result: usize)
        requires
            self.wf(),
        ensures
            result == self@.len(),
    {
        self.bytes().len()
    }

    /// Removes a parsed control-data prefix while preserving later bytes.
    pub fn consume(&mut self, count: usize) -> (result: Result<(), Error>)
        requires
            old(self).wf(),
        ensures
            final(self).wf(),
            final(self).same_limits(*old(self)),
            final(self).lease() == old(self).lease(),
            if count <= old(self)@.len() {
                &&& result is Ok
                &&& final(self)@ == old(self)@.subrange(count as int, old(self)@.len() as int)
                &&& final(self).managed() == (old(self).managed() && final(self)@.len() > 0)
            } else {
                result == Err::<(), Error>(
                    internal("receive buffer consumed beyond initialized bytes"),
                ) && *final(self) == *old(self)
            },
    {
        if count > self.len() {
            return Err(
                Error::new(
                    ErrorKind::Internal,
                    "receive buffer consumed beyond initialized bytes",
                ),
            );
        }
        let ghost before = *self;
        match self.take_storage() {
            ReceiveStorage::Portable(bytes) => {
                let mut bytes = bytes;
                octets::advance(&mut bytes, count);
                self.storage = ReceiveStorage::Portable(bytes);
            },
            ReceiveStorage::Managed { buffer, range } => {
                let range = range.start + count..range.end;
                self.storage = ReceiveStorage::Managed { buffer, range };
                assert(self@ =~= before@.subrange(count as int, before@.len() as int));
            },
        }
        self.compact_if_empty();
        Ok(())
    }

    /// Takes the storage out, and leaves an empty one.
    fn take_storage(&mut self) -> (result: ReceiveStorage)
        ensures
            result == old(self).storage,
            final(self).storage matches ReceiveStorage::Portable(bytes) && octets::held(bytes)
                == Seq::<u8>::empty(),
            final(self).managed_permit == old(self).managed_permit,
            final(self).same_limits(*old(self)),
    {
        let mut storage = ReceiveStorage::Portable(octets::none());
        std::mem::swap(&mut self.storage, &mut storage);
        storage
    }

    /// Transfers a decoded payload range while discarding framing it consumed.
    pub fn take_payload(&mut self, payload: Range<usize>, consumed: usize) -> (result: Result<
        IncomingData,
        Error,
    >)
        requires
            old(self).wf(),
        ensures
            final(self).wf(),
            final(self).same_limits(*old(self)),
            if range_refused(payload, consumed as nat, old(self)@.len()) {
                result == Err::<IncomingData, Error>(
                    internal("decoder returned an invalid receive-buffer range"),
                ) && *final(self) == *old(self)
            } else {
                &&& result matches Ok(data) && data@ == old(self)@.subrange(
                    payload.start as int,
                    payload.end as int,
                ) && data.managed() == (old(self).managed())
                &&& final(self)@ == old(self)@.subrange(consumed as int, old(self)@.len() as int)
                &&& !final(self).managed()
                &&& final(self).lease().held == (old(self).lease().held || old(self).managed())
            },
    {
        if payload.start > payload.end || payload.end > consumed || consumed > self.len() {
            return Err(
                Error::new(
                    ErrorKind::Internal,
                    "decoder returned an invalid receive-buffer range",
                ),
            );
        }
        let ghost before = *self;
        match self.take_storage() {
            ReceiveStorage::Portable(bytes) => {
                let mut bytes = bytes;
                let whole = octets::freeze(octets::split_to(&mut bytes, consumed));
                let part = octets::slice(&whole, payload.start, payload.end);
                self.storage = ReceiveStorage::Portable(bytes);
                self.compact_if_empty();
                assert(octets::octets(part) =~= before@.subrange(
                    payload.start as int,
                    payload.end as int,
                ));
                Ok(IncomingData::from_bytes(part))
            },
            ReceiveStorage::Managed { buffer, range } => {
                let part = range.start + payload.start..range.start + payload.end;
                let rest = range.start + consumed;
                if rest < range.end {
                    let bytes = buffer.as_init();
                    self.storage = ReceiveStorage::Portable(
                        octets::growing(&bytes[rest..range.end]),
                    );
                }
                proof {
                    assert(self@ =~= before@.subrange(consumed as int, before@.len() as int));
                    assert(buffer.bytes().subrange(part.start as int, part.end as int)
                        =~= before@.subrange(payload.start as int, payload.end as int));
                }
                IncomingData::from_managed(buffer, part, &mut self.managed_permit)
            },
        }
    }

    /// Transfers a parsed prefix that a message keeps. Portable input is shared;
    /// managed input is copied.
    pub fn take_shared_prefix(&mut self, count: usize) -> (result: Result<Bytes, Error>)
        requires
            old(self).wf(),
        ensures
            final(self).wf(),
            final(self).same_limits(*old(self)),
            final(self).lease() == old(self).lease(),
            if count <= old(self)@.len() {
                &&& result matches Ok(prefix) && octets::octets(prefix) == old(self)@.subrange(
                    0,
                    count as int,
                )
                &&& final(self)@ == old(self)@.subrange(count as int, old(self)@.len() as int)
                &&& final(self).managed() == (old(self).managed() && final(self)@.len() > 0)
            } else {
                result == Err::<Bytes, Error>(
                    internal("receive buffer consumed beyond initialized bytes"),
                ) && *final(self) == *old(self)
            },
    {
        if count > self.len() {
            return Err(
                Error::new(
                    ErrorKind::Internal,
                    "receive buffer consumed beyond initialized bytes",
                ),
            );
        }
        let ghost before = *self;
        match self.take_storage() {
            ReceiveStorage::Portable(bytes) => {
                let mut bytes = bytes;
                let prefix = octets::freeze(octets::split_to(&mut bytes, count));
                self.storage = ReceiveStorage::Portable(bytes);
                self.compact_if_empty();
                Ok(prefix)
            },
            ReceiveStorage::Managed { buffer, range } => {
                let bytes = buffer.as_init();
                let prefix = octets::copy(&bytes[range.start..range.start + count]);
                let range = range.start + count..range.end;
                proof {
                    assert(octets::octets(prefix) =~= before@.subrange(0, count as int));
                    assert(buffer.bytes().subrange(range.start as int, range.end as int)
                        =~= before@.subrange(count as int, before@.len() as int));
                }
                self.storage = ReceiveStorage::Managed { buffer, range };
                self.compact_if_empty();
                Ok(prefix)
            },
        }
    }

    /// Transfers portable read-ahead; managed read-ahead is copied.
    pub fn take_all(&mut self) -> (result: Bytes)
        requires
            old(self).wf(),
        ensures
            octets::octets(result) == old(self)@,
            final(self)@.len() == 0,
            !final(self).managed(),
            final(self).wf(),
            final(self).same_limits(*old(self)),
            final(self).lease() == old(self).lease(),
    {
        match self.take_storage() {
            ReceiveStorage::Portable(bytes) => octets::freeze(bytes),
            ReceiveStorage::Managed { buffer, range } => {
                let bytes = buffer.as_init();
                octets::copy(&bytes[range.start..range.end])
            },
        }
    }

    /// Says that every view of the leased buffer is gone.
    pub fn lease_released(&mut self)
        requires
            old(self).wf(),
        ensures
            final(self).wf(),
            final(self)@ == old(self)@,
            final(self).same_limits(*old(self)),
            !final(self).lease().held,
    {
        self.managed_permit.release();
    }

    /// Starts one bounded read that appends to the input. It owns the buffer
    /// until it completes: only its completion gives the buffer back.
    pub fn read(self, canceled: bool) -> (result: ReadStart)
        requires
            self.wf(),
        ensures
            match result {
                ReadStart::Refused(error, buffer) => {
                    &&& canceled ==> is_cancellation(error)
                    &&& !canceled ==> self@.len() == self.most() && error == (Error {
                        kind: ErrorKind::Limit,
                        context: "receive buffer limit reached",
                        source: None,
                    })
                    &&& canceled || self@.len() == self.most()
                    &&& buffer.wf() && buffer@ == self@ && buffer.same_limits(self)
                    &&& buffer.lease() == self.lease()
                },
                ReadStart::Submit { bytes, start, end, pending } => {
                    &&& !canceled && self@.len() < self.most()
                    &&& octets::held(bytes) == self@
                    &&& start == self@.len()
                    &&& end == start + read_size(
                        self.preferred() as nat,
                        (self.most() - self@.len()) as nat,
                    )
                    &&& pending == (PendingRead {
                        managed_permit: self.lease(),
                        preferred_read: self.preferred(),
                        max_retained: self.most(),
                        start,
                        target: (end - start) as usize,
                    })
                    &&& pending.wf()
                },
                ReadStart::Lease { .. } => false,
            },
    {
        if canceled {
            let cause = io::canceled();
            return ReadStart::Refused(Error::from_io(cause), self);
        }
        let mut buffer = self;
        buffer.make_portable();
        let start = buffer.len();
        let available = buffer.max_retained - start;
        if available == 0 {
            return ReadStart::Refused(
                Error::new(ErrorKind::Limit, "receive buffer limit reached"),
                buffer,
            );
        }
        let target = if available < buffer.preferred_read {
            available
        } else {
            buffer.preferred_read
        };
        let bytes = match buffer.take_storage() {
            ReceiveStorage::Portable(bytes) => bytes,
            ReceiveStorage::Managed { .. } => octets::none(),
        };
        ReadStart::Submit {
            bytes,
            start,
            end: start + target,
            pending: PendingRead {
                managed_permit: buffer.managed_permit,
                preferred_read: buffer.preferred_read,
                max_retained: buffer.max_retained,
                start,
                target,
            },
        }
    }

    /// Starts one read that leases a pooled buffer, where there is no input that
    /// it would have to be joined to and no application holds an earlier lease.
    /// Otherwise the read appends to the input.
    pub fn read_managed(self, canceled: bool) -> (result: ReadStart)
        requires
            self.wf(),
        ensures
            match result {
                ReadStart::Lease { limit, buffer } => {
                    &&& !canceled && !self.lease().held && self@.len() == 0
                    &&& limit == self.preferred()
                    &&& buffer == self
                },
                ReadStart::Refused(error, buffer) => {
                    &&& canceled ==> is_cancellation(error)
                    &&& !canceled ==> self@.len() == self.most() && error == (Error {
                        kind: ErrorKind::Limit,
                        context: "receive buffer limit reached",
                        source: None,
                    })
                    &&& buffer.wf() && buffer@ == self@ && buffer.same_limits(self)
                    &&& buffer.lease() == self.lease()
                },
                ReadStart::Submit { bytes, start, end, pending } => {
                    &&& !canceled && self@.len() < self.most() && (self.lease().held
                        || self@.len() > 0)
                    &&& octets::held(bytes) == self@
                    &&& start == self@.len()
                    &&& end == start + read_size(
                        self.preferred() as nat,
                        (self.most() - self@.len()) as nat,
                    )
                    &&& pending.wf() && pending.start == start && pending.target == end - start
                    &&& pending.managed_permit == self.lease()
                    &&& pending.preferred_read == self.preferred()
                    &&& pending.max_retained == self.most()
                },
            },
    {
        if canceled || self.managed_permit.is_held() || self.len() != 0 {
            return self.read(canceled);
        }
        let limit = if self.preferred_read < self.max_retained {
            self.preferred_read
        } else {
            self.max_retained
        };
        ReadStart::Lease { limit, buffer: self }
    }

    /// Takes in what a leasing read brought.
    pub fn complete_managed(self, leased: Result<Option<Leased>, Error>) -> (result: (
        Result<ReadStatus, Error>,
        RecvBuffer,
    ))
        requires
            self.wf(),
            self@.len() == 0,
            !self.lease().held,
            leased matches Ok(Some(buffer)) ==> buffer.bytes().len() <= self.most(),
        ensures
            result.1.wf(),
            result.1.same_limits(self),
            match leased {
                Ok(Some(buffer)) => result.0 == Ok::<ReadStatus, Error>(
                    ReadStatus::Data(buffer.bytes().len() as usize),
                ) && result.1@ == buffer.bytes() && result.1.managed(),
                Ok(None) => result.0 == Ok::<ReadStatus, Error>(ReadStatus::Eof) && result.1
                    == self,
                Err(error) => result.0 == Err::<ReadStatus, Error>(error) && result.1 == self,
            },
    {
        match leased {
            Ok(Some(buffer)) => {
                let count = buffer.as_init().len();
                let range = 0..count;
                assert(buffer.bytes().subrange(0, count as int) =~= buffer.bytes());
                (
                    Ok(ReadStatus::Data(count)),
                    RecvBuffer { storage: ReceiveStorage::Managed { buffer, range }, ..self },
                )
            },
            Ok(None) => (Ok(ReadStatus::Eof), self),
            Err(error) => (Err(error), self),
        }
    }

    /// Lets go of storage that an empty buffer need not keep: of a pooled buffer
    /// always, and of one that the allocator made larger than is kept. Storage that
    /// holds input stays as it is.
    fn compact_if_empty(&mut self)
        requires
            old(self).wf(),
        ensures
            final(self).wf(),
            final(self)@ == old(self)@,
            final(self).same_limits(*old(self)),
            final(self).managed_permit == old(self).managed_permit,
            if old(self)@.len() == 0 {
                final(self).storage is Portable
            } else {
                final(self).storage == old(self).storage
            },
    {
        let release = match &self.storage {
            ReceiveStorage::Portable(bytes) => octets::held_slice(bytes).len() == 0 && is_oversized(
                octets::capacity(bytes),
                self.preferred_read,
                self.max_retained,
            ),
            ReceiveStorage::Managed { range, .. } => range.start == range.end,
        };
        if release {
            let ghost before = *self;
            let capacity = match &self.storage {
                ReceiveStorage::Portable(_) => self.preferred_read,
                ReceiveStorage::Managed { .. } => 0,
            };
            self.storage = ReceiveStorage::Portable(octets::with_capacity(capacity));
            assert(self@ =~= before@);
        }
    }

    /// Copies input out of a pooled buffer.
    fn make_portable(&mut self)
        requires
            old(self).wf(),
        ensures
            final(self).wf(),
            final(self)@ == old(self)@,
            final(self).same_limits(*old(self)),
            final(self).managed_permit == old(self).managed_permit,
            final(self).storage is Portable,
    {
        match self.take_storage() {
            ReceiveStorage::Portable(bytes) => {
                self.storage = ReceiveStorage::Portable(bytes);
            },
            ReceiveStorage::Managed { buffer, range } => {
                let bytes = buffer.as_init();
                let copied = octets::growing(&bytes[range.start..range.end]);
                self.storage = ReceiveStorage::Portable(copied);
            },
        }
    }
}

/// What a completed read amounts to: `filled` is what the buffer now holds.
pub open spec fn read_result(
    start: nat,
    target: nat,
    result: Result<usize, std::io::Error>,
    filled: nat,
) -> Result<ReadStatus, Error> {
    match result {
        Ok(count) => if count > target || filled != start + count {
            Err(
                Error {
                    kind: ErrorKind::Io,
                    context: "reader reported an inconsistent initialized length",
                    source: None,
                },
            )
        } else if count == 0 {
            Ok(ReadStatus::Eof)
        } else {
            Ok(ReadStatus::Data(count))
        },
        Err(cause) => Err(error::io_failure(cause)),
    }
}

impl PendingRead {
    pub open spec fn wf(self) -> bool {
        &&& 0 < self.preferred_read <= self.max_retained
        &&& self.preferred_read <= isize::MAX
        &&& self.start + self.target <= self.max_retained
    }

    /// Completes the read: the buffer comes back with what it now holds. A reader
    /// that kept to the positions it was given has filled it no further than
    /// what may be retained.
    pub fn complete(self, bytes: BytesMut, result: Result<usize, std::io::Error>) -> (completed: (
        Result<ReadStatus, Error>,
        RecvBuffer,
    ))
        requires
            self.wf(),
        ensures
            completed.0 == read_result(
                self.start as nat,
                self.target as nat,
                result,
                octets::held(bytes).len(),
            ),
            octets::held(bytes).len() <= self.start + self.target ==> completed.1.wf(),
            completed.0 is Ok ==> completed.1.wf(),
            completed.1@ == octets::held(bytes),
            !completed.1.managed(),
            completed.1.lease() == self.managed_permit,
            completed.1.preferred() == self.preferred_read,
            completed.1.most() == self.max_retained,
    {
        let filled = octets::held_slice(&bytes).len();
        let status = match result {
            Ok(count) => if count > self.target || filled != self.start + count {
                Err(
                    Error::new(ErrorKind::Io, "reader reported an inconsistent initialized length"),
                )
            } else if count == 0 {
                Ok(ReadStatus::Eof)
            } else {
                Ok(ReadStatus::Data(count))
            },
            Err(cause) => Err(Error::from_io(cause)),
        };
        let buffer = RecvBuffer {
            storage: ReceiveStorage::Portable(bytes),
            managed_permit: self.managed_permit,
            preferred_read: self.preferred_read,
            max_retained: self.max_retained,
        };
        (status, buffer)
    }
}

/// A read may be submitted exactly while there is room, and it asks for no more
/// than there is: input that is retained never outgrows its bound.
pub proof fn reads_fit(preferred: nat, max_retained: nat, retained: nat)
    requires
        0 < preferred,
        retained <= max_retained,
    ensures
        read_size(preferred, (max_retained - retained) as nat) > 0 <==> retained < max_retained,
        retained + read_size(preferred, (max_retained - retained) as nat) <= max_retained,
        read_size(preferred, (max_retained - retained) as nat) <= preferred,
{
}

} // verus!
