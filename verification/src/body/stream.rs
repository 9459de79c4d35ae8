//! Bodies that are streams, and streams that are bodies.

use crate::body::frame::{Frame, Kind};
use crate::body::size_hint::SizeHint;
use crate::body::TrailerHint;
use vstd::prelude::*;

verus! {

/// A body backed by a stream of fallible frames.
///
/// The stream must produce data followed by at most one trailers frame. Its
/// item-count hint is never interpreted as a byte count. Errors and stream
/// exhaustion terminate this adapter, even if the source stream can resume.
#[derive(Debug)]
pub struct StreamBody<S> {
    pub stream: S,
    pub done: bool,
}

/// What a stream item is as what a body yields.
pub open spec fn as_yield<D, E>(item: Option<Result<Frame<D>, E>>) -> Result<Option<Frame<D>>, E> {
    match item {
        Some(Ok(frame)) => Ok(Some(frame)),
        Some(Err(error)) => Err(error),
        None => Ok(None),
    }
}

/// What a body yields as a stream item.
pub open spec fn as_item<D, E>(result: Result<Option<Frame<D>>, E>) -> Option<Result<Frame<D>, E>> {
    match result {
        Ok(Some(frame)) => Some(Ok(frame)),
        Ok(None) => None,
        Err(error) => Some(Err(error)),
    }
}

impl<S> StreamBody<S> {
    /// Wraps a stream.
    pub fn new(stream: S) -> (result: Self)
        ensures
            result == (StreamBody { stream, done: false }),
    {
        StreamBody { stream, done: false }
    }

    /// Recovers the underlying stream at its current position.
    ///
    /// This removes the adapter's terminal guard. A canceled call may already
    /// have changed the source stream's position.
    pub fn into_inner(self) -> (result: S)
        ensures
            result == self.stream,
    {
        self.stream
    }

    /// Yields what the stream produced. Everything but a frame ends the body, and
    /// a body that has ended yields nothing.
    pub fn next_frame<D, E>(&mut self, item: Option<Result<Frame<D>, E>>) -> (result: Result<
        Option<Frame<D>>,
        E,
    >)
        ensures
            result == (if old(self).done {
                Ok(None)
            } else {
                as_yield(item)
            }),
            *final(self) == (StreamBody {
                stream: old(self).stream,
                done: old(self).done || !(item matches Some(Ok(_))),
            }),
    {
        if self.done {
            return Ok(None);
        }
        match item {
            Some(Ok(frame)) => Ok(Some(frame)),
            Some(Err(error)) => {
                self.done = true;
                Err(error)
            },
            None => {
                self.done = true;
                Ok(None)
            },
        }
    }

    pub fn size_hint(&self) -> (result: SizeHint)
        ensures
            result.low() == 0,
            result.high() == (if self.done {
                Some(0u64)
            } else {
                None
            }),
    {
        if self.done {
            SizeHint::with_exact(0)
        } else {
            SizeHint::new()
        }
    }

    pub fn trailer_hint(&self) -> (result: TrailerHint)
        ensures
            result == (if self.done {
                TrailerHint::Absent
            } else {
                TrailerHint::MayHave
            }),
    {
        if self.done {
            TrailerHint::Absent
        } else {
            TrailerHint::MayHave
        }
    }

    pub fn is_end_stream(&self) -> (result: bool)
        ensures
            result == self.done,
    {
        self.done
    }
}

/// A stream preserving a body's data frames, trailers, and errors.
///
/// Consuming this stream transfers payload ownership to the caller without an
/// automatic recycle callback. Recover the body with [`Self::into_inner`] if
/// explicit subsequent reclamation is needed.
#[derive(Debug)]
pub struct BodyStream<B> {
    pub body: B,
    pub done: bool,
}

impl<B> BodyStream<B> {
    /// Creates a frame stream.
    pub fn new(body: B) -> (result: Self)
        ensures
            result == (BodyStream { body, done: false }),
    {
        BodyStream { body, done: false }
    }

    /// Recovers the body at its current position, removing the terminal guard.
    pub fn into_inner(self) -> (result: B)
        ensures
            result == self.body,
    {
        self.body
    }

    /// Produces what the body yielded. Everything but a frame ends the stream,
    /// and a stream that has ended produces nothing.
    pub fn next<D, E>(&mut self, result: Result<Option<Frame<D>>, E>) -> (item: Option<
        Result<Frame<D>, E>,
    >)
        ensures
            item == (if old(self).done {
                None
            } else {
                as_item(result)
            }),
            *final(self) == (BodyStream {
                body: old(self).body,
                done: old(self).done || !(result matches Ok(Some(_))),
            }),
    {
        if self.done {
            return None;
        }
        match result {
            Ok(Some(frame)) => Some(Ok(frame)),
            Ok(None) => {
                self.done = true;
                None
            },
            Err(error) => {
                self.done = true;
                Some(Err(error))
            },
        }
    }
}

/// A stream of payloads that explicitly discards trailing headers.
///
/// Errors are preserved and terminate the stream.
#[derive(Debug)]
pub struct BodyDataStream<B> {
    pub frames: BodyStream<B>,
}

/// What a payload stream does with what the body yielded.
#[derive(Debug)]
pub enum DataItem<D, E> {
    /// Produce a payload.
    Data(D),
    /// Ask the body again.
    Again,
    /// Produce an error.
    Failed(E),
    /// Produce nothing more.
    End,
}

impl<B> BodyDataStream<B> {
    /// Creates a data stream.
    pub fn new(body: B) -> (result: Self)
        ensures
            result.frames == (BodyStream { body, done: false }),
    {
        BodyDataStream { frames: BodyStream::new(body) }
    }

    /// Recovers the body at its current position; discarded trailers are lost.
    pub fn into_inner(self) -> (result: B)
        ensures
            result == self.frames.body,
    {
        self.frames.into_inner()
    }

    /// Produces what the body yielded, but for trailers.
    pub fn next<D, E>(&mut self, result: Result<Option<Frame<D>>, E>) -> (item: DataItem<D, E>)
        ensures
            item == (if old(self).frames.done {
                DataItem::End
            } else {
                match result {
                    Ok(Some(frame)) => match frame.kind {
                        Kind::Data(data) => DataItem::Data(data),
                        Kind::Trailers(_) => DataItem::Again,
                    },
                    Ok(None) => DataItem::End,
                    Err(error) => DataItem::Failed(error),
                }
            }),
            final(self).frames == (BodyStream {
                body: old(self).frames.body,
                done: old(self).frames.done || !(result matches Ok(Some(_))),
            }),
    {
        match self.frames.next(result) {
            Some(Ok(frame)) => match frame.kind {
                Kind::Data(data) => DataItem::Data(data),
                Kind::Trailers(_) => DataItem::Again,
            },
            Some(Err(error)) => DataItem::Failed(error),
            None => DataItem::End,
        }
    }
}

/// Turning a body into a stream and back changes nothing of what it yields.
pub proof fn stream_gives_body_back<D, E>(
    result: Result<Option<Frame<D>>, E>,
    item: Option<Result<Frame<D>, E>>,
)
    ensures
        as_yield(as_item(result)) == result,
        as_item(as_yield(item)) == item,
{
}

} // verus!
