//! Bodies that are there from the start.

use crate::body::frame::{Frame, Kind};
use crate::body::size_hint::SizeHint;
use crate::body::{Buffer, TrailerHint};
use vstd::prelude::*;

verus! {

/// A body that contains no frames and has an exact length of zero.
#[derive(Clone, Copy, Debug)]
pub struct Empty;

impl Default for Empty {
    fn default() -> (result: Self)
        ensures
            result == Empty,
    {
        Empty
    }
}

impl Empty {
    /// Creates an empty body.
    pub fn new() -> (result: Self)
        ensures
            result == Empty,
    {
        Empty
    }

    /// There is no frame, however often it is asked for.
    pub fn next_frame<D>(&mut self) -> (result: Option<Frame<D>>)
        ensures
            result is None,
            *final(self) == *old(self),
    {
        None
    }

    pub fn size_hint(&self) -> (result: SizeHint)
        ensures
            result.low() == 0,
            result.high() == Some(0u64),
    {
        SizeHint::with_exact(0)
    }

    pub fn trailer_hint(&self) -> (result: TrailerHint)
        ensures
            result == TrailerHint::Absent,
    {
        TrailerHint::Absent
    }

    pub fn is_end_stream(&self) -> (result: bool)
        ensures
            result,
    {
        true
    }
}

/// A body that yields one owned data buffer.
///
/// `Full` does not allocate beyond the supplied buffer. After yielding that
/// buffer once, all later calls to [`Full::next_frame`] return nothing.
#[derive(Debug)]
pub struct Full<D> {
    state: FullState<D>,
}

#[derive(Debug)]
enum FullState<D> {
    Ready(D),
    Done,
}

impl<D> Full<D> {
    /// The buffer that is still to be yielded.
    pub closed spec fn pending(self) -> Option<D> {
        match self.state {
            FullState::Ready(data) => Some(data),
            FullState::Done => None,
        }
    }

    /// Creates a body that yields `data` as its only frame.
    pub fn new(data: D) -> (result: Self)
        ensures
            result.pending() == Some(data),
    {
        Full { state: FullState::Ready(data) }
    }

    /// Yields the buffer, once.
    pub fn next_frame(&mut self) -> (result: Option<Frame<D>>)
        ensures
            match old(self).pending() {
                Some(data) => result matches Some(frame) && frame.kind == Kind::Data(data),
                None => result is None,
            },
            final(self).pending() is None,
    {
        let mut state = FullState::Done;
        std::mem::swap(&mut self.state, &mut state);
        match state {
            FullState::Ready(data) => Some(Frame::data(data)),
            FullState::Done => None,
        }
    }

    pub fn trailer_hint(&self) -> (result: TrailerHint)
        ensures
            result == TrailerHint::Absent,
    {
        TrailerHint::Absent
    }

    pub fn is_end_stream(&self) -> (result: bool)
        ensures
            result == (self.pending() is None),
    {
        match &self.state {
            FullState::Ready(_) => false,
            FullState::Done => true,
        }
    }
}

impl<D: Buffer> Full<D> {
    pub fn size_hint(&self) -> (result: SizeHint)
        ensures
            result.low() == (match self.pending() {
                Some(data) => data.contents().len(),
                None => 0,
            }),
            result.high() == Some(result.low()),
    {
        match &self.state {
            FullState::Ready(data) => SizeHint::with_exact(data.as_init().len() as u64),
            FullState::Done => SizeHint::with_exact(0),
        }
    }
}

} // verus!
