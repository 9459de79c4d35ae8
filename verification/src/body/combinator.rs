//! Bodies made of other bodies.

use crate::body::frame::{Frame, Kind};
use crate::body::Buffer;
use vstd::prelude::*;

verus! {

/// One of two statically dispatched body types.
///
/// The variants may have different data and error types; their outputs use
/// `Either` too. Recovered data returns to its originating variant, or is dropped
/// if that variant has been replaced while the frame was outstanding.
#[derive(Clone, Copy, Debug)]
pub enum Either<A, B> {
    /// The first body variant.
    Left(A),
    /// The second body variant.
    Right(B),
}

impl<A> Either<A, A> {
    /// What either variant holds, where both hold the same type.
    pub open spec fn inner(self) -> A {
        match self {
            Either::Left(body) => body,
            Either::Right(body) => body,
        }
    }

    /// Removes the `Either` wrapper when both variants have the same type.
    pub fn into_inner(self) -> (result: A)
        ensures
            result == self.inner(),
    {
        match self {
            Either::Left(body) => body,
            Either::Right(body) => body,
        }
    }
}

/// What a body of the first kind yields, as what either kind yields.
pub open spec fn left_yield<A, B, E, F>(result: Result<Option<Frame<A>>, E>) -> Result<
    Option<Frame<Either<A, B>>>,
    Either<E, F>,
> {
    match result {
        Ok(Some(frame)) => Ok(
            Some(
                Frame {
                    kind: match frame.kind {
                        Kind::Data(data) => Kind::Data(Either::Left(data)),
                        Kind::Trailers(trailers) => Kind::Trailers(trailers),
                    },
                },
            ),
        ),
        Ok(None) => Ok(None),
        Err(error) => Err(Either::Left(error)),
    }
}

/// What a body of the second kind yields, as what either kind yields.
pub open spec fn right_yield<A, B, E, F>(result: Result<Option<Frame<B>>, F>) -> Result<
    Option<Frame<Either<A, B>>>,
    Either<E, F>,
> {
    match result {
        Ok(Some(frame)) => Ok(
            Some(
                Frame {
                    kind: match frame.kind {
                        Kind::Data(data) => Kind::Data(Either::Right(data)),
                        Kind::Trailers(trailers) => Kind::Trailers(trailers),
                    },
                },
            ),
        ),
        Ok(None) => Ok(None),
        Err(error) => Err(Either::Right(error)),
    }
}

/// Marks what a body of the first kind yielded. Trailers pass as they are.
pub fn from_left<A, B, E, F>(result: Result<Option<Frame<A>>, E>) -> (marked: Result<
    Option<Frame<Either<A, B>>>,
    Either<E, F>,
>)
    ensures
        marked == left_yield::<A, B, E, F>(result),
{
    match result {
        Ok(Some(frame)) => match frame.kind {
            Kind::Data(data) => Ok(Some(Frame::data(Either::Left(data)))),
            Kind::Trailers(trailers) => Ok(Some(Frame::trailers(trailers))),
        },
        Ok(None) => Ok(None),
        Err(error) => Err(Either::Left(error)),
    }
}

/// Marks what a body of the second kind yielded. Trailers pass as they are.
pub fn from_right<A, B, E, F>(result: Result<Option<Frame<B>>, F>) -> (marked: Result<
    Option<Frame<Either<A, B>>>,
    Either<E, F>,
>)
    ensures
        marked == right_yield::<A, B, E, F>(result),
{
    match result {
        Ok(Some(frame)) => match frame.kind {
            Kind::Data(data) => Ok(Some(Frame::data(Either::Right(data)))),
            Kind::Trailers(trailers) => Ok(Some(Frame::trailers(trailers))),
        },
        Ok(None) => Ok(None),
        Err(error) => Err(Either::Right(error)),
    }
}

impl<A: Buffer, B: Buffer> Buffer for Either<A, B> {
    open spec fn contents(&self) -> Seq<u8> {
        match self {
            Either::Left(data) => data.contents(),
            Either::Right(data) => data.contents(),
        }
    }

    fn as_init(&self) -> (result: &[u8]) {
        match self {
            Either::Left(data) => data.as_init(),
            Either::Right(data) => data.as_init(),
        }
    }
}

/// A body that transforms errors from an inner body.
///
/// Frames and recovered data pass through unchanged. The mapping function runs
/// only when the inner body returns an error.
#[derive(Clone, Copy, Debug)]
pub struct MapError<B, F> {
    pub body: B,
    pub map: F,
}

impl<B, F> MapError<B, F> {
    /// Creates an error-mapping body wrapper.
    pub fn new(body: B, map: F) -> (result: Self)
        ensures
            result == (MapError { body, map }),
    {
        MapError { body, map }
    }

    /// Returns a shared reference to the inner body.
    pub fn get_ref(&self) -> (result: &B)
        ensures
            *result == self.body,
    {
        &self.body
    }

    /// Returns an exclusive reference to the inner body.
    pub fn get_mut(&mut self) -> (result: &mut B)
        ensures
            *result == old(self).body,
            *final(self) == (MapError { body: *final(result), map: old(self).map }),
    {
        &mut self.body
    }

    /// Removes this wrapper and returns the inner body.
    pub fn into_inner(self) -> (result: B)
        ensures
            result == self.body,
    {
        self.body
    }

    /// Maps an error of the inner body. What it yields otherwise passes as it is.
    pub fn map_result<T, E, G>(&mut self, result: Result<T, E>) -> (mapped: Result<T, G>) where
        F: FnMut(E) -> G,

        requires
            result matches Err(error) ==> call_requires(old(self).map, (error,)),
        ensures
            match result {
                Ok(value) => mapped == Ok::<T, G>(value) && *final(self) == *old(self),
                Err(error) => mapped matches Err(other) && call_ensures(
                    old(self).map,
                    (error,),
                    other,
                ),
            },
            final(self).body == old(self).body,
    {
        match result {
            Ok(value) => Ok(value),
            Err(error) => Err((self.map)(error)),
        }
    }
}

} // verus!
