//! The items that a body is made of.

use http::HeaderMap;
use vstd::prelude::*;

verus! {

/// An owned semantic body item containing payload data or trailing headers.
///
/// Frames are not transport-read boundaries. Data stays owned while completion
/// I/O can reference it. Trailers follow all data and occur at most once;
/// producers and consumers enforce that sequence.
#[derive(Debug)]
pub struct Frame<D> {
    pub kind: Kind<D>,
}

#[derive(Debug)]
pub enum Kind<D> {
    Data(D),
    Trailers(HeaderMap),
}

impl<D> Frame<D> {
    /// Creates a data frame, transferring ownership of `data` into it.
    pub fn data(data: D) -> (result: Self)
        ensures
            result.kind == Kind::Data(data),
    {
        Frame { kind: Kind::Data(data) }
    }

    /// Creates a trailers frame.
    pub fn trailers(trailers: HeaderMap) -> (result: Self)
        ensures
            result.kind == Kind::<D>::Trailers(trailers),
    {
        Frame { kind: Kind::Trailers(trailers) }
    }

    /// Returns a shared reference to the payload, if this is a data frame.
    pub fn data_ref(&self) -> (result: Option<&D>)
        ensures
            match self.kind {
                Kind::Data(data) => result == Some(&data),
                Kind::Trailers(_) => result is None,
            },
    {
        match &self.kind {
            Kind::Data(data) => Some(data),
            Kind::Trailers(_) => None,
        }
    }

    /// Returns a shared reference to the trailing fields, if present.
    pub fn trailers_ref(&self) -> (result: Option<&HeaderMap>)
        ensures
            match self.kind {
                Kind::Data(_) => result is None,
                Kind::Trailers(trailers) => result == Some(&trailers),
            },
    {
        match &self.kind {
            Kind::Data(_) => None,
            Kind::Trailers(trailers) => Some(trailers),
        }
    }

    /// Extracts the owned payload; a trailers frame comes back as it is.
    pub fn into_data(self) -> (result: Result<D, Self>)
        ensures
            match self.kind {
                Kind::Data(data) => result == Ok::<D, Self>(data),
                Kind::Trailers(_) => result == Err::<D, Self>(self),
            },
    {
        match self.kind {
            Kind::Data(data) => Ok(data),
            Kind::Trailers(trailers) => Err(Frame { kind: Kind::Trailers(trailers) }),
        }
    }

    /// Extracts trailing fields; a data frame comes back as it is.
    pub fn into_trailers(self) -> (result: Result<HeaderMap, Self>)
        ensures
            match self.kind {
                Kind::Data(_) => result == Err::<HeaderMap, Self>(self),
                Kind::Trailers(trailers) => result == Ok::<HeaderMap, Self>(trailers),
            },
    {
        match self.kind {
            Kind::Data(data) => Err(Frame { kind: Kind::Data(data) }),
            Kind::Trailers(trailers) => Ok(trailers),
        }
    }

    /// Transforms the payload, passing trailers through without calling `map`.
    ///
    /// The caller must update any associated size or recycling metadata when
    /// the transformation changes the payload representation or byte count.
    pub fn map_data<T, F: FnOnce(D) -> T>(self, map: F) -> (result: Frame<T>)
        requires
            self.kind matches Kind::Data(data) ==> call_requires(map, (data,)),
        ensures
            match self.kind {
                Kind::Data(data) => result.kind matches Kind::Data(mapped) && call_ensures(
                    map,
                    (data,),
                    mapped,
                ),
                Kind::Trailers(trailers) => result.kind == Kind::<T>::Trailers(trailers),
            },
    {
        match self.kind {
            Kind::Data(data) => Frame { kind: Kind::Data(map(data)) },
            Kind::Trailers(trailers) => Frame { kind: Kind::Trailers(trailers) },
        }
    }
}

} // verus!
