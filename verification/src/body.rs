//! The response body type.

use vstd::prelude::*;

verus! {

/// The body of an outgoing response. `S` is the type of a stream of chunks.
///
/// Buffered responses hold the payload itself; streaming responses (server-sent
/// events, chunked downloads) carry a stream.
pub enum ResBody<S> {
    /// No payload at all: `204`, `304`, and responses to `HEAD`.
    Empty,
    /// A fully buffered payload of known length.
    Full(Vec<u8>),
    /// A stream of chunks of unknown total length.
    Stream(S),
}

/// A response body, as a value.
#[verifier::ext_equal]
pub enum BodyModel<S> {
    Empty,
    Full(Seq<u8>),
    Stream(S),
}

impl<S> View for ResBody<S> {
    type V = BodyModel<S>;

    open spec fn view(&self) -> BodyModel<S> {
        match self {
            ResBody::Empty => BodyModel::Empty,
            ResBody::Full(bytes) => BodyModel::Full(bytes@),
            ResBody::Stream(stream) => BodyModel::Stream(*stream),
        }
    }
}

impl<S> BodyModel<S> {
    /// The body of a buffered payload.
    pub open spec fn full(bytes: Seq<u8>) -> BodyModel<S> {
        if bytes.len() == 0 {
            BodyModel::Empty
        } else {
            BodyModel::Full(bytes)
        }
    }
}

impl<S> ResBody<S> {
    /// Wraps an already-buffered payload.
    pub fn full(bytes: Vec<u8>) -> (body: Self)
        ensures
            body@ == BodyModel::<S>::full(bytes@),
    {
        if bytes.len() == 0 {
            ResBody::Empty
        } else {
            ResBody::Full(bytes)
        }
    }

    /// Wraps a stream of chunks.
    pub fn stream(stream: S) -> (body: Self)
        ensures
            body@ == BodyModel::<S>::Stream(stream),
    {
        ResBody::Stream(stream)
    }

    /// The exact payload length, when it is known up front.
    pub fn len(&self) -> (n: Option<usize>)
        ensures
            match self@ {
                BodyModel::Empty => n == Some(0usize),
                BodyModel::Full(bytes) => n is Some && n->0 == bytes.len(),
                _ => n is None,
            },
    {
        match self {
            ResBody::Empty => Some(0),
            ResBody::Full(bytes) => Some(bytes.len()),
            ResBody::Stream(_) => None,
        }
    }

    /// True when this body is statically known to carry no bytes.
    pub fn is_empty(&self) -> (r: bool)
        ensures
            r == (self@ is Empty),
    {
        match self {
            ResBody::Empty => true,
            _ => false,
        }
    }

    /// Hands the buffered payload over wholesale, leaving nothing behind so
    /// the next call ends the body.
    pub fn take_chunk(&mut self) -> (chunk: Option<Vec<u8>>)
        ensures
            match old(self)@ {
                BodyModel::Full(bytes) => {
                    &&& bytes.len() > 0 ==> chunk is Some && chunk->0@ == bytes
                    &&& bytes.len() == 0 ==> chunk is None
                    &&& final(self)@ == BodyModel::<S>::Full(Seq::empty())
                },
                _ => chunk is None && final(self)@ == old(self)@,
            },
    {
        if let ResBody::Full(bytes) = self {
            let mut chunk: Vec<u8> = Vec::new();
            core::mem::swap(bytes, &mut chunk);
            if chunk.len() > 0 {
                return Some(chunk);
            }
        }
        None
    }

    /// True once there is nothing more to send.
    pub fn is_end_stream(&self) -> (r: bool)
        ensures
            r == match self@ {
                BodyModel::Empty => true,
                BodyModel::Full(bytes) => bytes.len() == 0,
                _ => false,
            },
    {
        match self {
            ResBody::Empty => true,
            ResBody::Full(bytes) => bytes.len() == 0,
            ResBody::Stream(_) => false,
        }
    }
}

} // verus!
