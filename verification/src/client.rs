//! The requests a client sends to the daemon, and their form on the wire.

use crate::error::Error;
use crate::wire::{
    lemma_u32_bytes, lemma_u32_prefix_unique, lemma_u64_bytes, lemma_u64_prefix_unique, put_u32,
    put_u64, take_u32, take_u64,
};
use vstd::bytes::{spec_u32_to_le_bytes, spec_u64_to_le_bytes};
use vstd::prelude::*;
use vstd::slice::slice_subrange;

verus! {

/// What a client can ask of the daemon. A position is an index into the
/// listing that the daemon serves.
#[derive(Debug, Clone, Copy, PartialEq, Eq, Structural)]
pub enum Request {
    /// Request the list of clippings.
    Clipping,
    /// Delete the clipping at a position.
    Delete(usize),
    /// Purge all stored clippings.
    Purge,
    /// Make the clipping at a position the active one.
    Select(usize),
}

/// The number that stands for the kind of a request on the wire.
pub open spec fn request_tag(request: Request) -> u32 {
    match request {
        Request::Clipping => 0,
        Request::Delete(_) => 1,
        Request::Purge => 2,
        Request::Select(_) => 3,
    }
}

/// A request on the wire: its tag as four little-endian bytes, followed, for
/// the two kinds that carry one, by the position as eight little-endian bytes.
pub open spec fn request_bytes(request: Request) -> Seq<u8> {
    match request {
        Request::Clipping => spec_u32_to_le_bytes(0),
        Request::Delete(position) => spec_u32_to_le_bytes(1) + spec_u64_to_le_bytes(
            position as u64,
        ),
        Request::Purge => spec_u32_to_le_bytes(2),
        Request::Select(position) => spec_u32_to_le_bytes(3) + spec_u64_to_le_bytes(
            position as u64,
        ),
    }
}

/// Whether `head` holds at least the tag of `request`.
pub open spec fn starts_request(head: Seq<u8>, request: Request) -> bool {
    spec_u32_to_le_bytes(request_tag(request)).is_prefix_of(head)
}

/// The request whose wire form starts `bytes`, if there is one. There is never
/// more than one.
pub open spec fn parse_request(bytes: Seq<u8>) -> Option<Request> {
    if exists|q: Request| (#[trigger] request_bytes(q)).is_prefix_of(bytes) {
        Some(choose|q: Request| (#[trigger] request_bytes(q)).is_prefix_of(bytes))
    } else {
        None
    }
}

/// A request starts with its tag, and is four or twelve bytes long.
pub proof fn lemma_request_bytes_shape(request: Request)
    ensures
        spec_u32_to_le_bytes(request_tag(request)).is_prefix_of(request_bytes(request)),
        request_bytes(request).len() == match request {
            Request::Clipping | Request::Purge => 4int,
            Request::Delete(_) | Request::Select(_) => 12int,
        },
{
    lemma_u32_bytes(request_tag(request), 0);
    match request {
        Request::Delete(p) => {
            lemma_u64_bytes(p as u64, 0);
        },
        Request::Select(p) => {
            lemma_u64_bytes(p as u64, 0);
        },
        _ => {},
    }
}

/// No two requests start the same bytes: whoever reads a request from the
/// front of a stream reads the one that was written.
pub proof fn lemma_request_prefix_unique(a: Request, b: Request, bytes: Seq<u8>)
    requires
        request_bytes(a).is_prefix_of(bytes),
        request_bytes(b).is_prefix_of(bytes),
    ensures
        a == b,
{
    lemma_request_bytes_shape(a);
    lemma_request_bytes_shape(b);
    lemma_u32_prefix_unique(request_tag(a), request_tag(b), bytes);
    match (a, b) {
        (Request::Delete(p), Request::Delete(q)) => {
            lemma_u32_bytes(1, 0);
            lemma_u64_bytes(p as u64, q as u64);
            lemma_u64_bytes(q as u64, p as u64);
            assert(spec_u64_to_le_bytes(p as u64) =~= request_bytes(a).subrange(4, 12));
            assert(spec_u64_to_le_bytes(q as u64) =~= request_bytes(b).subrange(4, 12));
            lemma_u64_prefix_unique(p as u64, q as u64, bytes.subrange(4, 12));
        },
        (Request::Select(p), Request::Select(q)) => {
            lemma_u32_bytes(3, 0);
            lemma_u64_bytes(p as u64, q as u64);
            lemma_u64_bytes(q as u64, p as u64);
            assert(spec_u64_to_le_bytes(p as u64) =~= request_bytes(a).subrange(4, 12));
            assert(spec_u64_to_le_bytes(q as u64) =~= request_bytes(b).subrange(4, 12));
            lemma_u64_prefix_unique(p as u64, q as u64, bytes.subrange(4, 12));
        },
        _ => {},
    }
}

/// Decoding gives back what was encoded: the wire form of a request, followed
/// by any bytes, reads as that request.
pub proof fn lemma_request_round_trip(request: Request, rest: Seq<u8>)
    ensures
        parse_request(request_bytes(request) + rest) == Some(request),
{
    let bytes = request_bytes(request) + rest;
    assert(request_bytes(request).is_prefix_of(bytes));
    lemma_request_prefix_unique(request, parse_request(bytes).unwrap(), bytes);
}

impl Request {
    /// The bytes that carry this request to the daemon.
    pub fn encode(&self) -> (bytes: Vec<u8>)
        ensures
            bytes@ == request_bytes(*self),
    {
        match *self {
            Request::Clipping => put_u32(0),
            Request::Delete(position) => {
                let mut bytes = put_u32(1);
                let mut payload = put_u64(position as u64);
                bytes.append(&mut payload);
                bytes
            },
            Request::Purge => put_u32(2),
            Request::Select(position) => {
                let mut bytes = put_u32(3);
                let mut payload = put_u64(position as u64);
                bytes.append(&mut payload);
                bytes
            },
        }
    }

    /// Reads a request from the front of `bytes`; what follows it is let be.
    /// The result is the one request whose wire form starts `bytes`, and
    /// `ProtocolError` when there is none.
    pub fn decode(bytes: &[u8]) -> (r: Result<Request, Error>)
        ensures
            r == match parse_request(bytes@) {
                Some(request) => Ok::<Request, Error>(request),
                None => Err(Error::ProtocolError),
            },
    {
        let r = Self::read_front(bytes);
        proof {
            if let Ok(request) = r {
                lemma_request_prefix_unique(request, parse_request(bytes@).unwrap(), bytes@);
            }
        }
        r
    }

    fn read_front(bytes: &[u8]) -> (r: Result<Request, Error>)
        ensures
            match r {
                Ok(request) => request_bytes(request).is_prefix_of(bytes@),
                Err(e) => {
                    &&& e == Error::ProtocolError
                    &&& forall|q: Request| !(#[trigger] request_bytes(q)).is_prefix_of(bytes@)
                },
            },
    {
        let tag = match take_u32(bytes) {
            Some(tag) => tag,
            None => {
                proof {
                    assert forall|q: Request| !(#[trigger] request_bytes(q)).is_prefix_of(
                        bytes@,
                    ) by {
                        lemma_request_bytes_shape(q);
                    }
                }
                return Err(Error::ProtocolError);
            },
        };
        proof {
            lemma_u32_bytes(tag, 0);
        }
        if tag == 0 {
            Ok(Request::Clipping)
        } else if tag == 2 {
            Ok(Request::Purge)
        } else if tag == 1 || tag == 3 {
            let payload = slice_subrange(bytes, 4, bytes.len());
            let position = match take_u64(payload) {
                Some(v) if v <= usize::MAX as u64 => v as usize,
                other => {
                    proof {
                        assert forall|q: Request| !(#[trigger] request_bytes(q)).is_prefix_of(
                            bytes@,
                        ) by {
                            if request_bytes(q).is_prefix_of(bytes@) {
                                lemma_request_bytes_shape(q);
                                lemma_u32_prefix_unique(request_tag(q), tag, bytes@);
                                let p: usize = match q {
                                    Request::Delete(p) => p,
                                    Request::Select(p) => p,
                                    _ => 0,
                                };
                                assert(spec_u64_to_le_bytes(p as u64) =~= request_bytes(
                                    q,
                                ).subrange(4, 12));
                                assert(spec_u64_to_le_bytes(p as u64).is_prefix_of(payload@));
                                if let Some(v) = other {
                                    lemma_u64_prefix_unique(p as u64, v, payload@);
                                }
                            }
                        }
                    }
                    return Err(Error::ProtocolError);
                },
            };
            proof {
                lemma_u64_bytes(position as u64, 0);
            }
            if tag == 1 {
                assert(request_bytes(Request::Delete(position)) =~= bytes@.subrange(0, 12));
                Ok(Request::Delete(position))
            } else {
                assert(request_bytes(Request::Select(position)) =~= bytes@.subrange(0, 12));
                Ok(Request::Select(position))
            }
        } else {
            proof {
                assert forall|q: Request| !(#[trigger] request_bytes(q)).is_prefix_of(
                    bytes@,
                ) by {
                    if request_bytes(q).is_prefix_of(bytes@) {
                        lemma_request_bytes_shape(q);
                        lemma_u32_prefix_unique(request_tag(q), tag, bytes@);
                    }
                }
            }
            Err(Error::ProtocolError)
        }
    }

    /// How many bytes the request takes whose first bytes are `head`, or
    /// `None` when `head` holds the tag of no request. A reader that has the
    /// first four bytes of a message learns from this how many to wait for.
    pub fn frame_len(head: &[u8]) -> (r: Option<usize>)
        ensures
            match r {
                Some(n) => {
                    &&& exists|q: Request| starts_request(head@, q)
                    &&& forall|q: Request| #[trigger]
                        starts_request(head@, q) ==> request_bytes(q).len() == n
                },
                None => forall|q: Request| !#[trigger] starts_request(head@, q),
            },
    {
        let tag = match take_u32(head) {
            Some(tag) => tag,
            None => {
                proof {
                    assert forall|q: Request| !#[trigger] starts_request(head@, q) by {
                        lemma_u32_bytes(request_tag(q), 0);
                    }
                }
                return None;
            },
        };
        proof {
            assert forall|q: Request| #[trigger] starts_request(head@, q) implies request_tag(q)
                == tag by {
                lemma_u32_prefix_unique(request_tag(q), tag, head@);
            }
            assert forall|q: Request| #[trigger]
                request_bytes(q).len() == (match q {
                    Request::Clipping | Request::Purge => 4int,
                    Request::Delete(_) | Request::Select(_) => 12int,
                }) by {
                lemma_request_bytes_shape(q);
            }
        }
        if tag == 0 {
            assert(starts_request(head@, Request::Clipping));
            Some(4)
        } else if tag == 2 {
            assert(starts_request(head@, Request::Purge));
            Some(4)
        } else if tag == 1 {
            assert(starts_request(head@, Request::Delete(0)));
            Some(12)
        } else if tag == 3 {
            assert(starts_request(head@, Request::Select(0)));
            Some(12)
        } else {
            None
        }
    }
}

} // verus!
