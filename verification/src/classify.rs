//! Response classification.
//!
//! A classifier decides the semantic outcome of a request.  It is a
//! two-phase capability: a `ClassifyResponse` sees the response head (or a
//! transport error before any head) and becomes a `ClassifyEos`, which sees
//! the end of the response stream (trailers, an error, or a bare end) and
//! yields the terminal `Class`.  Each phase consumes the classifier, so a
//! request is classified at most once by construction.

use vstd::prelude::*;

verus! {

/// The semantic outcome of a request.  `Failure` carries an opaque
/// domain-defined code (for the built-in classifier, a gRPC status code, or
/// zero for transport errors and failing HTTP statuses).
#[derive(Clone, Copy, Debug, PartialEq, Eq, Structural, Hash)]
pub enum Class {
    Success,
    Failure(u64),
}

/// What a classifier reads from a response's trailer block, distilled to
/// plain values: the `grpc-status` trailer, when present and numeric.
#[derive(Clone, Copy, Debug)]
pub struct Trailers {
    pub grpc_status: Option<u32>,
}

/// The first classifier phase: consumed when the response head arrives, or
/// by a transport error that precedes any head.
pub trait ClassifyResponse: Sized {
    type Eos: ClassifyEos;

    /// The second phase this classifier becomes on a response head.
    spec fn start_spec(self, status: u16) -> Self::Eos;

    /// The class this classifier gives a transport error seen before any
    /// response head.
    spec fn error_spec(self) -> Class;

    /// The classifier a caller gets when none was attached to the request.
    spec fn default_spec() -> Self;

    fn start(self, status: u16) -> (e: Self::Eos)
        ensures
            e == self.start_spec(status),
    ;

    fn on_error(self) -> (c: Class)
        ensures
            c == self.error_spec(),
    ;

    fn default_classify() -> (c: Self)
        ensures
            c == Self::default_spec(),
    ;
}

/// The second classifier phase: consumed at the end of the response stream.
pub trait ClassifyEos: Sized {
    /// The class this classifier gives an end of stream, with or without
    /// trailers.
    spec fn eos_spec(self, trailers: Option<Trailers>) -> Class;

    /// The class this classifier gives a transport error seen while the
    /// body was streaming.
    spec fn error_spec(self) -> Class;

    fn eos(self, trailers: Option<Trailers>) -> (c: Class)
        ensures
            c == self.eos_spec(trailers),
    ;

    fn on_error(self) -> (c: Class)
        ensures
            c == self.error_spec(),
    ;
}

/// The built-in classifier: a response is a failure when its trailers carry
/// a non-zero `grpc-status`, or, without such a trailer, when its HTTP
/// status is a server error; transport errors are failures with code zero.
#[derive(Clone, Copy, Debug)]
pub struct DefaultClassify;

/// The second phase of `DefaultClassify`; it remembers the response status.
#[derive(Clone, Copy, Debug)]
pub struct DefaultClassifyEos {
    pub status: u16,
}

impl ClassifyResponse for DefaultClassify {
    type Eos = DefaultClassifyEos;

    open spec fn start_spec(self, status: u16) -> DefaultClassifyEos {
        DefaultClassifyEos { status }
    }

    open spec fn error_spec(self) -> Class {
        Class::Failure(0)
    }

    open spec fn default_spec() -> DefaultClassify {
        DefaultClassify
    }

    fn start(self, status: u16) -> (e: DefaultClassifyEos) {
        DefaultClassifyEos { status }
    }

    fn on_error(self) -> (c: Class) {
        Class::Failure(0)
    }

    fn default_classify() -> (c: DefaultClassify) {
        DefaultClassify
    }
}

impl ClassifyEos for DefaultClassifyEos {
    open spec fn eos_spec(self, trailers: Option<Trailers>) -> Class {
        match trailers {
            Some(t) => match t.grpc_status {
                Some(code) => if code == 0 {
                    Class::Success
                } else {
                    Class::Failure(code as u64)
                },
                None => self.status_class(),
            },
            None => self.status_class(),
        }
    }

    open spec fn error_spec(self) -> Class {
        Class::Failure(0)
    }

    fn eos(self, trailers: Option<Trailers>) -> (c: Class) {
        match trailers {
            Some(t) => match t.grpc_status {
                Some(code) => if code == 0 {
                    Class::Success
                } else {
                    Class::Failure(code as u64)
                },
                None => self.class_of_status(),
            },
            None => self.class_of_status(),
        }
    }

    fn on_error(self) -> (c: Class) {
        Class::Failure(0)
    }
}

impl DefaultClassifyEos {
    /// The class of a stream that ended without a `grpc-status` trailer:
    /// failure exactly for server-error statuses.
    pub open spec fn status_class(self) -> Class {
        if 500 <= self.status {
            Class::Failure(0)
        } else {
            Class::Success
        }
    }

    fn class_of_status(self) -> (c: Class)
        ensures
            c == self.status_class(),
    {
        if 500 <= self.status {
            Class::Failure(0)
        } else {
            Class::Success
        }
    }
}

impl Default for DefaultClassify {
    /// The classifier used when a request carries none.
    fn default() -> (c: DefaultClassify)
        ensures
            c == DefaultClassify,
    {
        DefaultClassify
    }
}

} // verus!
