//! The error taxonomy: decoder-internal faults, and the public error type
//! that is generic over whatever error the caller's page consumer produces.

use vstd::prelude::*;

use crate::tag::Tag;

verus! {

/// A fault the decoder itself can raise while walking the token stream.
/// Every fault carries enough position or name context to locate the problem
/// in the source file.
#[derive(Debug, PartialEq, Eq)]
pub enum Fault {
    /// Generic grammar deviation at a byte position.
    Format { position: usize },
    /// A specific tag was anticipated and a different recognized tag stood
    /// there.
    Tag { expected: Tag, actual: Tag, position: usize },
    /// Entity-unescaping or text-decoding failure inside a payload.
    FailedToDecode { position: usize },
    /// An element name outside the closed registry.
    UnexpectedTag(Vec<u8>),
}

/// Ghost mirror of `Fault`.
pub enum GFault {
    Format { position: usize },
    Tag { expected: Tag, actual: Tag, position: usize },
    FailedToDecode { position: usize },
    UnexpectedTag(Seq<u8>),
}

impl View for Fault {
    type V = GFault;

    open spec fn view(&self) -> GFault {
        match self {
            Fault::Format { position } => GFault::Format { position: *position },
            Fault::Tag { expected, actual, position } => GFault::Tag {
                expected: *expected,
                actual: *actual,
                position: *position,
            },
            Fault::FailedToDecode { position } => GFault::FailedToDecode { position: *position },
            Fault::UnexpectedTag(name) => GFault::UnexpectedTag(name@),
        }
    }
}

/// What a whole decode run can report. `E` is the opaque error type of the
/// caller's consumer; the decoder never constructs `Other` itself.
#[derive(Debug, PartialEq, Eq)]
pub enum Error<E> {
    /// Invalid XML (schema or format) at a byte position.
    Format { position: usize },
    /// Expected one tag, found another.
    Tag { expected: Tag, actual: Tag, position: usize },
    /// Failed to unescape or decode text at a byte position.
    FailedToDecode { position: usize },
    /// A tag outside the closed registry.
    UnexpectedTag(Vec<u8>),
    /// An input/output failure, described by the attempted action, the
    /// file path and the underlying cause.
    Io { action: String, path: String, cause: String },
    /// A decompressor could not be set up over the named file.
    DecompressionInit { path: String, cause: String },
    /// An error of the caller's page consumer, passed through verbatim.
    Other(E),
}

/// The error `e` is exactly the decoder fault `f`, field by field.
pub open spec fn is_fault<E>(e: Error<E>, f: GFault) -> bool {
    match e {
        Error::Format { position } => f == (GFault::Format { position }),
        Error::Tag { expected, actual, position } => f == (GFault::Tag {
            expected,
            actual,
            position,
        }),
        Error::FailedToDecode { position } => f == (GFault::FailedToDecode { position }),
        Error::UnexpectedTag(name) => f == GFault::UnexpectedTag(name@),
        Error::Io { .. } => false,
        Error::DecompressionInit { .. } => false,
        Error::Other(_) => false,
    }
}

/// Two errors (over possibly different consumer error types) describe the
/// same decoder-side failure.
pub open spec fn same_failure<E1, E2>(a: Error<E1>, b: Error<E2>) -> bool {
    match a {
        Error::Format { position } => b matches Error::Format { position: q } && position == q,
        Error::Tag { expected, actual, position } => b matches Error::Tag {
            expected: x,
            actual: y,
            position: q,
        } && expected == x && actual == y && position == q,
        Error::FailedToDecode { position } => b matches Error::FailedToDecode { position: q }
            && position == q,
        Error::UnexpectedTag(name) => b matches Error::UnexpectedTag(m) && name@ == m@,
        Error::Io { action, path, cause } => b matches Error::Io {
            action: a2,
            path: p2,
            cause: c2,
        } && action@ == a2@ && path@ == p2@ && cause@ == c2@,
        Error::DecompressionInit { path, cause } => b matches Error::DecompressionInit {
            path: p2,
            cause: c2,
        } && path@ == p2@ && cause@ == c2@,
        Error::Other(_) => false,
    }
}

impl<E> Error<E> {
    /// Wraps a decoder fault in the public error type.
    pub fn from_fault(f: Fault) -> (r: Error<E>)
        ensures
            is_fault(r, f@),
    {
        match f {
            Fault::Format { position } => Error::Format { position },
            Fault::Tag { expected, actual, position } => Error::Tag {
                expected,
                actual,
                position,
            },
            Fault::FailedToDecode { position } => Error::FailedToDecode { position },
            Fault::UnexpectedTag(name) => Error::UnexpectedTag(name),
        }
    }

    /// Splits an error into the decoder's own failure, or the consumer's
    /// error when that is what stopped the run.
    pub fn to_infallible(e: Error<E>) -> (r: Result<Error<()>, E>)
        ensures
            match e {
                Error::Other(_) => r matches Err(x) && e == Error::Other(x),
                _ => r matches Ok(b) && same_failure(e, b),
            },
    {
        match e {
            Error::Format { position } => Ok(Error::Format { position }),
            Error::Tag { expected, actual, position } => Ok(Error::Tag {
                expected,
                actual,
                position,
            }),
            Error::FailedToDecode { position } => Ok(Error::FailedToDecode { position }),
            Error::UnexpectedTag(name) => Ok(Error::UnexpectedTag(name)),
            Error::Io { action, path, cause } => Ok(Error::Io { action, path, cause }),
            Error::DecompressionInit { path, cause } => Ok(Error::DecompressionInit {
                path,
                cause,
            }),
            Error::Other(other) => Err(other),
        }
    }
}

} // verus!
