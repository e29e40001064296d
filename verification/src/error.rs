//! The error model of the crate.

use vstd::prelude::*;

verus! {

/// The kinds of failure a parse, a write or a conversion can report.
///
/// Errors that mean "this optional field is absent" are absorbed by callers;
/// errors that mean "the stream cannot be trusted from here on" abort the
/// whole parse.
#[derive(Clone, Copy, Debug)]
pub enum ErrorKind {
    /// An underlying input or output failure outside the parsed stream
    /// itself; raised only by the shell around the library, never by a
    /// parse of an in-memory stream.
    Io,
    /// The end of the stream was reached while scanning for the atom with
    /// the contained identifier.
    AtomNotFound([u8; 4]),
    /// Fewer bytes remained in the stream than an atom head needs.
    UnexpectedEof,
    /// The file parses but its `ftyp` text names no MPEG-4 audio flavor.
    NoTag,
    /// A fourcc was constructed from a string that is not exactly 4 bytes.
    InvalidIdentifierLength,
    /// A declared atom length is inconsistent with the bytes that remain,
    /// or an encoded atom does not fit the 32 bit length prefix.
    BoundsExceeded,
    /// An unknown media type code was read from a `stik` atom.
    UnknownMediaType(u8),
    /// An unknown channel configuration or sample rate index was read.
    UnknownChannelConfig(u8),
}

impl ErrorKind {
    /// Two kinds are the same when they are the same variant with the same
    /// payload.
    pub open spec fn same(self, other: ErrorKind) -> bool {
        match (self, other) {
            (ErrorKind::Io, ErrorKind::Io) => true,
            (ErrorKind::AtomNotFound(a), ErrorKind::AtomNotFound(b)) => a@ == b@,
            (ErrorKind::UnexpectedEof, ErrorKind::UnexpectedEof) => true,
            (ErrorKind::NoTag, ErrorKind::NoTag) => true,
            (ErrorKind::InvalidIdentifierLength, ErrorKind::InvalidIdentifierLength) => true,
            (ErrorKind::BoundsExceeded, ErrorKind::BoundsExceeded) => true,
            (ErrorKind::UnknownMediaType(a), ErrorKind::UnknownMediaType(b)) => a == b,
            (ErrorKind::UnknownChannelConfig(a), ErrorKind::UnknownChannelConfig(b)) => a == b,
            _ => false,
        }
    }
}

impl PartialEq for ErrorKind {
    fn eq(&self, other: &ErrorKind) -> (r: bool) {
        match (self, other) {
            (ErrorKind::Io, ErrorKind::Io) => true,
            (ErrorKind::AtomNotFound(a), ErrorKind::AtomNotFound(b)) => {
                let r = a[0] == b[0] && a[1] == b[1] && a[2] == b[2] && a[3] == b[3];
                proof {
                    if r {
                        assert(a@ =~= b@);
                    }
                }
                r
            },
            (ErrorKind::UnexpectedEof, ErrorKind::UnexpectedEof) => true,
            (ErrorKind::NoTag, ErrorKind::NoTag) => true,
            (ErrorKind::InvalidIdentifierLength, ErrorKind::InvalidIdentifierLength) => true,
            (ErrorKind::BoundsExceeded, ErrorKind::BoundsExceeded) => true,
            (ErrorKind::UnknownMediaType(a), ErrorKind::UnknownMediaType(b)) => a == b,
            (ErrorKind::UnknownChannelConfig(a), ErrorKind::UnknownChannelConfig(b)) => a == b,
            _ => false,
        }
    }
}

impl vstd::std_specs::cmp::PartialEqSpecImpl for ErrorKind {
    open spec fn obeys_eq_spec() -> bool {
        true
    }

    open spec fn eq_spec(&self, other: &ErrorKind) -> bool {
        self.same(*other)
    }
}

impl Eq for ErrorKind {}

/// The mathematical shape of an error kind, with byte payloads as sequences.
#[verifier::ext_equal]
pub enum ErrorRep {
    /// An underlying input or output failure outside the parsed stream.
    Io,
    /// The end of the stream was reached while scanning for this identifier.
    AtomNotFound(Seq<u8>),
    /// Fewer bytes remained than an atom head needs.
    UnexpectedEof,
    /// The `ftyp` text names no MPEG-4 audio flavor.
    NoTag,
    /// A fourcc string is not exactly 4 bytes.
    InvalidIdentifierLength,
    /// A declared length is inconsistent with the bytes that remain.
    BoundsExceeded,
    /// An unknown media type code.
    UnknownMediaType(u8),
    /// An unknown channel configuration or sample rate index.
    UnknownChannelConfig(u8),
}

/// The shape of an error kind.
pub open spec fn error_rep(k: ErrorKind) -> ErrorRep {
    match k {
        ErrorKind::Io => ErrorRep::Io,
        ErrorKind::AtomNotFound(h) => ErrorRep::AtomNotFound(h@),
        ErrorKind::UnexpectedEof => ErrorRep::UnexpectedEof,
        ErrorKind::NoTag => ErrorRep::NoTag,
        ErrorKind::InvalidIdentifierLength => ErrorRep::InvalidIdentifierLength,
        ErrorKind::BoundsExceeded => ErrorRep::BoundsExceeded,
        ErrorKind::UnknownMediaType(v) => ErrorRep::UnknownMediaType(v),
        ErrorKind::UnknownChannelConfig(v) => ErrorRep::UnknownChannelConfig(v),
    }
}

/// An error: a kind together with a human readable description.
#[derive(Clone, Debug)]
pub struct Error {
    /// What went wrong.
    pub kind: ErrorKind,
    /// A short description for diagnostics.
    pub description: String,
}

impl Error {
    /// Creates an error of the given kind.
    pub fn new(kind: ErrorKind, description: &str) -> (r: Error)
        ensures
            r.kind == kind,
            r.description@ == description@,
    {
        Error { kind, description: description.to_owned() }
    }
}

} // verus!
