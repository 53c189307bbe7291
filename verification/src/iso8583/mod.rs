//! ISO 8583 dialects, messages, parsers and framing.

pub mod bitmap;
pub mod client;
pub mod config;
pub mod display;
pub mod field;
pub mod iso_spec;
pub mod mli;
pub mod reader;
pub mod round_trip;
pub mod server;
pub mod store;
pub mod yaml_de;

use crate::iso8583::field::ParseError;
use vstd::prelude::*;

verus! {

/// The kinds of failure this library reports.
#[derive(Clone, Copy, Debug, PartialEq, Eq, Structural)]
pub enum ErrorKind {
    /// Ran out of bytes in the middle of a field or of a length indicator.
    Truncated,
    /// A byte or character cannot be represented in the requested encoding.
    BadEncoding,
    /// A length indicator is not decimal, or the length does not fit in it.
    BadLengthIndicator,
    /// A bit is set, or a field is named, that the dialect does not define.
    UndefinedField,
    /// A field is due but the message holds no value for it.
    MissingField,
    /// No message segment answers to the header value.
    UnknownMessage,
    /// A bitmap position outside 1..=192.
    BadPosition,
    /// A feature this library does not provide.
    Unsupported,
    /// A MAC did not verify.
    MacMismatch,
    /// A PIN did not verify.
    PinMismatch,
    /// The peer closed the connection cleanly.
    ConnectionClosed,
    /// Any other transport failure.
    Io,
}

/// What an error says, as plain values.
pub struct Failure {
    pub kind: ErrorKind,
    pub subject: Seq<char>,
    pub position: u32,
}

/// IsoError represents a generic error throughout this and dependent sub-modules
#[derive(Debug)]
pub struct IsoError {
    /// What went wrong.
    pub kind: ErrorKind,
    /// What it went wrong with: a field name, a header value, a feature.
    pub msg: String,
    /// The bitmap position concerned, or 0.
    pub position: u32,
}

impl IsoError {
    /// The same failure, as an `IsoError`.
    pub fn from_parse(e: ParseError) -> (r: IsoError)
        ensures
            r@ == e@,
    {
        IsoError { kind: e.kind, msg: e.msg, position: e.position }
    }

    /// The same failure, as a `ParseError`.
    pub fn into_parse(self) -> (r: ParseError)
        ensures
            r@ == self@,
    {
        ParseError { kind: self.kind, msg: self.msg, position: self.position }
    }
}

impl View for IsoError {
    type V = Failure;

    open spec fn view(&self) -> Failure {
        Failure { kind: self.kind, subject: self.msg@, position: self.position }
    }
}

} // verus!
