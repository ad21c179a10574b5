use vstd::prelude::*;

verus! {

/// Everything that can make one exchange with the device fail.
#[derive(Clone, Copy, Debug, PartialEq, Eq, Structural)]
pub enum Error {
    /// A buffer ended before a field the wire format requires.
    Truncated,
    /// The status byte of a response is not one of the known codes.
    UnknownStatus,
    /// The mode word of a BinInfo result is not one of the known codes.
    UnknownMode,
    /// Text in a result is not well-formed UTF-8.
    Encoding,
    /// A frame is empty, declares more bytes than it carries, or belongs to
    /// the serial side channel while a response is being reassembled.
    Framing,
    /// The device answered with a status other than `Success`.
    MalformedRequest,
    /// The device reported that it failed to carry out a command.
    /// `finish_exchange` reports every status other than `Success` as
    /// `MalformedRequest`; this kind is for callers that look at
    /// `CommandResponse::status` themselves.
    Execution,
    /// The response carries a tag other than the one that was sent.
    Sequence,
    /// The channel to the device failed.
    Transmission,
    /// A message is larger than the device's maximum message size.
    Overflow,
    /// A command argument breaks one of the protocol's limits.
    InvalidArgument,
}

impl Error {
    /// Errors that come from bytes that could not be decoded.
    pub open spec fn is_parse_spec(self) -> bool {
        match self {
            Error::Truncated | Error::UnknownStatus | Error::UnknownMode | Error::Encoding
            | Error::Framing => true,
            _ => false,
        }
    }

    pub fn is_parse(&self) -> (r: bool)
        ensures
            r == self.is_parse_spec(),
    {
        match self {
            Error::Truncated | Error::UnknownStatus | Error::UnknownMode | Error::Encoding
            | Error::Framing => true,
            _ => false,
        }
    }
}

} // verus!
