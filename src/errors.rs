//! The recoverable failures of the transport and the control layer.
use vstd::prelude::*;
use vstd::string::StringExecFns;

verus! {

/// A failure that a call hands back to its caller; misuse of the codec is
/// ruled out by preconditions instead.
#[derive(Debug)]
pub enum Error {
    /// A command could not be turned into bytes.
    Marshal { cause: String },
    /// Too few bytes to hold a header.
    HeaderLen { cause: String },
    /// A channel is absent or closed, or a read or write on it failed.
    Pipe { cause: String },
    /// Reserved for a check of a framing prefix.
    PrefixValidation { cause: String },
    /// The header's checksum does not match; the cause holds what could be
    /// read of the stream.
    CRCVerification { cause: String },
    /// The peer answered a control command with something that breaks the
    /// control protocol; the cause is the whole message.
    Protocol { cause: String },
}

/// The text in front of an error's cause in its message.
pub open spec fn message_prefix(e: Error) -> Seq<char> {
    match e {
        Error::CRCVerification { .. } => "validation failed on the message sent to STDOUT, cause "@,
        Error::Marshal { .. } => "payload marshaling failed: "@,
        Error::HeaderLen { .. } => "incorrect len, cause: "@,
        Error::Pipe { .. } => "pipe send error, cause: "@,
        Error::PrefixValidation { .. } => "prefix validation error: "@,
        Error::Protocol { .. } => ""@,
    }
}

impl Error {
    /// The cause that the error carries.
    pub open spec fn spec_cause(&self) -> Seq<char> {
        match self {
            Error::Marshal { cause } => cause@,
            Error::HeaderLen { cause } => cause@,
            Error::Pipe { cause } => cause@,
            Error::PrefixValidation { cause } => cause@,
            Error::CRCVerification { cause } => cause@,
            Error::Protocol { cause } => cause@,
        }
    }

    /// The error as text: a fixed phrase for its kind, then its cause.
    pub fn message(&self) -> (r: String)
        ensures
            r@ == message_prefix(*self) + self.spec_cause(),
    {
        let (prefix, cause) = match self {
            Error::CRCVerification { cause } => (
                "validation failed on the message sent to STDOUT, cause ",
                cause,
            ),
            Error::Marshal { cause } => ("payload marshaling failed: ", cause),
            Error::HeaderLen { cause } => ("incorrect len, cause: ", cause),
            Error::Pipe { cause } => ("pipe send error, cause: ", cause),
            Error::PrefixValidation { cause } => ("prefix validation error: ", cause),
            Error::Protocol { cause } => ("", cause),
        };
        let mut r = String::from_str(prefix);
        r.append(cause.as_str());
        r
    }
}

} // verus!
