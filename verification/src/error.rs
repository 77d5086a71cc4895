use vstd::prelude::*;

verus! {

/// The failure taxonomy of the tool. Every failure is terminal to the
/// current invocation; nothing is retried and no partial result survives.
#[derive(Debug, PartialEq, Eq, Structural)]
pub enum Error {
    /// A symbol query returned no candidates.
    NotFound,
    /// The operator cancelled an interactive prompt.
    InputAborted,
    /// A provider failed: network error, non-success status, or a response
    /// that could not be decoded (including an out-of-range timestamp or an
    /// unreadable date string in a price-history response).
    UpstreamFailure,
    /// The config file is missing, unreadable or unwritable.
    ConfigFailure,
    /// A transaction row carries a type label outside the known set.
    UnknownTransactionType,
    /// A transaction row does not have the fixed eleven-column layout.
    MalformedRecord,
}

impl Error {
    /// A short diagnostic label for the failure, for the top-level handler.
    pub fn describe(&self) -> (r: &'static str)
        ensures
            r@ == self.describe_spec(),
    {
        match self {
            Error::NotFound => "no symbol match",
            Error::InputAborted => "input aborted",
            Error::UpstreamFailure => "upstream failure",
            Error::ConfigFailure => "config failure",
            Error::UnknownTransactionType => "unknown transaction type",
            Error::MalformedRecord => "malformed record",
        }
    }

    pub open spec fn describe_spec(&self) -> Seq<char> {
        match self {
            Error::NotFound => "no symbol match"@,
            Error::InputAborted => "input aborted"@,
            Error::UpstreamFailure => "upstream failure"@,
            Error::ConfigFailure => "config failure"@,
            Error::UnknownTransactionType => "unknown transaction type"@,
            Error::MalformedRecord => "malformed record"@,
        }
    }
}

} // verus!
