use vstd::prelude::*;

verus! {

/// An error that carries a human-readable message.
#[derive(Debug)]
pub struct SerializeError {
    pub msg: String,
}

impl SerializeError {
    pub fn new_string(s: String) -> (r: SerializeError)
        ensures
            r.msg@ == s@,
    {
        SerializeError { msg: s }
    }
}

} // verus!

verus! {

/// Why a lookup failed.
#[derive(Debug, Clone, PartialEq)]
pub enum LookupError {
    /// The transport failed, after its own retries.
    Transport(String),
    /// The provider answered with a status that is not retried.
    ProviderError { status: u16, body: String },
    /// The rate-limit waits used up the attempt budget.
    MaxRetriesExceeded,
    /// A provider payload could not be decoded.
    Serialization(String),
}

/// The text shown to the caller when the rate-limit budget is exhausted.
pub open spec fn max_retries_message() -> Seq<char> {
    "Maximum number of retries reached"@
}

impl LookupError {
    /// The client-facing message of this error.
    pub fn message(&self) -> (r: String)
        ensures
            r@ == self.message_spec(),
    {
        match self {
            LookupError::Transport(m) => m.clone(),
            LookupError::ProviderError { body, .. } => body.clone(),
            LookupError::MaxRetriesExceeded => String::from_str("Maximum number of retries reached"),
            LookupError::Serialization(m) => m.clone(),
        }
    }

    /// This error as a message-carrying error.
    pub fn to_serialize_error(&self) -> (r: SerializeError)
        ensures
            r.msg@ == self.message_spec(),
    {
        SerializeError::new_string(self.message())
    }

    pub open spec fn message_spec(&self) -> Seq<char> {
        match self {
            LookupError::Transport(m) => m@,
            LookupError::ProviderError { body, .. } => body@,
            LookupError::MaxRetriesExceeded => max_retries_message(),
            LookupError::Serialization(m) => m@,
        }
    }
}

} // verus!
