use vstd::prelude::*;

verus! {

/// The failures of the service, with the text of the underlying error.
#[derive(Debug, Clone, PartialEq, Eq)]
pub enum NpsError {
    ServerInternal,
    Io(String),
    Mongo(String),
}

impl NpsError {
    /// The text that describes the failure.
    pub open spec fn spec_message(&self) -> Seq<char> {
        match self {
            NpsError::ServerInternal => "Internal Server Error"@,
            NpsError::Io(e) => "IO error: "@ + e@,
            NpsError::Mongo(e) => "MongoDB error: "@ + e@,
        }
    }

    /// The text that describes the failure.
    pub fn message(&self) -> (r: String)
        ensures
            r@ == self.spec_message(),
    {
        match self {
            NpsError::ServerInternal => String::from_str("Internal Server Error"),
            NpsError::Io(e) => String::from_str("IO error: ").concat(e.as_str()),
            NpsError::Mongo(e) => String::from_str("MongoDB error: ").concat(e.as_str()),
        }
    }
}

} // verus!
