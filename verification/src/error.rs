//! The recoverable failure of the seller.

use vstd::prelude::*;
use vstd::string::StringExecFns;

verus! {

/// Why a message was not processed. The text is fixed per cause.
#[derive(Debug)]
pub struct Error(String);

impl View for Error {
    type V = Seq<char>;

    closed spec fn view(&self) -> Seq<char> {
        self.0@
    }
}

impl Error {
    /// Whether this is the error of a trend reading observed too long ago.
    pub open spec fn is_outdated_message(&self) -> bool {
        self@ == "Received an outdated message"@
    }

    /// A trend reading was observed too long ago to act on.
    pub fn outdated_message() -> (e: Self)
        ensures
            e.is_outdated_message(),
    {
        Error("Received an outdated message".to_owned())
    }

    /// The error as it is written out: its text in quotes, inside
    /// `Error(..)`.
    pub fn to_string(&self) -> (s: String)
        ensures
            s@ == "Error(\""@ + self@ + "\")"@,
    {
        let mut s = "Error(\"".to_owned();
        s.append(self.0.as_str());
        s.append("\")");
        s
    }
}

} // verus!
