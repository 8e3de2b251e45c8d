//! What stops discovery as a whole.

use vstd::prelude::*;
use vstd::string::StringExecFns;

verus! {

/// Why the search-path variable could not be read.
#[derive(Clone, Debug, PartialEq, Eq)]
pub enum Unavailable {
    /// The variable is not set.
    NotPresent,
    /// The variable is set to something that is not valid Unicode; the text
    /// shows that value as far as it can be shown.
    NotUnicode(String),
}

/// The one fatal error of discovery. A directory that cannot be opened and an
/// entry that cannot be read are no errors: they yield no record.
#[derive(Clone, Debug, PartialEq, Eq)]
pub enum Error {
    /// The search-path value of the environment is not available.
    EnvironmentError(Unavailable),
}

impl Error {
    /// The text of [`Error::message`].
    pub open spec fn spec_message(self) -> Seq<char> {
        match self {
            Error::EnvironmentError(Unavailable::NotPresent) => "environment variable not found"@,
            Error::EnvironmentError(Unavailable::NotUnicode(shown)) =>
                "environment variable was not valid unicode: "@ + shown@,
        }
    }

    /// A description of the error for the user.
    pub fn message(&self) -> (text: String)
        ensures
            text@ == self.spec_message(),
    {
        match self {
            Error::EnvironmentError(Unavailable::NotPresent) =>
                "environment variable not found".to_owned(),
            Error::EnvironmentError(Unavailable::NotUnicode(shown)) => {
                let mut text = "environment variable was not valid unicode: ".to_owned();
                text.append(shown.as_str());
                text
            },
        }
    }
}

} // verus!
