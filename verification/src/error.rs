//! The error type shared by the whole library.
use vstd::prelude::*;

verus! {

/// What a failing operation reports.
#[derive(Debug)]
pub enum Error {
    /// A request that the data structures cannot satisfy.
    Lowlevel(String),
    /// An encoded document that cannot be decoded.
    Decoder(String),
}

pub type Result<T> = std::result::Result<T, Error>;

impl Error {
    /// The text of the report.
    pub open spec fn message(self) -> Seq<char> {
        match self {
            Error::Lowlevel(text) => text@,
            Error::Decoder(text) => text@,
        }
    }

    /// A low-level error with the given text.
    pub open spec fn is_lowlevel(self, text: Seq<char>) -> bool {
        self is Lowlevel && self.message() == text
    }

    /// A decoding error with the given text.
    pub open spec fn is_decoder(self, text: Seq<char>) -> bool {
        self is Decoder && self.message() == text
    }

    pub fn lowlevel(text: &str) -> (res: Error)
        ensures
            res.is_lowlevel(text@),
    {
        Error::Lowlevel(text.to_owned())
    }

    pub fn decoder(text: &str) -> (res: Error)
        ensures
            res.is_decoder(text@),
    {
        Error::Decoder(text.to_owned())
    }
}

} // verus!
