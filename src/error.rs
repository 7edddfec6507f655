use vstd::prelude::*;
use vstd::string::StringExecFns;

verus! {

/// The library's result type.
pub type Result<T> = core::result::Result<T, Error>;

/// Recoverable errors of the storage engine.
#[derive(Clone, Debug)]
pub enum Error {
    /// Invalid data, typically decoding errors or unexpected internal values.
    InvalidData(String),
    /// Invalid user input, typically parser or query errors.
    InvalidInput(String),
    /// An IO error.
    IO(String),
    /// A numerical (e.g. integer) overflow error.
    ArithmeticOverflow,
    /// Out-of-bounds access occurred.
    OutOfBounds,
}

impl Error {
    /// The human-readable text of an error: a prefix naming its kind, then its message.
    pub open spec fn text(&self) -> Seq<char> {
        match self {
            Error::InvalidData(m) => "Invalid data: "@ + m@,
            Error::InvalidInput(m) => "Invalid input: "@ + m@,
            Error::IO(m) => "IO error: "@ + m@,
            Error::ArithmeticOverflow => "Arithmetic overflow"@,
            Error::OutOfBounds => "Out of bounds"@,
        }
    }

    /// Two errors are equal when they are of one kind and carry the same text.
    pub open spec fn same_as(&self, other: &Error) -> bool {
        match (self, other) {
            (Error::InvalidData(a), Error::InvalidData(b)) => a@ == b@,
            (Error::InvalidInput(a), Error::InvalidInput(b)) => a@ == b@,
            (Error::IO(a), Error::IO(b)) => a@ == b@,
            (Error::ArithmeticOverflow, Error::ArithmeticOverflow) => true,
            (Error::OutOfBounds, Error::OutOfBounds) => true,
            _ => false,
        }
    }

    /// Renders the error as text.
    pub fn message(&self) -> (r: String)
        ensures
            r@ == self.text(),
    {
        match self {
            Error::InvalidData(m) => String::from_str("Invalid data: ").concat(m.as_str()),
            Error::InvalidInput(m) => String::from_str("Invalid input: ").concat(m.as_str()),
            Error::IO(m) => String::from_str("IO error: ").concat(m.as_str()),
            Error::ArithmeticOverflow => String::from_str("Arithmetic overflow"),
            Error::OutOfBounds => String::from_str("Out of bounds"),
        }
    }
}

impl PartialEq for Error {
    fn eq(&self, other: &Error) -> (r: bool)
        ensures
            r == self.same_as(other),
    {
        match (self, other) {
            (Error::InvalidData(a), Error::InvalidData(b)) => *a == *b,
            (Error::InvalidInput(a), Error::InvalidInput(b)) => *a == *b,
            (Error::IO(a), Error::IO(b)) => *a == *b,
            (Error::ArithmeticOverflow, Error::ArithmeticOverflow) => true,
            (Error::OutOfBounds, Error::OutOfBounds) => true,
            _ => false,
        }
    }
}

impl vstd::std_specs::cmp::PartialEqSpecImpl for Error {
    open spec fn obeys_eq_spec() -> bool {
        true
    }

    open spec fn eq_spec(&self, other: &Error) -> bool {
        self.same_as(other)
    }
}

} // verus!
