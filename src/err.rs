use vstd::prelude::*;

verus! {

/// A value was registered under an identifier that is already in use.
#[derive(Debug, Clone, Copy, PartialEq, Eq, Structural)]
pub struct ErrAlreadyRegistered;

/// A category was registered under an identifier that is already in use.
#[derive(Debug, Clone, Copy, PartialEq, Eq, Structural)]
pub struct ErrCategoryAlreadyRegistered;

/// Why an identifier could not be built.
#[derive(Debug, PartialEq, Eq)]
pub enum NSIDParseError {
    InvalidNamespace(InvalidNamespace),
    InvalidPath(InvalidPath),
    NoSeparator,
    /// The interner could not take another string; holds its message.
    InternerError(String),
}

/// Why a namespace segment is not valid.
#[derive(Debug, Clone, Copy, PartialEq, Eq, Structural)]
pub enum InvalidNamespace {
    Empty,
    /// Char index of the invalid character
    BadChar(usize, char),
}

/// Why a path segment is not valid.
#[derive(Debug, Clone, Copy, PartialEq, Eq, Structural)]
pub enum InvalidPath {
    Empty,
    /// Char index of the invalid character
    BadChar(usize, char),
}

impl From<InvalidPath> for NSIDParseError {
    fn from(v: InvalidPath) -> (r: Self)
        ensures
            r == NSIDParseError::InvalidPath(v),
    {
        NSIDParseError::InvalidPath(v)
    }
}

impl vstd::std_specs::convert::FromSpecImpl<InvalidPath> for NSIDParseError {
    open spec fn obeys_from_spec() -> bool {
        true
    }

    open spec fn from_spec(v: InvalidPath) -> Self {
        NSIDParseError::InvalidPath(v)
    }
}

impl From<InvalidNamespace> for NSIDParseError {
    fn from(v: InvalidNamespace) -> (r: Self)
        ensures
            r == NSIDParseError::InvalidNamespace(v),
    {
        NSIDParseError::InvalidNamespace(v)
    }
}

impl vstd::std_specs::convert::FromSpecImpl<InvalidNamespace> for NSIDParseError {
    open spec fn obeys_from_spec() -> bool {
        true
    }

    open spec fn from_spec(v: InvalidNamespace) -> Self {
        NSIDParseError::InvalidNamespace(v)
    }
}

} // verus!
