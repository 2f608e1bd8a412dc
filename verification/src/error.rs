//! The compiler's shared error model: every fatal condition becomes one of
//! these structured values, convertible to a one-line human message.
use vstd::prelude::*;

verus! {

/// A fatal condition raised by the compiler core.
///
/// Input errors (`User`, `MissingMetadata`, `WrongMetadataShape`,
/// `TechniqueResourceCount`, `InvalidVersion`) are fatal to the current file.
/// `Unimplemented` marks a value or expression shape that the generators
/// refuse rather than guess at. `Internal` marks a broken compiler
/// invariant, such as a class prefix read before any allocation.
#[derive(Clone, Debug)]
pub enum Error {
    /// A plain user-facing input error.
    User(String),
    /// A required metadata field is absent from a resource.
    MissingMetadata { field: String },
    /// A metadata field is present but has the wrong shape.
    WrongMetadataShape { field: String },
    /// The technique conversion found `count` defining resources instead of one.
    TechniqueResourceCount { count: usize },
    /// The technique version field does not parse as `major.minor`.
    InvalidVersion(String),
    /// An explicitly unimplemented value or expression shape was reached.
    Unimplemented(String),
    /// A compiler invariant was broken.
    Internal(String),
}

/// The ghost mirror of an error value.
#[verifier::ext_equal]
pub enum ErrorV {
    User(Seq<char>),
    MissingMetadata(Seq<char>),
    WrongMetadataShape(Seq<char>),
    TechniqueResourceCount(int),
    InvalidVersion(Seq<char>),
    Unimplemented(Seq<char>),
    Internal(Seq<char>),
}

impl View for Error {
    type V = ErrorV;

    open spec fn view(&self) -> ErrorV {
        match self {
            Error::User(s) => ErrorV::User(s@),
            Error::MissingMetadata { field } => ErrorV::MissingMetadata(field@),
            Error::WrongMetadataShape { field } => ErrorV::WrongMetadataShape(field@),
            Error::TechniqueResourceCount { count } => ErrorV::TechniqueResourceCount(
                *count as int,
            ),
            Error::InvalidVersion(s) => ErrorV::InvalidVersion(s@),
            Error::Unimplemented(s) => ErrorV::Unimplemented(s@),
            Error::Internal(s) => ErrorV::Internal(s@),
        }
    }
}

impl Error {
    pub open spec fn spec_message(self) -> Seq<char> {
        match self {
            Error::User(s) => "error: "@ + s@,
            Error::MissingMetadata { field } => "missing metadata field: "@ + field@,
            Error::WrongMetadataShape { field } => "wrong shape for metadata field: "@
                + field@,
            Error::TechniqueResourceCount { count } =>
                "expected exactly one technique resource definition"@,
            Error::InvalidVersion(s) => "invalid version: "@ + s@,
            Error::Unimplemented(s) => "unimplemented: "@ + s@,
            Error::Internal(s) => "internal invariant broken: "@ + s@,
        }
    }

    /// One-line human-readable rendering of the error.
    pub fn message(&self) -> (r: String)
        ensures
            r@ == self.spec_message(),
    {
        match self {
            Error::User(s) => String::from_str("error: ").concat(s.as_str()),
            Error::MissingMetadata { field } => String::from_str(
                "missing metadata field: ",
            ).concat(field.as_str()),
            Error::WrongMetadataShape { field } => String::from_str(
                "wrong shape for metadata field: ",
            ).concat(field.as_str()),
            Error::TechniqueResourceCount { count: _ } => String::from_str(
                "expected exactly one technique resource definition",
            ),
            Error::InvalidVersion(s) => String::from_str("invalid version: ").concat(
                s.as_str(),
            ),
            Error::Unimplemented(s) => String::from_str("unimplemented: ").concat(s.as_str()),
            Error::Internal(s) => String::from_str("internal invariant broken: ").concat(
                s.as_str(),
            ),
        }
    }
}

} // verus!
