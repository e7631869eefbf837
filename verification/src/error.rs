//! The failures the library's operations can report.

use vstd::prelude::*;
use vstd::string::StringExecFns;

verus! {

/// A failure of version parsing, range expansion, or manager-output
/// parsing.
#[derive(Clone, Copy, Debug, PartialEq, Eq, Structural)]
pub enum Error {
    /// A version boundary was not a well-formed dotted numeral.
    VersionParse,
    /// A version boundary has a major component other than 1.
    MajorNotOne,
    /// The step text was not a small unsigned numeral.
    StepParse,
    /// The step parsed to zero.
    StepZero,
    /// No workspace member declares a minimum supported toolchain version.
    NoRustVersion,
    /// Workspace members declare differing minimum supported versions.
    AmbiguousRustVersion,
    /// The version range denotes no toolchain at all.
    EmptyRange,
    /// The manager's version report did not have the expected shape.
    ProbeOutput,
}

impl Error {
    /// The description `message` returns for each failure.
    pub open spec fn message_spec(self) -> Seq<char> {
        match self {
            Error::VersionParse => "invalid version string"@,
            Error::MajorNotOne => "major version must be 1"@,
            Error::StepParse => "invalid step value"@,
            Error::StepZero => "step cannot be zero"@,
            Error::NoRustVersion => "no rust-version field in Cargo.toml is specified"@,
            Error::AmbiguousRustVersion => "automatic detection of the lower bound of the version range is not yet supported when the minimum supported Rust version of the crates in the workspace do not match"@,
            Error::EmptyRange => "specified version range is empty"@,
            Error::ProbeOutput => "unexpected output from rustup --version"@,
        }
    }

    /// A human-readable description of the failure.
    pub fn message(&self) -> (r: String)
        ensures
            r@ == self.message_spec(),
    {
        match self {
            Error::VersionParse => String::from_str("invalid version string"),
            Error::MajorNotOne => String::from_str("major version must be 1"),
            Error::StepParse => String::from_str("invalid step value"),
            Error::StepZero => String::from_str("step cannot be zero"),
            Error::NoRustVersion => String::from_str(
                "no rust-version field in Cargo.toml is specified",
            ),
            Error::AmbiguousRustVersion => String::from_str(
                "automatic detection of the lower bound of the version range is not yet supported when the minimum supported Rust version of the crates in the workspace do not match",
            ),
            Error::EmptyRange => String::from_str("specified version range is empty"),
            Error::ProbeOutput => String::from_str("unexpected output from rustup --version"),
        }
    }
}

} // verus!
