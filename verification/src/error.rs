//! The failures of the import-stub pipeline. Each of them ends the build.

use vstd::prelude::*;
use vstd::string::StringExecFns;

verus! {

/// Why an export listing could not be read.
#[derive(Clone, Copy, Debug, PartialEq, Eq, Structural)]
pub enum ParseFailure {
    /// No line of the listing is the column header.
    MissingHeader,
    /// A line of the export table has fewer fields than the name column needs.
    ShortLine,
}

/// A failure of one step of the pipeline.
#[derive(Clone, Copy, Debug, PartialEq, Eq, Structural)]
pub enum GeneratorError {
    /// The installation is not registered, or the shared library is not where
    /// it is expected.
    Discovery,
    /// A tool of the platform toolchain was not found or could not be started.
    Toolchain,
    /// The inspector's listing has not the expected shape.
    Parse(ParseFailure),
    /// The librarian ended with a status other than success.
    Link,
    /// A file could not be written.
    Io,
}

/// The message that goes with `e`.
pub open spec fn error_message(e: GeneratorError) -> Seq<char> {
    match e {
        GeneratorError::Discovery => "shared library not found"@,
        GeneratorError::Toolchain => "toolchain program not found or not started"@,
        GeneratorError::Parse(ParseFailure::MissingHeader) => "export listing has no column header"@,
        GeneratorError::Parse(ParseFailure::ShortLine) => "export line has fewer than four fields"@,
        GeneratorError::Link => "librarian reported a failure"@,
        GeneratorError::Io => "file could not be written"@,
    }
}

impl GeneratorError {
    /// The message shown when the build is given up.
    pub fn message(&self) -> (r: String)
        ensures
            r@ == error_message(*self),
    {
        match self {
            GeneratorError::Discovery => String::from_str("shared library not found"),
            GeneratorError::Toolchain => String::from_str(
                "toolchain program not found or not started",
            ),
            GeneratorError::Parse(ParseFailure::MissingHeader) => String::from_str(
                "export listing has no column header",
            ),
            GeneratorError::Parse(ParseFailure::ShortLine) => String::from_str(
                "export line has fewer than four fields",
            ),
            GeneratorError::Link => String::from_str("librarian reported a failure"),
            GeneratorError::Io => String::from_str("file could not be written"),
        }
    }
}

} // verus!
