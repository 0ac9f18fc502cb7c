//! The error values of the library.

use vstd::prelude::*;

verus! {

/// Why a sequence of bytes was rejected by a decoder.
#[derive(Clone, Copy, Debug, PartialEq, Eq)]
pub enum ParseErrorKind {
    /// A fixed byte or identifier did not have its prescribed value.
    Tag,
    /// A field was read but its content could not be converted.
    MapRes,
    /// A record was expected where the length byte is zero: no further
    /// record starts in this sector.
    Not,
    /// A byte lies outside the range its field allows.
    Custom(u32),
}

/// Why the backing bytes could not be reached.
#[derive(Clone, Copy, Debug, PartialEq, Eq)]
pub enum IoErrorKind {
    /// The data ended before a whole sector could be read.
    UnexpectedEof,
    /// A seek was asked to move before the first byte.
    InvalidInput,
    /// The source of the bytes failed in another way.
    Other,
}

/// Every failure the library reports.
#[derive(Clone, Debug, PartialEq, Eq)]
pub enum Error {
    /// The backing bytes could not be read or positioned.
    Io(IoErrorKind),
    /// A directory was required and a file was found.
    DirectoryExpected,
    /// A file was required and a directory was found.
    FileExpected,
    /// No entry exists at the given absolute path.
    NotFound(String),
    /// The set terminator was reached without a primary volume descriptor.
    NoPrimaryVolumeDescriptor,
    /// The descriptors ended without a set terminator.
    NoSetTerminator,
    /// A descriptor starts with a type byte that is not known.
    UnknownDescriptorType(u8),
    /// The bytes do not follow the format.
    ParseError(ParseErrorKind),
    /// The bytes end too early; the payload is the size of the field that
    /// could not be read.
    ParseIncomplete(Option<usize>),
    /// A path component cannot be followed: a platform prefix, or a step to
    /// the parent of the root.
    InvalidPathComponent,
}

/// A failure as a mathematical value.
pub enum ErrorView {
    Io(IoErrorKind),
    DirectoryExpected,
    FileExpected,
    NotFound(Seq<char>),
    NoPrimaryVolumeDescriptor,
    NoSetTerminator,
    UnknownDescriptorType(u8),
    ParseError(ParseErrorKind),
    ParseIncomplete(Option<usize>),
    InvalidPathComponent,
}

impl View for Error {
    type V = ErrorView;

    open spec fn view(&self) -> ErrorView {
        match self {
            Error::Io(kind) => ErrorView::Io(*kind),
            Error::DirectoryExpected => ErrorView::DirectoryExpected,
            Error::FileExpected => ErrorView::FileExpected,
            Error::NotFound(path) => ErrorView::NotFound(path@),
            Error::NoPrimaryVolumeDescriptor => ErrorView::NoPrimaryVolumeDescriptor,
            Error::NoSetTerminator => ErrorView::NoSetTerminator,
            Error::UnknownDescriptorType(kind) => ErrorView::UnknownDescriptorType(*kind),
            Error::ParseError(kind) => ErrorView::ParseError(*kind),
            Error::ParseIncomplete(needed) => ErrorView::ParseIncomplete(*needed),
            Error::InvalidPathComponent => ErrorView::InvalidPathComponent,
        }
    }
}

/// The failure for input that ends `needed` bytes short of a field.
pub open spec fn incomplete(needed: int) -> Error {
    Error::ParseIncomplete(Some(needed as usize))
}

/// The failure for input that breaks the format in the way `kind` names.
pub open spec fn invalid(kind: ParseErrorKind) -> Error {
    Error::ParseError(kind)
}

impl Error {
    /// A short description of the failure.
    pub fn message(&self) -> (text: &'static str)
        ensures
            text@ == self.spec_message(),
    {
        match self {
            Error::Io(_) => "input/output error",
            Error::DirectoryExpected => "directory expected",
            Error::FileExpected => "file expected",
            Error::NotFound(_) => "path not found",
            Error::NoPrimaryVolumeDescriptor => "no primary volume descriptor found",
            Error::NoSetTerminator => "missing set terminator",
            Error::UnknownDescriptorType(_) => "unknown descriptor type",
            Error::ParseError(_) => "parse error",
            Error::ParseIncomplete(_) => "not enough data",
            Error::InvalidPathComponent => "invalid path component",
        }
    }

    /// The description that `message` returns.
    pub open spec fn spec_message(&self) -> Seq<char> {
        match self {
            Error::Io(_) => "input/output error"@,
            Error::DirectoryExpected => "directory expected"@,
            Error::FileExpected => "file expected"@,
            Error::NotFound(_) => "path not found"@,
            Error::NoPrimaryVolumeDescriptor => "no primary volume descriptor found"@,
            Error::NoSetTerminator => "missing set terminator"@,
            Error::UnknownDescriptorType(_) => "unknown descriptor type"@,
            Error::ParseError(_) => "parse error"@,
            Error::ParseIncomplete(_) => "not enough data"@,
            Error::InvalidPathComponent => "invalid path component"@,
        }
    }
}

} // verus!
