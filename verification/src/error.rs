//! Error values of the codec.  Every failure names the structure that was
//! being processed, and the kind of fault is kept apart so that a caller can
//! tell a wrong file type from a corrupt one.

use vstd::prelude::*;

verus! {

/// A structure, or string field, of the shell link format.
#[derive(Clone, Copy, Debug, PartialEq, Eq, Structural)]
pub enum Component {
    ShellLink,
    Header,
    LinkTargetIdList,
    LinkInfo,
    VolumeId,
    CommonNetworkRelativeLink,
    NameString,
    RelativePath,
    WorkingDir,
    CommandLineArguments,
    IconLocation,
    ExtraData,
}

/// The error type for decoding and encoding shell links.
#[derive(Clone, Copy, Debug, PartialEq, Eq, Structural)]
pub enum Error {
    /// The magic number or the class identifier does not match: the input is
    /// not a shell link at all, as opposed to a corrupt one.
    NotAShellLink,
    /// The input ended while the named structure still expected bytes.
    UnexpectedEof(Component),
    /// The named structure is malformed.
    Parse(Component),
    /// An offset inside the named structure points outside of it.
    OutOfBounds(Component),
    /// A string field holds more than 65535 characters and cannot be written.
    StringTooLong(Component),
    /// A string field cannot be represented in the resolved encoding.
    Unencodable(Component),
    /// A presence flag and its payload disagree at encode time.
    FlagMismatch(Component),
    /// The named structure is too large for its size field.
    TooLarge(Component),
    /// Bytes remain after the final structure of the link.
    TrailingData,
}

impl Error {
    /// A short human-readable account of the error kind.
    pub fn message(&self) -> (r: String)
        ensures
            r@.len() > 0,
    {
        let text: &str = match self {
            Error::NotAShellLink => "the input is not a shell link",
            Error::UnexpectedEof(_) => "unexpected end of input",
            Error::Parse(_) => "malformed structure",
            Error::OutOfBounds(_) => "offset out of bounds",
            Error::StringTooLong(_) => "string exceeds the 16-bit length limit",
            Error::Unencodable(_) => "string cannot be encoded",
            Error::FlagMismatch(_) => "presence flag and payload disagree",
            Error::TooLarge(_) => "structure exceeds its size limit",
            Error::TrailingData => "trailing bytes after the link",
        };
        proof {
            reveal_strlit("the input is not a shell link");
            reveal_strlit("unexpected end of input");
            reveal_strlit("malformed structure");
            reveal_strlit("offset out of bounds");
            reveal_strlit("string exceeds the 16-bit length limit");
            reveal_strlit("string cannot be encoded");
            reveal_strlit("presence flag and payload disagree");
            reveal_strlit("structure exceeds its size limit");
            reveal_strlit("trailing bytes after the link");
        }
        String::from_str(text)
    }
}

} // verus!
