//! The records of a tag stream, and the ways decoding one can fail.
use vstd::prelude::*;

verus! {

/// Why a stream could not be decoded.
#[derive(Debug, Clone, Copy, PartialEq, Eq, Structural)]
pub enum DecodeError {
    /// The first three bytes are not `FWD`.
    InvalidMagic,
    /// The stream ended inside a field, or a string had no terminator.
    UnexpectedEof,
    /// A string's bytes are not valid UTF-8.
    InvalidEncoding,
    /// A record discriminant outside the four known kinds.
    UnknownTag(u32),
}

/// One record of the tag stream.
#[derive(Debug, Clone)]
#[allow(inconsistent_fields)]
pub enum Tag {
    /// Registers a source file and its text under a numeric index.
    SourceFile { file_index: u32, unknown_index: u32, name: String, src: String },
    /// One entry of a file's line to bytecode-offset table.
    OffsetMap { file_index: u32, line: u32, offset: u32 },
    /// A breakpoint recorded in the stream itself.
    SetBreakpoint { file_index: u16, line: u16 },
    /// An opaque identifier of the module or build.
    Id([u8; 16]),
}

/// The mathematical content of a [`Tag`].
#[allow(inconsistent_fields)]
pub enum TagView {
    SourceFile { file_index: u32, unknown_index: u32, name: Seq<char>, src: Seq<char> },
    OffsetMap { file_index: u32, line: u32, offset: u32 },
    SetBreakpoint { file_index: u16, line: u16 },
    Id(Seq<u8>),
}

impl View for Tag {
    type V = TagView;

    open spec fn view(&self) -> TagView {
        match self {
            Tag::SourceFile { file_index, unknown_index, name, src } => TagView::SourceFile {
                file_index: *file_index,
                unknown_index: *unknown_index,
                name: name@,
                src: src@,
            },
            Tag::OffsetMap { file_index, line, offset } => TagView::OffsetMap {
                file_index: *file_index,
                line: *line,
                offset: *offset,
            },
            Tag::SetBreakpoint { file_index, line } => TagView::SetBreakpoint {
                file_index: *file_index,
                line: *line,
            },
            Tag::Id(id) => TagView::Id(id@),
        }
    }
}

} // verus!
