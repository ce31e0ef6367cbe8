//! The assembled debug model: the file table and the breakpoint index.
use crate::tag::{Tag, TagView};
use std::collections::HashMap;
use vstd::prelude::*;

verus! {

broadcast use vstd::std_specs::hash::group_hash_axioms;

/// A breakpoint: a source line of the file with the given index.
#[derive(Debug, Clone, Copy, PartialEq, Eq, Structural)]
pub struct Breakpoint {
    pub line: u32,
    pub file: u32,
}

/// A source file with its text and its line to bytecode-offset table.
#[derive(Debug)]
pub struct File {
    pub(crate) id: u32,
    pub(crate) src: String,
    pub(crate) name: String,
    pub(crate) offset_map: HashMap<u32, u32>,
}

/// The mathematical content of a [`File`].
pub struct FileView {
    pub id: u32,
    pub name: Seq<char>,
    pub src: Seq<char>,
    pub offset_map: Map<u32, u32>,
}

/// The assembled debug information of one module.
#[derive(Debug)]
pub struct Swd {
    pub version: u8,
    pub(crate) files: HashMap<u32, File>,
    pub(crate) breakpoints: HashMap<u32, Breakpoint>,
}

/// The mathematical content of a [`Swd`].
pub struct SwdView {
    pub version: u8,
    pub files: Map<u32, FileView>,
    pub breakpoints: Map<u32, Breakpoint>,
}

impl View for File {
    type V = FileView;

    closed spec fn view(&self) -> FileView {
        FileView { id: self.id, name: self.name@, src: self.src@, offset_map: self.offset_map@ }
    }
}

impl View for Swd {
    type V = SwdView;

    closed spec fn view(&self) -> SwdView {
        SwdView {
            version: self.version,
            files: self.files@.map_values(|f: File| f@),
            breakpoints: self.breakpoints@,
        }
    }
}

impl FileView {
    /// The offset that `line` maps to, if any.
    pub open spec fn resolve_line(self, line: u32) -> Option<u32> {
        if self.offset_map.contains_key(line) {
            Some(self.offset_map[line])
        } else {
            None
        }
    }
}

impl SwdView {
    /// The model of a stream that holds no records yet.
    pub open spec fn empty(version: u8) -> SwdView {
        SwdView { version, files: Map::empty(), breakpoints: Map::empty() }
    }

    /// Each file is stored under its own index.
    pub open spec fn files_indexed(self) -> bool {
        forall|k: u32| #[trigger] self.files.contains_key(k) ==> self.files[k].id == k
    }

    /// The offset that `line` of file `file_index` maps to, if both are known.
    pub open spec fn resolve_line(self, file_index: u32, line: u32) -> Option<u32> {
        if self.files.contains_key(file_index) {
            self.files[file_index].resolve_line(line)
        } else {
            None
        }
    }

    /// The model with a breakpoint at `line` of `file_index`, where that line has an offset.
    pub open spec fn with_breakpoint(self, file_index: u32, line: u32) -> SwdView {
        match self.resolve_line(file_index, line) {
            Some(offset) => SwdView {
                breakpoints: self.breakpoints.insert(offset, Breakpoint { line, file: file_index }),
                ..self
            },
            None => self,
        }
    }

    /// The model without the breakpoint at the offset of `line` of `file_index`.
    pub open spec fn without_breakpoint(self, file_index: u32, line: u32) -> SwdView {
        match self.resolve_line(file_index, line) {
            Some(offset) => SwdView { breakpoints: self.breakpoints.remove(offset), ..self },
            None => self,
        }
    }

    /// The model after folding in one decoded record.
    pub open spec fn apply_tag(self, t: TagView) -> SwdView {
        match t {
            TagView::SourceFile { file_index, name, src, .. } => SwdView {
                files: self.files.insert(
                    file_index,
                    FileView { id: file_index, name, src, offset_map: Map::empty() },
                ),
                ..self
            },
            TagView::OffsetMap { file_index, line, offset } => {
                if self.files.contains_key(file_index) {
                    let f = self.files[file_index];
                    SwdView {
                        files: self.files.insert(
                            file_index,
                            FileView { offset_map: f.offset_map.insert(line, offset), ..f },
                        ),
                        ..self
                    }
                } else {
                    self
                }
            },
            TagView::SetBreakpoint { file_index, line } => self.with_breakpoint(
                file_index as u32,
                line as u32,
            ),
            TagView::Id(_) => self,
        }
    }
}

impl File {
    /// Returns the index of this file.
    pub fn id(&self) -> (r: u32)
        ensures
            r == self@.id,
    {
        self.id
    }

    /// Returns the source code of this file.
    pub fn src_code(&self) -> (r: &str)
        ensures
            r@ == self@.src,
    {
        self.src.as_str()
    }

    /// Returns the name of this file.
    pub fn name(&self) -> (r: &str)
        ensures
            r@ == self@.name,
    {
        self.name.as_str()
    }

    /// Resolves a source line to its bytecode offset.
    pub fn resolve_line(&self, line: u32) -> (r: Option<u32>)
        ensures
            r == self@.resolve_line(line),
    {
        match self.offset_map.get(&line) {
            Some(offset) => Some(*offset),
            None => None,
        }
    }
}

impl Swd {
    /// A model with the given version and no files or breakpoints.
    pub(crate) fn empty(version: u8) -> (r: Swd)
        ensures
            r@ == SwdView::empty(version),
    {
        let r = Swd { version, files: HashMap::new(), breakpoints: HashMap::new() };
        assert(r@.files =~= Map::empty());
        r
    }

    /// Folds one decoded record into the model.
    pub(crate) fn apply(&mut self, tag: Tag)
        ensures
            final(self)@ == old(self)@.apply_tag(tag@),
            old(self)@.files_indexed() ==> final(self)@.files_indexed(),
    {
        proof {
            lemma_apply_tag_keeps_shape(self@, tag@);
        }
        let ghost before = self@;
        match tag {
            Tag::SourceFile { file_index, name, src, .. } => {
                let f = File { id: file_index, src, name, offset_map: HashMap::new() };
                self.files.insert(file_index, f);
                assert(self@.files =~= before.apply_tag(tag@).files);
            },
            Tag::OffsetMap { file_index, line, offset } => {
                match self.files.remove(&file_index) {
                    Some(mut f) => {
                        f.offset_map.insert(line, offset);
                        self.files.insert(file_index, f);
                        assert(self@.files =~= before.apply_tag(tag@).files);
                    },
                    None => {
                        assert(self@.files =~= before.files);
                    },
                }
            },
            Tag::SetBreakpoint { file_index, line } => {
                self.add_breakpoint(file_index as u32, line as u32);
            },
            Tag::Id(_) => {},
        }
    }

    /// Looks up the file stored under `file_index`.
    pub fn file(&self, file_index: u32) -> (r: Option<&File>)
        ensures
            match r {
                Some(f) => self@.files.contains_key(file_index) && f@ == self@.files[file_index],
                None => !self@.files.contains_key(file_index),
            },
    {
        self.files.get(&file_index)
    }

    /// Resolves a source line of a file to its bytecode offset.
    pub fn resolve_line(&self, file_index: u32, line: u32) -> (r: Option<u32>)
        ensures
            r == self@.resolve_line(file_index, line),
    {
        match self.files.get(&file_index) {
            Some(f) => f.resolve_line(line),
            None => None,
        }
    }

    /// Returns the breakpoint set at `offset`, if any.
    pub fn resolve_breakpoint(&self, offset: u32) -> (r: Option<Breakpoint>)
        ensures
            r == (if self@.breakpoints.contains_key(offset) {
                Some(self@.breakpoints[offset])
            } else {
                None
            }),
    {
        match self.breakpoints.get(&offset) {
            Some(b) => Some(*b),
            None => None,
        }
    }

    /// Sets a breakpoint at `line` of file `file_index`; does nothing where that line
    /// has no known offset.
    pub fn add_breakpoint(&mut self, file_index: u32, line: u32)
        ensures
            final(self)@ == old(self)@.with_breakpoint(file_index, line),
    {
        if let Some(offset) = self.resolve_line(file_index, line) {
            self.breakpoints.insert(offset, Breakpoint { line, file: file_index });
        }
    }

    /// Removes the breakpoint at the offset of `line` of file `file_index`; does nothing
    /// where there is none.
    pub fn remove_breakpoint(&mut self, file_index: u32, line: u32)
        ensures
            final(self)@ == old(self)@.without_breakpoint(file_index, line),
    {
        if let Some(offset) = self.resolve_line(file_index, line) {
            self.breakpoints.remove(&offset);
        }
    }
}

/// Folding in a record keeps the version, and keeps each file under its own index.
pub proof fn lemma_apply_tag_keeps_shape(m: SwdView, t: TagView)
    ensures
        m.apply_tag(t).version == m.version,
        m.files_indexed() ==> m.apply_tag(t).files_indexed(),
{
}

/// Setting the same breakpoint twice leaves the model as setting it once does.
pub proof fn lemma_add_breakpoint_idempotent(m: SwdView, file_index: u32, line: u32)
    ensures
        m.with_breakpoint(file_index, line).with_breakpoint(file_index, line) == m.with_breakpoint(
            file_index,
            line,
        ),
{
    let once = m.with_breakpoint(file_index, line);
    assert(once.resolve_line(file_index, line) == m.resolve_line(file_index, line));
    if let Some(offset) = m.resolve_line(file_index, line) {
        assert(once.with_breakpoint(file_index, line).breakpoints =~= once.breakpoints);
    }
}

/// Removing a breakpoint that is not set changes nothing, the other breakpoints included.
pub proof fn lemma_remove_absent_breakpoint(m: SwdView, file_index: u32, line: u32)
    requires
        match m.resolve_line(file_index, line) {
            Some(offset) => !m.breakpoints.contains_key(offset),
            None => true,
        },
    ensures
        m.without_breakpoint(file_index, line) == m,
{
    if let Some(offset) = m.resolve_line(file_index, line) {
        assert(m.breakpoints.remove(offset) =~= m.breakpoints);
    }
}

/// After a file is registered and one of its lines is mapped, that line resolves to the
/// offset given, and every other line of the file resolves to nothing.
pub proof fn lemma_source_then_offset(
    m: SwdView,
    file_index: u32,
    unknown_index: u32,
    name: Seq<char>,
    src: Seq<char>,
    line: u32,
    offset: u32,
    other: u32,
)
    requires
        other != line,
    ensures
        ({
            let after = m.apply_tag(
                TagView::SourceFile { file_index, unknown_index, name, src },
            ).apply_tag(TagView::OffsetMap { file_index, line, offset });
            &&& after.resolve_line(file_index, line) == Some(offset)
            &&& after.resolve_line(file_index, other) is None
        }),
{
}

} // verus!
