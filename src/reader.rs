//! The tag decoder: from bytes to records, and from records to an assembled model.
use crate::bytes::{decode_u16, decode_u32, decode_utf8, le_u16, le_u32, utf8_text};
use crate::swd::{lemma_apply_tag_keeps_shape, Swd, SwdView};
use crate::tag::{DecodeError, Tag, TagView};
use vstd::prelude::*;

verus! {

/// The little-endian `u16` at `pos`.
pub open spec fn u16_at(data: Seq<u8>, pos: int) -> u16 {
    le_u16(data[pos], data[pos + 1]) as u16
}

/// The little-endian `u32` at `pos`.
pub open spec fn u32_at(data: Seq<u8>, pos: int) -> u32 {
    le_u32(data[pos], data[pos + 1], data[pos + 2], data[pos + 3]) as u32
}

/// The stream starts at `pos` with the bytes `FWD`.
pub open spec fn has_magic(data: Seq<u8>, pos: int) -> bool {
    &&& pos + 3 <= data.len()
    &&& data[pos] == 0x46u8
    &&& data[pos + 1] == 0x57u8
    &&& data[pos + 2] == 0x44u8
}

/// The position of the first zero byte at or after `pos`, if there is one.
pub open spec fn zero_from(data: Seq<u8>, pos: int) -> Option<int>
    decreases data.len() - pos,
{
    if pos < 0 || pos >= data.len() {
        None
    } else if data[pos] == 0 {
        Some(pos)
    } else {
        zero_from(data, pos + 1)
    }
}

/// A zero-terminated string at `pos`: its text and the position after the terminator.
pub open spec fn parse_string(data: Seq<u8>, pos: int) -> Result<(Seq<char>, int), DecodeError> {
    match zero_from(data, pos) {
        None => Err(DecodeError::UnexpectedEof),
        Some(z) => match utf8_text(data.subrange(pos, z)) {
            None => Err(DecodeError::InvalidEncoding),
            Some(s) => Ok((s, z + 1)),
        },
    }
}

/// The body of a record of kind `disc` at `pos`: the record and the position after it.
pub open spec fn parse_body(data: Seq<u8>, pos: int, disc: u32) -> Result<
    (TagView, int),
    DecodeError,
> {
    if disc == 0 {
        if pos + 8 > data.len() {
            Err(DecodeError::UnexpectedEof)
        } else {
            match parse_string(data, pos + 8) {
                Err(e) => Err(e),
                Ok((name, p)) => match parse_string(data, p) {
                    Err(e) => Err(e),
                    Ok((src, q)) => Ok(
                        (
                            TagView::SourceFile {
                                file_index: u32_at(data, pos),
                                unknown_index: u32_at(data, pos + 4),
                                name,
                                src,
                            },
                            q,
                        ),
                    ),
                },
            }
        }
    } else if disc == 1 {
        if pos + 12 > data.len() {
            Err(DecodeError::UnexpectedEof)
        } else {
            Ok(
                (
                    TagView::OffsetMap {
                        file_index: u32_at(data, pos),
                        line: u32_at(data, pos + 4),
                        offset: u32_at(data, pos + 8),
                    },
                    pos + 12,
                ),
            )
        }
    } else if disc == 2 {
        if pos + 4 > data.len() {
            Err(DecodeError::UnexpectedEof)
        } else {
            Ok(
                (
                    TagView::SetBreakpoint {
                        file_index: u16_at(data, pos),
                        line: u16_at(data, pos + 2),
                    },
                    pos + 4,
                ),
            )
        }
    } else if disc == 3 {
        if pos + 16 > data.len() {
            Err(DecodeError::UnexpectedEof)
        } else {
            Ok((TagView::Id(data.subrange(pos, pos + 16)), pos + 16))
        }
    } else {
        Err(DecodeError::UnknownTag(disc))
    }
}

/// The record at `pos`: `None` exactly where the stream ends there.
pub open spec fn parse_tag(data: Seq<u8>, pos: int) -> Option<Result<(TagView, int), DecodeError>> {
    if pos >= data.len() {
        None
    } else if pos + 4 > data.len() {
        Some(Err(DecodeError::UnexpectedEof))
    } else {
        Some(parse_body(data, pos + 4, u32_at(data, pos)))
    }
}

/// The model after folding `m` with every record from `pos` to the end of the stream.
pub open spec fn load_tags(data: Seq<u8>, pos: int, m: SwdView) -> Result<SwdView, DecodeError>
    decreases data.len() - pos,
{
    match parse_tag(data, pos) {
        None => Ok(m),
        Some(Err(e)) => Err(e),
        Some(Ok((t, next))) => {
            if pos < next <= data.len() {
                load_tags(data, next, m.apply_tag(t))
            } else {
                Ok(m)
            }
        },
    }
}

/// The model that a whole stream starting at `pos` decodes to.
pub open spec fn load_spec(data: Seq<u8>, pos: int) -> Result<SwdView, DecodeError> {
    if !has_magic(data, pos) {
        Err(DecodeError::InvalidMagic)
    } else if pos + 4 > data.len() {
        Err(DecodeError::UnexpectedEof)
    } else {
        load_tags(data, pos + 4, SwdView::empty(data[pos + 3]))
    }
}

/// A cursor over the bytes of an SWD stream.
pub struct SwdReader {
    data: Vec<u8>,
    pos: usize,
}

impl SwdReader {
    /// The bytes of the stream.
    pub closed spec fn bytes(&self) -> Seq<u8> {
        self.data@
    }

    /// The position of the next byte to be read.
    pub closed spec fn cursor(&self) -> int {
        self.pos as int
    }

    /// The cursor lies within the stream.
    pub open spec fn wf(&self) -> bool {
        self.cursor() <= self.bytes().len()
    }

    /// A reader positioned at the start of `stream`.
    pub fn new(stream: Vec<u8>) -> (r: SwdReader)
        ensures
            r.bytes() == stream@,
            r.cursor() == 0,
            r.wf(),
    {
        SwdReader { data: stream, pos: 0 }
    }

    /// Reads one byte.
    fn read_u8(&mut self) -> (r: Result<u8, DecodeError>)
        requires
            old(self).wf(),
        ensures
            final(self).wf(),
            final(self).bytes() == old(self).bytes(),
            old(self).cursor() < old(self).bytes().len() ==> r == Ok::<u8, DecodeError>(
                old(self).bytes()[old(self).cursor()],
            ) && final(self).cursor() == old(self).cursor() + 1,
            old(self).cursor() >= old(self).bytes().len() ==> r == Err::<u8, DecodeError>(
                DecodeError::UnexpectedEof,
            ) && final(self).cursor() == old(self).cursor(),
    {
        if self.pos < self.data.len() {
            let b = self.data[self.pos];
            self.pos = self.pos + 1;
            Ok(b)
        } else {
            Err(DecodeError::UnexpectedEof)
        }
    }

    /// Reads a little-endian `u16`.
    fn read_u16(&mut self) -> (r: Result<u16, DecodeError>)
        requires
            old(self).wf(),
        ensures
            final(self).wf(),
            final(self).bytes() == old(self).bytes(),
            old(self).cursor() + 2 <= old(self).bytes().len() ==> r == Ok::<u16, DecodeError>(
                u16_at(old(self).bytes(), old(self).cursor()),
            ) && final(self).cursor() == old(self).cursor() + 2,
            old(self).cursor() + 2 > old(self).bytes().len() ==> r == Err::<u16, DecodeError>(
                DecodeError::UnexpectedEof,
            ) && final(self).cursor() == old(self).cursor(),
    {
        let p = self.pos;
        let n = self.data.len();
        if n - p < 2 {
            return Err(DecodeError::UnexpectedEof);
        }
        let v = decode_u16([self.data[p], self.data[p + 1]]);
        self.pos = p + 2;
        Ok(v)
    }

    /// Reads a little-endian `u32`.
    fn read_u32(&mut self) -> (r: Result<u32, DecodeError>)
        requires
            old(self).wf(),
        ensures
            final(self).wf(),
            final(self).bytes() == old(self).bytes(),
            old(self).cursor() + 4 <= old(self).bytes().len() ==> r == Ok::<u32, DecodeError>(
                u32_at(old(self).bytes(), old(self).cursor()),
            ) && final(self).cursor() == old(self).cursor() + 4,
            old(self).cursor() + 4 > old(self).bytes().len() ==> r == Err::<u32, DecodeError>(
                DecodeError::UnexpectedEof,
            ) && final(self).cursor() == old(self).cursor(),
    {
        let p = self.pos;
        let n = self.data.len();
        if n - p < 4 {
            return Err(DecodeError::UnexpectedEof);
        }
        let v = decode_u32([self.data[p], self.data[p + 1], self.data[p + 2], self.data[p + 3]]);
        self.pos = p + 4;
        Ok(v)
    }
    /// Reads the three magic bytes, which must be `FWD`.
    pub fn read_magic(&mut self) -> (r: Result<(), DecodeError>)
        requires
            old(self).wf(),
        ensures
            final(self).wf(),
            final(self).bytes() == old(self).bytes(),
            r == (if has_magic(old(self).bytes(), old(self).cursor()) {
                Ok::<(), DecodeError>(())
            } else {
                Err::<(), DecodeError>(DecodeError::InvalidMagic)
            }),
            final(self).cursor() == if old(self).cursor() + 3 <= old(self).bytes().len() {
                old(self).cursor() + 3
            } else {
                old(self).bytes().len() as int
            },
    {
        let p = self.pos;
        let n = self.data.len();
        if n - p < 3 {
            self.pos = n;
            return Err(DecodeError::InvalidMagic);
        }
        let ok = self.data[p] == 0x46u8 && self.data[p + 1] == 0x57u8 && self.data[p + 2] == 0x44u8;
        self.pos = p + 3;
        if ok {
            Ok(())
        } else {
            Err(DecodeError::InvalidMagic)
        }
    }

    /// Reads the version byte, whatever its value.
    pub fn read_version(&mut self) -> (r: Result<u8, DecodeError>)
        requires
            old(self).wf(),
        ensures
            final(self).wf(),
            final(self).bytes() == old(self).bytes(),
            old(self).cursor() < old(self).bytes().len() ==> r == Ok::<u8, DecodeError>(
                old(self).bytes()[old(self).cursor()],
            ) && final(self).cursor() == old(self).cursor() + 1,
            old(self).cursor() >= old(self).bytes().len() ==> r == Err::<u8, DecodeError>(
                DecodeError::UnexpectedEof,
            ) && final(self).cursor() == old(self).cursor(),
    {
        self.read_u8()
    }

    /// Reads a zero-terminated UTF-8 string, consuming the terminator.
    pub fn read_string(&mut self) -> (r: Result<String, DecodeError>)
        requires
            old(self).wf(),
        ensures
            final(self).wf(),
            final(self).bytes() == old(self).bytes(),
            final(self).cursor() >= old(self).cursor(),
            match parse_string(old(self).bytes(), old(self).cursor()) {
                Ok((text, next)) => r is Ok && r->Ok_0@ == text && final(self).cursor() == next,
                Err(e) => r is Err && r->Err_0 == e,
            },
    {
        let start = self.pos;
        let n = self.data.len();
        let mut i: usize = start;
        let mut buf: Vec<u8> = Vec::new();
        loop
            invariant
                self.wf(),
                self.bytes() == old(self).bytes(),
                self.cursor() == start,
                start == old(self).cursor(),
                n == self.bytes().len(),
                start <= i <= n,
                buf@ == self.bytes().subrange(start as int, i as int),
                forall|j: int| start <= j < i ==> self.bytes()[j] != 0,
            ensures
                self.wf(),
                self.bytes() == old(self).bytes(),
                self.cursor() == start,
                start <= i < n,
                buf@ == self.bytes().subrange(start as int, i as int),
                forall|j: int| start <= j < i ==> self.bytes()[j] != 0,
                self.bytes()[i as int] == 0,
            decreases n - i,
        {
            if i == n {
                proof {
                    lemma_zero_from_skip(self.bytes(), start as int, i as int);
                }
                return Err(DecodeError::UnexpectedEof);
            }
            let b = self.data[i];
            if b == 0 {
                break;
            }
            buf.push(b);
            i = i + 1;
            assert(buf@ =~= self.bytes().subrange(start as int, i as int));
        }
        proof {
            lemma_zero_from_skip(self.bytes(), start as int, i as int);
        }
        match decode_utf8(buf) {
            Some(text) => {
                self.pos = i + 1;
                Ok(text)
            },
            None => Err(DecodeError::InvalidEncoding),
        }
    }
    /// Reads the body of a record of kind `disc`, whose discriminant has been read.
    fn read_body(&mut self, disc: u32) -> (r: Result<Tag, DecodeError>)
        requires
            old(self).wf(),
        ensures
            final(self).wf(),
            final(self).bytes() == old(self).bytes(),
            final(self).cursor() >= old(self).cursor(),
            disc > 3 ==> final(self).cursor() == old(self).cursor(),
            match parse_body(old(self).bytes(), old(self).cursor(), disc) {
                Ok((t, next)) => r is Ok && r->Ok_0@ == t && final(self).cursor() == next,
                Err(e) => r is Err && r->Err_0 == e,
            },
    {
        if disc == 0 {
            let file_index = match self.read_u32() {
                Ok(v) => v,
                Err(e) => return Err(e),
            };
            let unknown_index = match self.read_u32() {
                Ok(v) => v,
                Err(e) => return Err(e),
            };
            let name = match self.read_string() {
                Ok(v) => v,
                Err(e) => return Err(e),
            };
            let src = match self.read_string() {
                Ok(v) => v,
                Err(e) => return Err(e),
            };
            Ok(Tag::SourceFile { file_index, unknown_index, name, src })
        } else if disc == 1 {
            let file_index = match self.read_u32() {
                Ok(v) => v,
                Err(e) => return Err(e),
            };
            let line = match self.read_u32() {
                Ok(v) => v,
                Err(e) => return Err(e),
            };
            let offset = match self.read_u32() {
                Ok(v) => v,
                Err(e) => return Err(e),
            };
            Ok(Tag::OffsetMap { file_index, line, offset })
        } else if disc == 2 {
            let file_index = match self.read_u16() {
                Ok(v) => v,
                Err(e) => return Err(e),
            };
            let line = match self.read_u16() {
                Ok(v) => v,
                Err(e) => return Err(e),
            };
            Ok(Tag::SetBreakpoint { file_index, line })
        } else if disc == 3 {
            let p = self.pos;
            let n = self.data.len();
            if n - p < 16 {
                return Err(DecodeError::UnexpectedEof);
            }
            let mut id = [0u8; 16];
            let mut k: usize = 0;
            while k < 16
                invariant
                    self.wf(),
                    self.bytes() == old(self).bytes(),
                    self.cursor() == p,
                    p + 16 <= n == self.bytes().len(),
                    k <= 16,
                    forall|j: int| 0 <= j < k ==> id@[j] == self.bytes()[p + j],
                decreases 16 - k,
            {
                id[k] = self.data[p + k];
                k = k + 1;
            }
            self.pos = p + 16;
            assert(id@ =~= self.bytes().subrange(p as int, p + 16));
            Ok(Tag::Id(id))
        } else {
            Err(DecodeError::UnknownTag(disc))
        }
    }

    /// Reads the next record: `None` where the stream ends exactly before it.
    pub fn read_tag(&mut self) -> (r: Option<Result<Tag, DecodeError>>)
        requires
            old(self).wf(),
        ensures
            final(self).wf(),
            final(self).bytes() == old(self).bytes(),
            final(self).cursor() >= old(self).cursor(),
            match parse_tag(old(self).bytes(), old(self).cursor()) {
                None => r is None && final(self).cursor() == old(self).cursor(),
                Some(Err(e)) => r is Some && r->Some_0 is Err && r->Some_0->Err_0 == e,
                Some(Ok((t, next))) => r is Some && r->Some_0 is Ok && r->Some_0->Ok_0@ == t
                    && final(self).cursor() == next,
            },
            r is Some && r->Some_0 is Ok ==> final(self).cursor() >= old(self).cursor() + 4,
            r is Some && r->Some_0 is Err && r->Some_0->Err_0 is UnknownTag
                ==> final(self).cursor() == old(self).cursor() + 4,
    {
        if self.pos == self.data.len() {
            return None;
        }
        let disc = match self.read_u32() {
            Ok(v) => v,
            Err(e) => return Some(Err(e)),
        };
        Some(self.read_body(disc))
    }

    /// Decodes the whole stream from the cursor on: magic, version and every record,
    /// folded into a model.
    pub fn read(&mut self) -> (r: Result<Swd, DecodeError>)
        requires
            old(self).wf(),
        ensures
            final(self).wf(),
            final(self).bytes() == old(self).bytes(),
            match load_spec(old(self).bytes(), old(self).cursor()) {
                Ok(m) => r is Ok && r->Ok_0@ == m,
                Err(e) => r is Err && r->Err_0 == e,
            },
    {
        let ghost data = self.bytes();
        let ghost start = self.cursor();
        match self.read_magic() {
            Ok(()) => {},
            Err(e) => return Err(e),
        }
        let version = match self.read_version() {
            Ok(v) => v,
            Err(e) => return Err(e),
        };
        let mut swd = Swd::empty(version);
        loop
            invariant
                self.wf(),
                self.bytes() == data,
                data == old(self).bytes(),
                start == old(self).cursor(),
                load_spec(data, start) == load_tags(data, self.cursor(), swd@),
            decreases data.len() - self.cursor(),
        {
            match self.read_tag() {
                None => return Ok(swd),
                Some(Err(e)) => return Err(e),
                Some(Ok(t)) => swd.apply(t),
            }
        }
    }
}

/// Decodes a whole stream: magic, version and every record, folded into a model.
pub fn load(stream: Vec<u8>) -> (r: Result<Swd, DecodeError>)
    ensures
        match load_spec(stream@, 0) {
            Ok(m) => r is Ok && r->Ok_0@ == m,
            Err(e) => r is Err && r->Err_0 == e,
        },
        r is Ok ==> stream@.len() >= 4 && r->Ok_0@.version == stream@[3],
        r is Ok ==> r->Ok_0@.files_indexed(),
        !has_magic(stream@, 0) ==> r is Err && r->Err_0 == DecodeError::InvalidMagic,
{
    proof {
        if load_spec(stream@, 0) is Ok {
            lemma_load_version(stream@);
        }
    }
    let mut reader = SwdReader::new(stream);
    reader.read()
}

/// Skipping bytes that are not zero does not change where the next zero byte is.
proof fn lemma_zero_from_skip(data: Seq<u8>, start: int, i: int)
    requires
        0 <= start <= i <= data.len(),
        forall|j: int| start <= j < i ==> data[j] != 0,
    ensures
        zero_from(data, start) == zero_from(data, i),
    decreases i - start,
{
    if start < i {
        lemma_zero_from_skip(data, start + 1, i);
    }
}

/// Folding records keeps the version, and keeps each file under its own index.
proof fn lemma_load_tags_keeps_shape(data: Seq<u8>, pos: int, m: SwdView)
    ensures
        load_tags(data, pos, m) is Ok ==> load_tags(data, pos, m)->Ok_0.version == m.version,
        load_tags(data, pos, m) is Ok && m.files_indexed() ==> load_tags(
            data,
            pos,
            m,
        )->Ok_0.files_indexed(),
    decreases data.len() - pos,
{
    if let Some(Ok((t, next))) = parse_tag(data, pos) {
        if pos < next <= data.len() {
            lemma_apply_tag_keeps_shape(m, t);
            lemma_load_tags_keeps_shape(data, next, m.apply_tag(t));
        }
    }
}

/// A stream that loads starts with `FWD`, and its model's version is its fourth byte.
pub proof fn lemma_load_version(data: Seq<u8>)
    requires
        load_spec(data, 0) is Ok,
    ensures
        has_magic(data, 0),
        data.len() >= 4,
        load_spec(data, 0)->Ok_0.version == data[3],
        load_spec(data, 0)->Ok_0.files_indexed(),
{
    lemma_load_tags_keeps_shape(data, 4, SwdView::empty(data[3]));
}

/// A stream that does not start with `FWD` fails with `InvalidMagic`.
pub proof fn lemma_bad_magic(data: Seq<u8>)
    requires
        !has_magic(data, 0),
    ensures
        load_spec(data, 0) == Err::<SwdView, DecodeError>(DecodeError::InvalidMagic),
{
}

/// A source-file record cut short inside its two fixed-width indices fails with
/// `UnexpectedEof`.
pub proof fn lemma_truncated_source_file(data: Seq<u8>)
    requires
        has_magic(data, 0),
        8 <= data.len() < 16,
        u32_at(data, 4) == 0,
    ensures
        load_spec(data, 0) == Err::<SwdView, DecodeError>(DecodeError::UnexpectedEof),
{
}

/// A discriminant outside the four known kinds fails with `UnknownTag` of that value,
/// whatever follows it.
pub proof fn lemma_unknown_tag(data: Seq<u8>)
    requires
        has_magic(data, 0),
        data.len() >= 8,
        u32_at(data, 4) > 3,
    ensures
        load_spec(data, 0) == Err::<SwdView, DecodeError>(DecodeError::UnknownTag(u32_at(data, 4))),
{
}

/// Magic and version with nothing after them load to a model with no files and no
/// breakpoints.
pub proof fn lemma_empty_stream(data: Seq<u8>)
    requires
        has_magic(data, 0),
        data.len() == 4,
    ensures
        load_spec(data, 0) == Ok::<SwdView, DecodeError>(SwdView::empty(data[3])),
{
}

} // verus!
