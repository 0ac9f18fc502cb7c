//! Reading the data of a file.

use vstd::prelude::*;
use vstd::slice::slice_subrange;
use crate::error::{Error, IoErrorKind};

verus! {

/// Where a seek moves to, and from where it counts.
#[derive(Clone, Copy, Debug, PartialEq, Eq)]
pub enum SeekFrom {
    /// So many bytes after the start of the file.
    Start(u64),
    /// So many bytes after the end of the file; before it where negative.
    End(i64),
    /// So many bytes after the current position; before it where negative.
    Current(i64),
}

/// The position that `whence` asks for in a file of `length` bytes read up
/// to `pos`, before it is held to the file.
pub open spec fn seek_target(whence: SeekFrom, length: int, pos: int) -> int {
    match whence {
        SeekFrom::Start(offset) => offset as int,
        SeekFrom::End(offset) => length + offset,
        SeekFrom::Current(offset) => pos + offset,
    }
}

/// `target` held to the file: no position lies after the end.
pub open spec fn clamped(target: int, length: int) -> int {
    if target > length {
        length
    } else {
        target
    }
}

/// The smaller of two numbers.
pub open spec fn least(a: int, b: int) -> int {
    if a <= b {
        a
    } else {
        b
    }
}

/// The place of a file's data in the image, and how far it has been read.
#[derive(Clone, Copy, Debug, PartialEq, Eq)]
pub struct FilePosition {
    /// The position in the image of the first byte of the file.
    pub start: u64,
    /// The length in bytes of the file.
    pub length: u32,
    /// The number of bytes between the start of the file and the next byte
    /// to read.
    pub pos: u64,
}

impl FilePosition {
    /// True when the position lies within the file or at its end, and the
    /// end of the file has a position.
    pub open spec fn wf(&self) -> bool {
        &&& self.pos <= self.length
        &&& self.start + self.length <= u64::MAX
    }

    /// The number of bytes from the position to the end of the file.
    pub open spec fn spec_remaining(&self) -> int {
        self.length - self.pos
    }

    /// The position in the image of the next byte to read.
    pub open spec fn spec_offset(&self) -> int {
        self.start + self.pos
    }

    /// The start of a file of `length` bytes whose data begins at `start`.
    pub fn new(start: u64, length: u32) -> (position: FilePosition)
        requires
            start + length <= u64::MAX,
        ensures
            position.wf(),
            position.start == start,
            position.length == length,
            position.pos == 0,
    {
        FilePosition { start, length, pos: 0 }
    }

    /// The number of bytes from the position to the end of the file.
    pub fn remaining(&self) -> (count: u64)
        requires
            self.wf(),
        ensures
            count == self.spec_remaining(),
    {
        self.length as u64 - self.pos
    }

    /// The position in the image of the next byte to read.
    pub fn offset(&self) -> (offset: u64)
        requires
            self.wf(),
        ensures
            offset == self.spec_offset(),
    {
        self.start + self.pos
    }

    /// The number of bytes that a read into a buffer of `wanted` bytes may
    /// ask for: never more than the file has left.
    pub fn read_size(&self, wanted: usize) -> (size: usize)
        requires
            self.wf(),
        ensures
            size == least(self.spec_remaining(), wanted as int),
    {
        let left = self.remaining();
        if left < wanted as u64 {
            left as usize
        } else {
            wanted
        }
    }

    /// Moves the position past `count` bytes that have been read.
    pub fn advance(&mut self, count: usize)
        requires
            old(self).wf(),
            count <= old(self).spec_remaining(),
        ensures
            final(self).wf(),
            final(self).start == old(self).start,
            final(self).length == old(self).length,
            final(self).pos == old(self).pos + count,
    {
        self.pos = self.pos + count as u64;
    }

    /// Moves the position to where `whence` asks, held to the file.
    ///
    /// A position before the start of the file is refused and leaves the
    /// position where it was. A position after the end becomes the end.
    pub fn seek(&mut self, whence: SeekFrom) -> (r: Result<u64, Error>)
        requires
            old(self).wf(),
        ensures
            final(self).wf(),
            final(self).start == old(self).start,
            final(self).length == old(self).length,
            0 <= final(self).pos <= final(self).length,
            seek_target(whence, old(self).length as int, old(self).pos as int) < 0 ==> {
                &&& r == Err::<u64, Error>(Error::Io(IoErrorKind::InvalidInput))
                &&& final(self).pos == old(self).pos
            },
            seek_target(whence, old(self).length as int, old(self).pos as int) >= 0 ==> {
                &&& r == Ok::<u64, Error>(final(self).pos)
                &&& final(self).pos == clamped(
                    seek_target(whence, old(self).length as int, old(self).pos as int),
                    old(self).length as int,
                )
            },
    {
        let length = self.length as i128;
        let target: i128 = match whence {
            SeekFrom::Start(offset) => offset as i128,
            SeekFrom::End(offset) => length + offset as i128,
            SeekFrom::Current(offset) => self.pos as i128 + offset as i128,
        };
        if target < 0 {
            return Err(Error::Io(IoErrorKind::InvalidInput));
        }
        if target > length {
            self.pos = self.length as u64;
        } else {
            self.pos = target as u64;
        }
        Ok(self.pos)
    }
}

/// A file that `image` holds whole, read from its start, gives as many
/// bytes as its length says: the bytes of the image from where the file
/// starts.
pub proof fn law_full_read(file: IsoFile)
    requires
        file.wf(),
        file.position.pos == 0,
        file.position.start + file.position.length <= file.image@.len(),
    ensures
        file.available() == file.position.length,
        file.data().len() == file.position.length,
        file.data() == file.image@.subrange(
            file.position.start as int,
            file.position.start + file.position.length,
        ),
{
    if file.position.length == 0 {
        assert(file.data() =~= file.image@.subrange(file.position.start as int, file.position.start as int));
    }
}

/// A seek never leaves the file: whatever it is asked, the position ends
/// between the start and the end of the file.
pub proof fn law_seek_stays_inside(whence: SeekFrom, length: u32, pos: u64)
    requires
        pos <= length,
    ensures
        seek_target(whence, length as int, pos as int) >= 0 ==> 0 <= clamped(
            seek_target(whence, length as int, pos as int),
            length as int,
        ) <= length,
{
}

/// A file of an image held in memory, open for reading.
#[derive(Debug)]
pub struct IsoFile<'a> {
    /// The image that holds the file.
    pub image: &'a [u8],
    /// Where the file lies and how far it has been read.
    pub position: FilePosition,
}

impl<'a> IsoFile<'a> {
    /// True when the position of the file is in order.
    pub open spec fn wf(&self) -> bool {
        self.position.wf()
    }

    /// The number of bytes that the image holds of the file from its
    /// position on.
    pub open spec fn available(&self) -> int {
        if self.position.spec_offset() >= self.image@.len() {
            0
        } else {
            least(self.position.spec_remaining(), self.image@.len() - self.position.spec_offset())
        }
    }

    /// The bytes of the file from its position on, as far as the image
    /// holds them.
    pub open spec fn data(&self) -> Seq<u8> {
        if self.available() <= 0 {
            Seq::empty()
        } else {
            self.image@.subrange(self.position.spec_offset(), self.position.spec_offset() + self.available())
        }
    }

    /// Opens the file of `length` bytes whose data begins at `start` in
    /// `image`.
    pub fn new(image: &'a [u8], start: u64, length: u32) -> (file: IsoFile<'a>)
        requires
            start + length <= u64::MAX,
        ensures
            file.wf(),
            file.image == image,
            file.position.start == start,
            file.position.length == length,
            file.position.pos == 0,
    {
        IsoFile { image, position: FilePosition::new(start, length) }
    }

    /// Where in the image a read of `wanted` bytes starts, and the number
    /// of bytes that it gives.
    fn read_span(&self, wanted: usize) -> (span: (usize, usize))
        requires
            self.wf(),
        ensures
            span.1 == least(self.available(), wanted as int),
            span.1 > 0 ==> span.0 == self.position.spec_offset(),
            span.0 + span.1 <= self.image.len(),
    {
        let size = self.position.read_size(wanted);
        let offset = self.position.offset();
        let len = self.image.len();
        if offset >= len as u64 {
            (0, 0)
        } else {
            let held = len - offset as usize;
            if held < size {
                (offset as usize, held)
            } else {
                (offset as usize, size)
            }
        }
    }

    /// Reads into `buffer` as many of the next bytes of the file as it
    /// takes, and returns how many were read. The rest of `buffer` stays as
    /// it was.
    pub fn read(&mut self, buffer: &mut [u8]) -> (count: usize)
        requires
            old(self).wf(),
        ensures
            final(self).wf(),
            final(self).image == old(self).image,
            final(self).position.start == old(self).position.start,
            final(self).position.length == old(self).position.length,
            count == least(old(self).available(), old(buffer)@.len() as int),
            final(self).position.pos == old(self).position.pos + count,
            final(buffer)@.len() == old(buffer)@.len(),
            final(buffer)@.subrange(0, count as int) == old(self).data().subrange(0, count as int),
            final(buffer)@.subrange(count as int, old(buffer)@.len() as int) == old(buffer)@.subrange(
                count as int,
                old(buffer)@.len() as int,
            ),
    {
        let (start, count) = self.read_span(buffer.len());
        let mut i: usize = 0;
        while i < count
            invariant
                i <= count,
                count <= buffer@.len(),
                buffer@.len() == old(buffer)@.len(),
                start + count <= self.image.len(),
                forall|j: int| 0 <= j < i ==> buffer@[j] == self.image@[start + j],
                forall|j: int| i <= j < buffer@.len() ==> buffer@[j] == old(buffer)@[j],
            decreases count - i,
        {
            buffer[i] = self.image[start + i];
            i = i + 1;
        }
        self.position.advance(count);
        assert(buffer@.subrange(0, count as int) =~= old(self).data().subrange(0, count as int));
        assert(buffer@.subrange(count as int, buffer@.len() as int) =~= old(buffer)@.subrange(
            count as int,
            old(buffer)@.len() as int,
        ));
        count
    }

    /// Reads all that is left of the file to the end of `out`, and returns
    /// how many bytes were read.
    pub fn read_to_end(&mut self, out: &mut Vec<u8>) -> (count: usize)
        requires
            old(self).wf(),
        ensures
            final(self).wf(),
            final(self).image == old(self).image,
            final(self).position.start == old(self).position.start,
            final(self).position.length == old(self).position.length,
            count == old(self).available(),
            final(self).position.pos == old(self).position.pos + count,
            final(out)@ == old(out)@ + old(self).data(),
    {
        let (start, count) = self.read_span(usize::MAX);
        let data = slice_subrange(self.image, start, start + count);
        assert(data@ =~= self.data());
        out.extend_from_slice(data);
        assert(out@ =~= old(out)@ + old(self).data());
        self.position.advance(count);
        count
    }

    /// Moves the position to where `whence` asks, held to the file.
    pub fn seek(&mut self, whence: SeekFrom) -> (r: Result<u64, Error>)
        requires
            old(self).wf(),
        ensures
            final(self).wf(),
            final(self).image == old(self).image,
            final(self).position.start == old(self).position.start,
            final(self).position.length == old(self).position.length,
            0 <= final(self).position.pos <= final(self).position.length,
            seek_target(whence, old(self).position.length as int, old(self).position.pos as int) < 0 ==> {
                &&& r == Err::<u64, Error>(Error::Io(IoErrorKind::InvalidInput))
                &&& final(self).position.pos == old(self).position.pos
            },
            seek_target(whence, old(self).position.length as int, old(self).position.pos as int) >= 0 ==> {
                &&& r == Ok::<u64, Error>(final(self).position.pos)
                &&& final(self).position.pos == clamped(
                    seek_target(whence, old(self).position.length as int, old(self).position.pos as int),
                    old(self).position.length as int,
                )
            },
    {
        self.position.seek(whence)
    }
}

} // verus!
