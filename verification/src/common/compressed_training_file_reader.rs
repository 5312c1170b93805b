//! Framing of chunks on the way in. The file is a sequence of bytes in
//! memory, read chunk by chunk from the front.

use vstd::prelude::*;
use vstd::string::StringExecFns;
use crate::common::binpack_error::BinpackError;
use crate::common::compressed_training_file_writer::{le_u32, lemma_le_u32, magic};

verus! {

pub const HEADER_SIZE: usize = 8;

/// The largest payload that a chunk may have: 100 MiB.
pub const MAX_CHUNK_SIZE: u32 = 104857600;

/// What the front of a byte stream holds.
pub enum Front {
    /// Fewer than eight bytes: no header.
    ShortHeader,
    /// Eight bytes that do not start with `BINP`.
    BadMagic,
    /// A header that announces more than the largest payload.
    TooLarge,
    /// A header, and fewer bytes than it announces behind it.
    ShortPayload,
    /// A whole chunk with a payload of this many bytes.
    Chunk(nat),
}

/// What the front of `rest` holds.
pub open spec fn front(rest: Seq<u8>) -> Front {
    if rest.len() < 8 {
        Front::ShortHeader
    } else if rest.subrange(0, 4) != magic() {
        Front::BadMagic
    } else if le_u32(rest.subrange(4, 8)) > MAX_CHUNK_SIZE {
        Front::TooLarge
    } else if rest.len() < 8 + le_u32(rest.subrange(4, 8)) {
        Front::ShortPayload
    } else {
        Front::Chunk(le_u32(rest.subrange(4, 8)) as nat)
    }
}

/// The size of the payload that the eight bytes of a chunk header
/// announce.
pub fn parse_chunk_header(header: &[u8]) -> (r: Result<u32, BinpackError>)
    requires
        header@.len() == 8,
    ensures
        match front(header@) {
            Front::BadMagic => (r matches Err(e) && e is InvalidMagic),
            Front::TooLarge => (r matches Err(e) && e is InvalidFormat),
            _ => r matches Ok(n) && n == le_u32(header@.subrange(4, 8)) && n <= MAX_CHUNK_SIZE,
        },
{
    let mut reader = CompressedTrainingDataFileReader { file: Vec::new(), pos: 0, read_bytes: 0 };
    reader.file.extend_from_slice(header);
    assert(reader.rest() =~= header@);
    reader.read_chunk_header()
}

#[derive(Debug)]
pub struct CompressedTrainingDataFileReader {
    pub file: Vec<u8>,
    pub pos: usize,
    pub read_bytes: u64,
}

impl CompressedTrainingDataFileReader {
    /// The place in the file is inside it, and counts the bytes read.
    pub open spec fn wf(&self) -> bool {
        self.pos <= self.file@.len() && self.read_bytes == self.pos
    }

    /// The bytes that have not been read.
    pub open spec fn rest(&self) -> Seq<u8> {
        self.file@.subrange(self.pos as int, self.file@.len() as int)
    }

    pub fn new(file: Vec<u8>) -> (r: Result<CompressedTrainingDataFileReader, BinpackError>)
        ensures
            r matches Ok(reader) && reader.wf() && reader.file@ == file@ && reader.pos == 0,
    {
        Ok(CompressedTrainingDataFileReader { file, pos: 0, read_bytes: 0 })
    }

    pub fn into_inner(self) -> (r: Result<Vec<u8>, BinpackError>)
        ensures
            r matches Ok(file) && file@ == self.file@,
    {
        Ok(self.file)
    }

    pub fn read_bytes(&self) -> (r: u64)
        ensures
            r == self.read_bytes,
    {
        self.read_bytes
    }

    pub fn has_next_chunk(&mut self) -> (r: bool)
        requires
            old(self).wf(),
        ensures
            *final(self) == *old(self),
            r == (old(self).rest().len() > 0),
    {
        self.pos < self.file.len()
    }

    /// Reads the next chunk and returns its payload. The header counts as
    /// read as soon as it is there, the payload only if it is whole.
    pub fn read_next_chunk(&mut self) -> (r: Result<Vec<u8>, BinpackError>)
        requires
            old(self).wf(),
        ensures
            final(self).wf(),
            final(self).file@ == old(self).file@,
            match front(old(self).rest()) {
                Front::ShortHeader => r matches Err(BinpackError::InvalidMagic) && final(self).pos
                    == old(self).pos,
                Front::BadMagic => r matches Err(BinpackError::InvalidMagic) && final(self).pos
                    == old(self).pos + 8,
                Front::TooLarge => r matches Err(BinpackError::InvalidFormat(_)) && final(self).pos == old(self).pos + 8,
                Front::ShortPayload => r matches Err(BinpackError::Io) && final(self).pos == old(self).pos + 8,
                Front::Chunk(n) => r matches Ok(data) && data@ == old(self).rest().subrange(
                    8,
                    8 + n as int,
                ) && final(self).pos == old(self).pos + 8 + n,
            },
    {
        let mut data: Vec<u8> = Vec::new();
        match self.read_next_chunk_into(&mut data) {
            Ok(()) => Ok(data),
            Err(e) => Err(e),
        }
    }

    /// Reads the next chunk and puts its payload in `buffer`, whose old
    /// content is lost.
    pub fn read_next_chunk_into(&mut self, buffer: &mut Vec<u8>) -> (r: Result<(), BinpackError>)
        requires
            old(self).wf(),
        ensures
            final(self).wf(),
            final(self).file@ == old(self).file@,
            match front(old(self).rest()) {
                Front::ShortHeader => r matches Err(BinpackError::InvalidMagic) && final(self).pos
                    == old(self).pos,
                Front::BadMagic => r matches Err(BinpackError::InvalidMagic) && final(self).pos
                    == old(self).pos + 8,
                Front::TooLarge => r matches Err(BinpackError::InvalidFormat(_)) && final(self).pos == old(self).pos + 8,
                Front::ShortPayload => r matches Err(BinpackError::Io) && final(self).pos == old(self).pos + 8,
                Front::Chunk(n) => r is Ok && final(buffer)@ == old(self).rest().subrange(8, 8 + n as int)
                    && final(self).pos == old(self).pos + 8 + n,
            },
    {
        let ghost rest = self.rest();
        let chunk_size: usize = match self.read_chunk_header() {
            Ok(size) => size as usize,
            Err(e) => {
                return Err(e);
            },
        };
        if self.file.len() - self.pos < chunk_size {
            return Err(BinpackError::Io);
        }
        buffer.clear();
        buffer.extend_from_slice(
            vstd::slice::slice_subrange(self.file.as_slice(), self.pos, self.pos + chunk_size),
        );
        assert(buffer@ =~= rest.subrange(8, 8 + chunk_size));
        self.pos += chunk_size;
        self.read_bytes += chunk_size as u64;
        Ok(())
    }

    fn read_chunk_header(&mut self) -> (r: Result<u32, BinpackError>)
        requires
            old(self).wf(),
        ensures
            final(self).wf(),
            final(self).file@ == old(self).file@,
            match front(old(self).rest()) {
                Front::ShortHeader => r matches Err(BinpackError::InvalidMagic) && final(self).pos
                    == old(self).pos,
                Front::BadMagic => r matches Err(BinpackError::InvalidMagic) && final(self).pos
                    == old(self).pos + 8,
                Front::TooLarge => r matches Err(BinpackError::InvalidFormat(_)) && final(self).pos == old(self).pos + 8,
                _ => r matches Ok(n) && n == le_u32(old(self).rest().subrange(4, 8)) && n
                    <= MAX_CHUNK_SIZE && final(self).pos == old(self).pos + 8,
            },
    {
        let ghost rest = self.rest();
        if self.file.len() - self.pos < HEADER_SIZE {
            return Err(BinpackError::InvalidMagic);
        }
        let at: usize = self.pos;
        let b0: u8 = self.file[at];
        let b1: u8 = self.file[at + 1];
        let b2: u8 = self.file[at + 2];
        let b3: u8 = self.file[at + 3];
        let s0: u8 = self.file[at + 4];
        let s1: u8 = self.file[at + 5];
        let s2: u8 = self.file[at + 6];
        let s3: u8 = self.file[at + 7];
        self.pos += HEADER_SIZE;
        self.read_bytes += HEADER_SIZE as u64;
        assert(rest.subrange(0, 4) =~= seq![b0, b1, b2, b3]);
        assert(rest.subrange(4, 8) =~= seq![s0, s1, s2, s3]);
        if !(b0 == 66 && b1 == 73 && b2 == 78 && b3 == 80) {
            assert(seq![b0, b1, b2, b3] != magic()) by {
                if seq![b0, b1, b2, b3] == magic() {
                    assert(magic()[0] == 66 && magic()[1] == 73 && magic()[2] == 78 && magic()[3]
                        == 80);
                    assert(seq![b0, b1, b2, b3][0] == b0);
                    assert(seq![b0, b1, b2, b3][1] == b1);
                    assert(seq![b0, b1, b2, b3][2] == b2);
                    assert(seq![b0, b1, b2, b3][3] == b3);
                }
            }
            return Err(BinpackError::InvalidMagic);
        }
        assert(seq![b0, b1, b2, b3] =~= magic());
        proof {
            lemma_le_u32(0, s0, s1, s2, s3);
        }
        let chunk_size: u32 = (s0 as u32) | ((s1 as u32) << 8) | ((s2 as u32) << 16) | ((s3 as u32)
            << 24);
        if chunk_size > MAX_CHUNK_SIZE {
            return Err(
                BinpackError::InvalidFormat(
                    String::from_str("Chunk size larger than supported. Malformed file?"),
                ),
            );
        }
        Ok(chunk_size)
    }
}

} // verus!
