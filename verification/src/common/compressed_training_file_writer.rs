//! Framing of chunks on the way out. A framed chunk is the four bytes
//! `BINP`, the length of the payload as a little-endian 32-bit word, and
//! the payload. The file is a sequence of bytes in memory.

use vstd::prelude::*;
use crate::common::binpack_error::BinpackError;

verus! {

pub const HEADER_SIZE: usize = 8;

/// The four bytes of a 32-bit word, least significant first.
pub open spec fn le_u32_bytes(n: u32) -> Seq<u8> {
    seq![
        (n % 256) as u8,
        ((n / 256) % 256) as u8,
        ((n / 65536) % 256) as u8,
        (n / 16777216) as u8,
    ]
}

/// The 32-bit word that four bytes hold with the least significant first.
pub open spec fn le_u32(b: Seq<u8>) -> u32 {
    (b[0] + 256 * b[1] + 65536 * b[2] + 16777216 * b[3]) as u32
}

/// The four bytes with which every chunk starts: `BINP`.
pub open spec fn magic() -> Seq<u8> {
    seq![66u8, 73u8, 78u8, 80u8]
}

/// The header of a chunk with a payload of `n` bytes.
pub open spec fn header(n: u32) -> Seq<u8> {
    magic() + le_u32_bytes(n)
}

/// A payload with its header before it.
pub open spec fn framed(data: Seq<u8>) -> Seq<u8> {
    header(data.len() as u32) + data
}

pub proof fn lemma_le_u32(n: u32, b0: u8, b1: u8, b2: u8, b3: u8)
    by (bit_vector)
    ensures
        n & 0xFF == n % 256,
        (n >> 8) & 0xFF == (n / 256) % 256,
        (n >> 16) & 0xFF == (n / 65536) % 256,
        (n >> 24) & 0xFF == n / 16777216,
        (b0 as u32) | ((b1 as u32) << 8) | ((b2 as u32) << 16) | ((b3 as u32) << 24) == b0 + 256
            * b1 + 65536 * b2 + 16777216 * b3,
{
}

/// The length that a header announces is the length that was framed.
pub proof fn lemma_le_u32_roundtrip(n: u32)
    ensures
        le_u32(le_u32_bytes(n)) == n,
{
}

#[derive(Debug)]
pub struct CompressedTrainingDataFileWriter {
    pub file: Vec<u8>,
}

impl CompressedTrainingDataFileWriter {
    pub fn new(file: Vec<u8>) -> (r: Result<CompressedTrainingDataFileWriter, BinpackError>)
        ensures
            r matches Ok(w) && w.file@ == file@,
    {
        Ok(CompressedTrainingDataFileWriter { file })
    }

    pub fn into_inner(self) -> (r: Result<Vec<u8>, BinpackError>)
        ensures
            r matches Ok(file) && file@ == self.file@,
    {
        Ok(self.file)
    }

    /// Appends one framed chunk.
    pub fn append(&mut self, data: &[u8]) -> (r: Result<(), BinpackError>)
        requires
            data@.len() <= u32::MAX,
        ensures
            r is Ok,
            final(self).file@ == old(self).file@ + framed(data@),
    {
        self.write_chunk_header(data.len() as u32);
        self.file.extend_from_slice(data);
        assert(self.file@ =~= old(self).file@ + framed(data@));
        Ok(())
    }

    fn write_chunk_header(&mut self, chunk_size: u32)
        ensures
            final(self).file@ == old(self).file@ + header(chunk_size),
    {
        proof {
            lemma_le_u32(chunk_size, 0, 0, 0, 0);
        }
        self.file.push(66);
        self.file.push(73);
        self.file.push(78);
        self.file.push(80);
        self.file.push((chunk_size & 0xFF) as u8);
        self.file.push(((chunk_size >> 8) & 0xFF) as u8);
        self.file.push(((chunk_size >> 16) & 0xFF) as u8);
        self.file.push(((chunk_size >> 24) & 0xFF) as u8);
        assert(self.file@ =~= old(self).file@ + header(chunk_size));
    }

    /// Nothing is held back: every appended chunk is in the file at once.
    pub fn flush(&mut self) -> (r: Result<(), BinpackError>)
        ensures
            r is Ok,
            final(self).file@ == old(self).file@,
    {
        Ok(())
    }
}

} // verus!
