//! Reading a stream of bits in groups of up to eight: the inverse of the
//! bit writer. The reader holds its place in the stream; the bytes are
//! handed to it with every call. Bytes beyond the end read as zero.

use vstd::prelude::*;

verus! {

/// A place in a bit stream: the index of the current byte, and the number
/// of its bits that have not been read.
pub struct ReadState {
    pub offset: int,
    pub left: int,
}

/// Byte number `i` of a stream: zero beyond its end.
pub open spec fn byte_at(bytes: Seq<u8>, i: int) -> u8 {
    if 0 <= i < bytes.len() {
        bytes[i]
    } else {
        0
    }
}

/// The place at which the next group is read: a byte that has been read
/// to its end gives way to the next one.
pub open spec fn next_place(s: ReadState) -> ReadState {
    if s.left == 0 {
        ReadState { offset: s.offset + 1, left: 8 }
    } else {
        s
    }
}

/// The next `count` bits of the stream, as a number.
pub open spec fn read_bits(bytes: Seq<u8>, s: ReadState, count: int) -> u8 {
    let p = next_place(s);
    let head = (byte_at(bytes, p.offset) << ((8 - p.left) as u8)) >> ((8 - count) as u8);
    if count == 0 {
        0
    } else if count > p.left {
        head | (byte_at(bytes, p.offset + 1) >> ((8 - (count - p.left)) as u8))
    } else {
        head
    }
}

/// The place in the stream after `count` bits have been read.
pub open spec fn after_bits(s: ReadState, count: int) -> ReadState {
    let p = next_place(s);
    if count == 0 {
        s
    } else if count > p.left {
        ReadState { offset: p.offset + 1, left: p.left + 8 - count }
    } else {
        ReadState { offset: p.offset, left: p.left - count }
    }
}

/// The number that groups of `block` bits hold from the given place on,
/// when the groups before have filled the low `shift` bits: `acc`. A group
/// whose top bit is clear is the last, and so is one that fills the
/// number's 16 bits.
pub open spec fn read_vle16(bytes: Seq<u8>, s: ReadState, block: int, acc: u16, shift: int) -> u16
    decreases 16 - shift,
    when 1 <= block <= 7 && 0 <= shift
{
    let group = read_bits(bytes, s, block + 1) as u16;
    let mask = ((1u16 << (block as u16)) - 1) as u16;
    let v = acc | ((group & mask) << (shift as u16));
    if (group >> (block as u16)) == 0 || shift + block >= 16 {
        v
    } else {
        read_vle16(bytes, after_bits(s, block + 1), block, v, shift + block)
    }
}

/// The place in the stream after a variable-length number has been read.
pub open spec fn after_vle16(bytes: Seq<u8>, s: ReadState, block: int, shift: int) -> ReadState
    decreases 16 - shift,
    when 1 <= block <= 7 && 0 <= shift
{
    let group = read_bits(bytes, s, block + 1) as u16;
    if (group >> (block as u16)) == 0 || shift + block >= 16 {
        after_bits(s, block + 1)
    } else {
        after_vle16(bytes, after_bits(s, block + 1), block, shift + block)
    }
}

#[derive(Debug)]
pub struct BitReader {
    pub read_bits_left: usize,
    pub read_offset: usize,
}

impl View for BitReader {
    type V = ReadState;

    open spec fn view(&self) -> ReadState {
        ReadState { offset: self.read_offset as int, left: self.read_bits_left as int }
    }
}

impl BitReader {
    /// At most eight bits of the current byte are unread.
    pub open spec fn wf(&self) -> bool {
        self.read_bits_left <= 8
    }

    pub fn new() -> (r: BitReader)
        ensures
            r.wf(),
            r@.offset == 0,
            r@.left == 8,
    {
        BitReader { read_bits_left: 8, read_offset: 0 }
    }

    pub fn extract_bits_le8(&mut self, movetext: &[u8], count: usize) -> (bits: u8)
        requires
            old(self).wf(),
            count <= 8,
            old(self).read_offset <= usize::MAX - 2,
        ensures
            final(self).wf(),
            bits == read_bits(movetext@, old(self)@, count as int),
            final(self)@ == after_bits(old(self)@, count as int),
            final(self).read_offset <= old(self).read_offset + 1,
    {
        if count == 0 {
            return 0;
        }
        if self.read_bits_left == 0 {
            self.read_offset += 1;
            self.read_bits_left = 8;
        }
        let first: u8 = if self.read_offset < movetext.len() {
            movetext[self.read_offset]
        } else {
            0
        };
        let byte: u8 = first << (8 - self.read_bits_left);
        let mut bits: u8 = byte >> (8 - count);
        if count > self.read_bits_left {
            let spill_count = count - self.read_bits_left;
            let second: u8 = if self.read_offset + 1 < movetext.len() {
                movetext[self.read_offset + 1]
            } else {
                0
            };
            bits = bits | (second >> (8 - spill_count));
            self.read_bits_left += 8;
            self.read_offset += 1;
        }
        self.read_bits_left -= count;
        bits
    }

    pub fn extract_vle16(&mut self, movetext: &[u8], block_size: usize) -> (v: u16)
        requires
            old(self).wf(),
            1 <= block_size <= 7,
            old(self).read_offset <= usize::MAX - 40,
        ensures
            final(self).wf(),
            v == read_vle16(movetext@, old(self)@, block_size as int, 0, 0),
            final(self)@ == after_vle16(movetext@, old(self)@, block_size as int, 0),
            final(self).read_offset <= old(self).read_offset + 16,
    {
        proof {
            crate::writer::bitwriter::lemma_block_fits(
                0,
                block_size as u16,
                ((1u16 << (block_size as u16)) - 1) as u16,
            );
        }
        let mask: u16 = (1u16 << block_size) - 1;
        let mut v: u16 = 0;
        let mut offset: usize = 0;
        let ghost start = self@;
        loop
            invariant_except_break
                self.wf(),
                1 <= block_size <= 7,
                mask == ((1u16 << (block_size as u16)) - 1) as u16,
                offset < 16,
                self.read_offset <= old(self).read_offset + offset,
                old(self).read_offset <= usize::MAX - 40,
                read_vle16(movetext@, self@, block_size as int, v, offset as int) == read_vle16(
                    movetext@,
                    start,
                    block_size as int,
                    0,
                    0,
                ),
                after_vle16(movetext@, self@, block_size as int, offset as int) == after_vle16(
                    movetext@,
                    start,
                    block_size as int,
                    0,
                ),
            ensures
                self.wf(),
                v == read_vle16(movetext@, start, block_size as int, 0, 0),
                self@ == after_vle16(movetext@, start, block_size as int, 0),
                self.read_offset <= old(self).read_offset + 16,
            decreases 16 - offset,
        {
            let block: u16 = self.extract_bits_le8(movetext, block_size + 1) as u16;
            v = v | ((block & mask) << offset);
            if (block >> block_size) == 0 || offset + block_size >= 16 {
                break ;
            }
            offset += block_size;
        }
        v
    }

    pub fn num_read_bytes(&self) -> (r: usize)
        requires
            self.read_offset < usize::MAX,
        ensures
            r == self.read_offset + (if self.read_bits_left != 8 {
                1int
            } else {
                0int
            }),
    {
        self.read_offset + (if self.read_bits_left != 8 {
            1
        } else {
            0
        })
    }
}

} // verus!
