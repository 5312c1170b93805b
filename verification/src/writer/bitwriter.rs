//! A stream of bits, written in groups of up to eight. Each byte is filled
//! from its most significant bit down, and each group goes in with its
//! most significant bit first.

use vstd::prelude::*;

verus! {

/// The bytes of a bit stream, and the number of bits of the last byte that
/// are still free.
pub struct BitState {
    pub bytes: Seq<u8>,
    pub left: int,
}

/// The stream after the low `count` bits of `bits` have been added. If
/// they do not fit into the last byte, its free bits take the high bits of
/// the group, and the others open the next byte at its top.
pub open spec fn add_bits(s: BitState, bits: u8, count: int) -> BitState {
    let last = s.bytes.len() - 1;
    if count == 0 {
        s
    } else if s.left == 0 {
        BitState { bytes: s.bytes.push(bits << ((8 - count) as u8)), left: 8 - count }
    } else if count <= s.left {
        BitState {
            bytes: s.bytes.update(last, s.bytes[last] | (bits << ((s.left - count) as u8))),
            left: s.left - count,
        }
    } else {
        let spill = count - s.left;
        BitState {
            bytes: s.bytes.update(last, s.bytes[last] | (bits >> (spill as u8))).push(
                bits << ((8 - spill) as u8),
            ),
            left: s.left + 8 - count,
        }
    }
}

/// One group of a variable-length number: the low `block` bits of `v`, and
/// above them one bit that tells whether more groups follow.
pub open spec fn vle_block(v: u16, block: int) -> u8 {
    let mask = ((1u16 << (block as u16)) - 1) as u16;
    (((v & mask) as u8) | ((if v > mask {
        1u8
    } else {
        0u8
    }) << (block as u8)))
}

/// The stream after `v` has been added in groups of `block` bits, lowest
/// group first, each with its continuation bit. The last group is the one
/// above which `v` has no bit set.
pub open spec fn add_vle16(s: BitState, v: u16, block: int) -> BitState
    decreases v,
    when 1 <= block <= 7
{
    let next = add_bits(s, vle_block(v, block), block + 1);
    let rest = v >> (block as u16);
    if rest == 0 {
        next
    } else {
        proof {
            lemma_shift_decreases(v, block as u16);
        }
        add_vle16(next, rest, block)
    }
}

pub proof fn lemma_shift_decreases(v: u16, block: u16)
    by (bit_vector)
    requires
        1 <= block <= 7,
        v >> block != 0,
    ensures
        v >> block < v,
{
}

/// The mask of a group is at least 1 and leaves at most seven bits, and
/// a group takes at least half of what is left of a number.
pub proof fn lemma_block_fits(v: u16, block: u16, mask: u16)
    by (bit_vector)
    requires
        1 <= block <= 7,
        mask == ((1u16 << block) - 1) as u16,
    ensures
        (1u16 << block) >= 1,
        v & mask <= 0x7F,
        v >> block <= v / 2,
{
}

#[derive(Debug)]
pub struct BitWriter {
    pub movetext: Vec<u8>,
    pub bits_left: usize,
}

impl View for BitWriter {
    type V = BitState;

    open spec fn view(&self) -> BitState {
        BitState { bytes: self.movetext@, left: self.bits_left as int }
    }
}

impl BitWriter {
    /// At most seven bits of the last byte are free, and only a byte that
    /// exists has free bits.
    pub open spec fn wf(&self) -> bool {
        self.bits_left < 8 && (self.bits_left > 0 ==> self.movetext@.len() > 0)
    }

    pub fn new() -> (r: BitWriter)
        ensures
            r.wf(),
            r@.bytes.len() == 0,
            r@.left == 0,
    {
        BitWriter { movetext: Vec::new(), bits_left: 0 }
    }

    pub fn clear(&mut self)
        ensures
            final(self).wf(),
            final(self)@.bytes.len() == 0,
            final(self)@.left == 0,
    {
        self.movetext.clear();
        self.bits_left = 0;
    }

    pub fn add_bits_le8(&mut self, bits: u8, count: usize)
        requires
            old(self).wf(),
            count <= 8,
        ensures
            final(self).wf(),
            final(self)@ == add_bits(old(self)@, bits, count as int),
            final(self)@.bytes.len() <= old(self)@.bytes.len() + 1,
    {
        if count == 0 {
            return ;
        }
        if self.bits_left == 0 {
            self.movetext.push(bits << (8 - count));
            self.bits_left = 8;
        } else if count <= self.bits_left {
            let last_idx = self.movetext.len() - 1;
            let byte: u8 = self.movetext[last_idx];
            self.movetext.set(last_idx, byte | (bits << (self.bits_left - count)));
        } else {
            let spill_count = count - self.bits_left;
            let last_idx = self.movetext.len() - 1;
            let byte: u8 = self.movetext[last_idx];
            self.movetext.set(last_idx, byte | (bits >> spill_count));
            self.movetext.push(bits << (8 - spill_count));
            self.bits_left += 8;
        }
        self.bits_left -= count;
    }

    pub fn add_bits_vle16(&mut self, v: u16, block_size: usize)
        requires
            old(self).wf(),
            1 <= block_size <= 7,
        ensures
            final(self).wf(),
            final(self)@ == add_vle16(old(self)@, v, block_size as int),
            final(self)@.bytes.len() <= old(self)@.bytes.len() + 16,
    {
        proof {
            lemma_block_fits(v, block_size as u16, ((1u16 << (block_size as u16)) - 1) as u16);
        }
        let mask: u16 = (1u16 << block_size) - 1;
        let mut v: u16 = v;
        let ghost start = self@;
        let ghost whole = v;
        let ghost mut groups: int = 0;
        loop
            invariant_except_break
                self.wf(),
                1 <= block_size <= 7,
                mask == ((1u16 << (block_size as u16)) - 1) as u16,
                add_vle16(self@, v, block_size as int) == add_vle16(
                    start,
                    whole,
                    block_size as int,
                ),
                0 <= groups <= 15,
                (v as int) < vstd::arithmetic::power2::pow2((16 - groups) as nat) || groups == 0,
                self@.bytes.len() <= start.bytes.len() + groups,
            ensures
                self.wf(),
                self@ == add_vle16(start, whole, block_size as int),
                self@.bytes.len() <= start.bytes.len() + 16,
            decreases v,
        {
            proof {
                lemma_block_fits(v, block_size as u16, mask);
            }
            let more: u8 = if v > mask {
                1
            } else {
                0
            };
            let block: u8 = ((v & mask) as u8) | (more << block_size);
            self.add_bits_le8(block, block_size + 1);
            let ghost before = v;
            v = v >> block_size;
            proof {
                lemma_vle_step(before, block_size as u16, groups);
                groups = groups + 1;
            }
            if v == 0 {
                break ;
            }
        }
    }

    pub fn movetext(&self) -> (r: &[u8])
        ensures
            r@ == self.movetext@,
    {
        self.movetext.as_slice()
    }
}

/// Each group takes at least one bit off a number of at most 16 bits, so
/// there are at most 16 groups.
proof fn lemma_vle_step(v: u16, block: u16, groups: int)
    requires
        1 <= block <= 7,
        0 <= groups <= 16,
        groups == 0 || (v as int) < vstd::arithmetic::power2::pow2((16 - groups) as nat),
    ensures
        v >> block != 0 ==> v >> block < v && groups < 15 && ((v >> block) as int)
            < vstd::arithmetic::power2::pow2((16 - groups - 1) as nat),
{
    if v >> block != 0 {
        lemma_shift_decreases(v, block);
        lemma_block_fits(v, block, ((1u16 << block) - 1) as u16);
        vstd::arithmetic::power2::lemma2_to64();
        if groups == 0 {
            assert((v >> block) as int <= 0x7FFF);
        } else {
            vstd::arithmetic::power2::lemma_pow2_unfold((16 - groups) as nat);
            if groups >= 15 {
                assert(v < 2);
            }
        }
    }
}

} // verus!
