//! What the bit writer has written, the bit reader reads.

use vstd::prelude::*;
use crate::chess::bits::{bit64, lemma_bit_ext};
use crate::reader::bitreader::{
    after_bits, after_vle16, byte_at, next_place, read_bits, read_vle16, ReadState,
};
use crate::writer::bitwriter::{add_bits, add_vle16, lemma_shift_decreases, vle_block, BitState};

verus! {

/// Whether bit `i` of a byte is set, counted from the least significant.
pub open spec fn bit8(b: u8, i: int) -> bool {
    0 <= i < 8 && (b >> (i as u8)) & 1 == 1
}

/// Bit number `p` of a stream, counted from the top bit of the first
/// byte. The bits beyond the end of the stream are clear.
pub open spec fn stream_bit(bytes: Seq<u8>, p: int) -> bool {
    bit8(byte_at(bytes, p / 8), 7 - p % 8)
}

/// The number of bits that a writer has written.
pub open spec fn written(s: BitState) -> int {
    8 * s.bytes.len() - s.left
}

/// The number of bits that a reader has read.
pub open spec fn consumed(r: ReadState) -> int {
    8 * r.offset + 8 - r.left
}

/// Whether a writer's last byte is clear where nothing has been written.
pub open spec fn tight(s: BitState) -> bool {
    &&& 0 <= s.left < 8
    &&& s.left > 0 ==> s.bytes.len() > 0
    &&& forall|p: int| written(s) <= p < 8 * s.bytes.len() ==> !#[trigger] stream_bit(s.bytes, p)
}

/// Whether a group of `count` bits holds nothing above them.
pub open spec fn fits(bits: u8, count: int) -> bool {
    forall|j: int| count <= j < 8 ==> !#[trigger] bit8(bits, j)
}

/// Whether a stream holds the bits that a writer has written.
pub open spec fn holds(bytes: Seq<u8>, s: BitState) -> bool {
    forall|p: int|
        0 <= p < written(s) ==> #[trigger] stream_bit(bytes, p) == stream_bit(s.bytes, p)
}

/// Whether a reader's place is one that reading leads to.
pub open spec fn place_ok(r: ReadState) -> bool {
    0 <= r.offset && 0 <= r.left <= 8
}

proof fn lemma_byte_bits(a: u8, v: u8, k: u8, j: u8, high: u64)
    by (bit_vector)
    requires
        k < 8,
        j < 8,
    ensures
        j >= k ==> (((v << k) >> j) & 1 == 1) == ((v >> ((j - k) as u8)) & 1 == 1),
        j < k ==> ((v << k) >> j) & 1 != 1,
        j + k < 8 ==> (((v >> k) >> j) & 1 == 1) == ((v >> ((j + k) as u8)) & 1 == 1),
        j + k >= 8 ==> ((v >> k) >> j) & 1 != 1,
        (((a | v) >> j) & 1 == 1) == ((a >> j) & 1 == 1 || (v >> j) & 1 == 1),
        (0u8 >> j) & 1 != 1,
        ((a >> j) & 1 == 1) == (((a as u64) >> (j as u64)) & 1u64 == 1u64),
        8u64 <= high && high < 64u64 ==> ((a as u64) >> high) & 1u64 != 1u64,
        v << 8u8 == 0,
        v >> j == 0 ==> (v >> j) & 1 != 1,
{
}

/// The bits of a shifted byte, and of the union of two bytes.
proof fn lemma_shifted(a: u8, v: u8, k: int, j: int)
    requires
        0 <= k < 8,
        0 <= j < 8,
    ensures
        bit8(v << (k as u8), j) == (j >= k && bit8(v, j - k)),
        bit8(v >> (k as u8), j) == (j + k < 8 && bit8(v, j + k)),
        bit8(a | v, j) == (bit8(a, j) || bit8(v, j)),
        !bit8(0, j),
{
    lemma_byte_bits(a, v, k as u8, j as u8, 0);
}

/// A number below a power of two has no bit at or above the exponent.
pub proof fn lemma_fits_below(x: u8, count: int)
    requires
        0 <= count <= 8,
        x < vstd::arithmetic::power2::pow2(count as nat),
    ensures
        fits(x, count),
{
    assert forall|j: int| count <= j < 8 implies !#[trigger] bit8(x, j) by {
        vstd::bits::lemma_u8_shr_is_div(x, j as u8);
        if count < j {
            vstd::arithmetic::power2::lemma_pow2_strictly_increases(count as nat, j as nat);
        }
        vstd::arithmetic::power2::lemma_pow2_pos(j as nat);
        vstd::arithmetic::div_mod::lemma_basic_div(x as int, vstd::arithmetic::power2::pow2(j as nat) as int);
        lemma_byte_bits(0, x, 0, j as u8, 0);
    }
}

/// Two bytes with the same bits are the same byte.
proof fn lemma_byte_ext(a: u8, b: u8)
    requires
        forall|j: int| 0 <= j < 8 ==> bit8(a, j) == bit8(b, j),
    ensures
        a == b,
{
    let x = a as u64;
    let y = b as u64;
    assert forall|j: u64| j < 64 implies bit64(x, j) == bit64(y, j) by {
        if j < 8 {
            lemma_byte_bits(a, a, 0, j as u8, 0);
            lemma_byte_bits(b, b, 0, j as u8, 0);
            assert(bit8(a, j as int) == bit8(b, j as int));
        } else {
            lemma_byte_bits(a, a, 0, 0, j);
            lemma_byte_bits(b, b, 0, 0, j);
        }
    }
    lemma_bit_ext(x, y);
}

/// What a group adds to a stream: its bits, the most significant first,
/// behind the bits that were there, which stay as they are.
pub proof fn lemma_add_bits(s: BitState, bits: u8, count: int)
    requires
        tight(s),
        0 <= count <= 8,
        fits(bits, count),
    ensures
        tight(add_bits(s, bits, count)),
        written(add_bits(s, bits, count)) == written(s) + count,
        add_bits(s, bits, count).bytes.len() >= s.bytes.len(),
        holds(add_bits(s, bits, count).bytes, s),
        forall|i: int|
            0 <= i < count ==> #[trigger] stream_bit(
                add_bits(s, bits, count).bytes,
                written(s) + i,
            ) == bit8(bits, count - 1 - i),
{
    let t = add_bits(s, bits, count);
    let len = s.bytes.len() as int;
    let last = len - 1;
    if count == 0 {
    } else if s.left == 0 {
        let k = 8 - count;
        let b = bits << (k as u8);
        assert forall|p: int| 0 <= p < 8 * len + 8 implies #[trigger] stream_bit(t.bytes, p) == (
        if p < 8 * len {
            stream_bit(s.bytes, p)
        } else {
            bit8(bits, count - 1 - (p - 8 * len))
        }) by {
            if p >= 8 * len {
                assert(p / 8 == len && t.bytes[p / 8] == b);
                lemma_shifted(0, bits, k, 7 - p % 8);
            } else {
                assert(t.bytes[p / 8] == s.bytes[p / 8]);
            }
        }
        assert forall|p: int| written(t) <= p < 8 * t.bytes.len() implies !#[trigger] stream_bit(
            t.bytes,
            p,
        ) by {
            assert(stream_bit(t.bytes, p) == bit8(bits, count - 1 - (p - 8 * len)));
        }
    } else if count <= s.left {
        let k = s.left - count;
        let old_byte = s.bytes[last];
        let new_byte = old_byte | (bits << (k as u8));
        assert forall|p: int| 0 <= p < 8 * len implies #[trigger] stream_bit(t.bytes, p) == (if p
            < written(s) {
            stream_bit(s.bytes, p)
        } else {
            bit8(bits, count - 1 - (p - written(s)))
        }) by {
            if p / 8 == last {
                let j = 7 - p % 8;
                assert(t.bytes[p / 8] == new_byte);
                lemma_shifted(old_byte, bits << (k as u8), 0, j);
                lemma_shifted(0, bits, k, j);
                assert(stream_bit(s.bytes, p) == bit8(old_byte, j));
                if p >= written(s) {
                    assert(!stream_bit(s.bytes, p));
                } else {
                    assert(!bit8(bits, j - k));
                }
            } else {
                assert(t.bytes[p / 8] == s.bytes[p / 8]);
            }
        }
        assert forall|p: int| written(t) <= p < 8 * t.bytes.len() implies !#[trigger] stream_bit(
            t.bytes,
            p,
        ) by {
            assert(stream_bit(t.bytes, p) == bit8(bits, count - 1 - (p - written(s))));
        }
    } else {
        let spill = count - s.left;
        let old_byte = s.bytes[last];
        let new_byte = old_byte | (bits >> (spill as u8));
        let next_byte = bits << ((8 - spill) as u8);
        assert forall|p: int| 0 <= p < 8 * len + 8 implies #[trigger] stream_bit(t.bytes, p) == (
        if p < written(s) {
            stream_bit(s.bytes, p)
        } else {
            bit8(bits, count - 1 - (p - written(s)))
        }) by {
            if p / 8 == last {
                let j = 7 - p % 8;
                assert(t.bytes[p / 8] == new_byte);
                lemma_shifted(old_byte, bits >> (spill as u8), 0, j);
                lemma_shifted(0, bits, spill, j);
                assert(stream_bit(s.bytes, p) == bit8(old_byte, j));
                if p >= written(s) {
                    assert(!stream_bit(s.bytes, p));
                } else {
                    assert(!bit8(bits, j + spill));
                }
            } else if p / 8 == len {
                assert(t.bytes[p / 8] == next_byte);
                lemma_shifted(0, bits, 8 - spill, 7 - p % 8);
            } else {
                assert(t.bytes[p / 8] == s.bytes[p / 8]);
            }
        }
        assert forall|p: int| written(t) <= p < 8 * t.bytes.len() implies !#[trigger] stream_bit(
            t.bytes,
            p,
        ) by {
            assert(stream_bit(t.bytes, p) == bit8(bits, count - 1 - (p - written(s))));
        }
    }
}

/// What reading a group gives: the next bits of the stream, the first of
/// them as the most significant, and nothing above them.
pub proof fn lemma_read_bits(bytes: Seq<u8>, r: ReadState, count: int)
    requires
        place_ok(r),
        0 <= count <= 8,
    ensures
        place_ok(after_bits(r, count)),
        consumed(after_bits(r, count)) == consumed(r) + count,
        fits(read_bits(bytes, r, count), count),
        forall|i: int|
            0 <= i < count ==> bit8(read_bits(bytes, r, count), count - 1 - i) == #[trigger] stream_bit(
                bytes,
                consumed(r) + i,
            ),
{
    let value = read_bits(bytes, r, count);
    let p = next_place(r);
    let first = byte_at(bytes, p.offset);
    let second = byte_at(bytes, p.offset + 1);
    if count == 0 {
        assert forall|j: int| 0 <= j < 8 implies !#[trigger] bit8(value, j) by {
            lemma_shifted(0, 0, 0, j);
        }
    } else {
        let up = 8 - p.left;
        let down = 8 - count;
        let head = (first << (up as u8)) >> (down as u8);
        let spill = count - p.left;
        assert forall|j: int| 0 <= j < 8 implies #[trigger] bit8(value, j) == (if j >= count {
            false
        } else if j >= spill {
            bit8(first, j - spill)
        } else {
            bit8(second, j + 8 - spill)
        }) by {
            if up < 8 {
                lemma_shifted(0, first << (up as u8), down, j);
                if j + down < 8 {
                    lemma_shifted(0, first, up, j + down);
                }
            } else {
                lemma_shifted(0, first << (up as u8), down, j);
                lemma_byte_bits(0, first, 0, 0, 0);
                lemma_shifted(0, 0, 0, if j + down < 8 {
                    j + down
                } else {
                    0
                });
            }
            if count > p.left {
                lemma_shifted(head, second >> ((8 - spill) as u8), 0, j);
                lemma_shifted(0, second, 8 - spill, j);
            }
        }
        assert forall|i: int| 0 <= i < count implies bit8(value, count - 1 - i) == #[trigger] stream_bit(
            bytes,
            consumed(r) + i,
        ) by {
            let q = consumed(r) + i;
            if i < p.left {
                assert(q / 8 == p.offset && 7 - q % 8 == p.left - 1 - i);
            } else {
                assert(q / 8 == p.offset + 1 && 7 - q % 8 == 7 - (i - p.left));
            }
        }
    }
}

/// Reading at the place where a group was written gives the group back,
/// whatever was written behind it.
pub proof fn lemma_read_written(s: BitState, bits: u8, count: int, bytes: Seq<u8>, r: ReadState)
    requires
        tight(s),
        0 <= count <= 8,
        fits(bits, count),
        place_ok(r),
        consumed(r) == written(s),
        holds(bytes, add_bits(s, bits, count)),
    ensures
        read_bits(bytes, r, count) == bits,
        place_ok(after_bits(r, count)),
        consumed(after_bits(r, count)) == written(add_bits(s, bits, count)),
{
    let t = add_bits(s, bits, count);
    let value = read_bits(bytes, r, count);
    lemma_add_bits(s, bits, count);
    lemma_read_bits(bytes, r, count);
    assert forall|j: int| 0 <= j < 8 implies bit8(value, j) == bit8(bits, j) by {
        if j < count {
            let i = count - 1 - j;
            assert(bit8(value, count - 1 - i) == stream_bit(bytes, consumed(r) + i));
            assert(stream_bit(bytes, written(s) + i) == stream_bit(t.bytes, written(s) + i));
            assert(stream_bit(t.bytes, written(s) + i) == bit8(bits, count - 1 - i));
        }
    }
    lemma_byte_ext(value, bits);
}

/// A stream that holds what a writer has written after a group holds
/// what it had written before the group.
pub proof fn lemma_holds_before(bytes: Seq<u8>, s: BitState, bits: u8, count: int)
    requires
        tight(s),
        0 <= count <= 8,
        fits(bits, count),
        holds(bytes, add_bits(s, bits, count)),
    ensures
        holds(bytes, s),
{
    lemma_add_bits(s, bits, count);
    let t = add_bits(s, bits, count);
    assert forall|p: int| 0 <= p < written(s) implies #[trigger] stream_bit(bytes, p) == stream_bit(
        s.bytes,
        p,
    ) by {
        assert(stream_bit(bytes, p) == stream_bit(t.bytes, p));
        assert(stream_bit(t.bytes, p) == stream_bit(s.bytes, p));
    }
}

proof fn lemma_group(rest: u16, block: u16, block8: u8, mask: u16, more: u8, g: u8, j: u8)
    by (bit_vector)
    requires
        1 <= block <= 7,
        block8 == block,
        mask == ((1u16 << block) - 1) as u16,
        rest > mask ==> more == 1,
        rest <= mask ==> more == 0,
        g == ((rest & mask) as u8) | (more << block8),
    ensures
        (g as u16) & mask == rest & mask,
        ((g as u16) >> block == 0) == (rest >> block == 0),
        rest >> block == 0 ==> rest & mask == rest,
        block8 < j && j < 8 ==> (g >> j) & 1 != 1,
        (rest << 0u16) >> 0u16 == rest,
        0u16 | (rest << 0u16) == rest,
{
}

proof fn lemma_groups_join(acc: u16, rest: u16, mask: u16, block: u16, shift: u16, v: u16)
    by (bit_vector)
    requires
        1 <= block <= 7,
        shift < 16,
        mask == ((1u16 << block) - 1) as u16,
        (rest << shift) >> shift == rest,
        v == acc | (rest << shift),
    ensures
        shift + block >= 16 ==> rest >> block == 0,
        shift + block < 16 ==> v == (acc | ((rest & mask) << shift)) | ((rest >> block) << ((shift
            + block) as u16)) && ((rest >> block) << ((shift + block) as u16)) >> ((shift
            + block) as u16) == rest >> block,
{
}

/// What a number adds to a stream keeps the stream tight, and leaves the
/// bits that were there as they are.
pub proof fn lemma_add_vle16(s: BitState, v: u16, block: int)
    requires
        tight(s),
        1 <= block <= 7,
    ensures
        tight(add_vle16(s, v, block)),
        written(add_vle16(s, v, block)) >= written(s),
        holds(add_vle16(s, v, block).bytes, s),
    decreases v,
{
    let g = vle_block(v, block);
    let mask = ((1u16 << (block as u16)) - 1) as u16;
    let more = if v > mask {
        1u8
    } else {
        0u8
    };
    assert forall|j: int| block + 1 <= j < 8 implies !#[trigger] bit8(g, j) by {
        lemma_group(v, block as u16, block as u8, mask, more, g, j as u8);
    }
    lemma_add_bits(s, g, block + 1);
    let next = add_bits(s, g, block + 1);
    let rest = v >> (block as u16);
    if rest != 0 {
        lemma_shift_decreases(v, block as u16);
        lemma_add_vle16(next, rest, block);
        let t = add_vle16(next, rest, block);
        assert forall|p: int| 0 <= p < written(s) implies #[trigger] stream_bit(t.bytes, p)
            == stream_bit(s.bytes, p) by {
            assert(stream_bit(t.bytes, p) == stream_bit(next.bytes, p));
            assert(stream_bit(next.bytes, p) == stream_bit(s.bytes, p));
        }
    }
}

/// A number below the `k`-th power of two adds at most `k` groups to a
/// stream.
pub proof fn lemma_vle16_size(s: BitState, v: u16, block: int, k: nat)
    requires
        tight(s),
        1 <= block <= 7,
        k >= 1,
        v < vstd::arithmetic::power2::pow2(k),
    ensures
        written(add_vle16(s, v, block)) <= written(s) + (block + 1) * k,
    decreases k,
{
    let g = vle_block(v, block);
    let mask = ((1u16 << (block as u16)) - 1) as u16;
    let more = if v > mask {
        1u8
    } else {
        0u8
    };
    assert forall|j: int| block + 1 <= j < 8 implies !#[trigger] bit8(g, j) by {
        lemma_group(v, block as u16, block as u8, mask, more, g, j as u8);
    }
    lemma_add_bits(s, g, block + 1);
    let next = add_bits(s, g, block + 1);
    let rest = v >> (block as u16);
    assert((block + 1) * k == (block + 1) * (k - 1) + (block + 1)) by (nonlinear_arith);
    assert((block + 1) * (k - 1) >= 0) by (nonlinear_arith)
        requires
            block >= 1,
            k >= 1,
    ;
    if rest != 0 {
        crate::writer::bitwriter::lemma_block_fits(v, block as u16, mask);
        vstd::arithmetic::power2::lemma_pow2_unfold(k);
        vstd::arithmetic::power2::lemma2_to64();
        assert(k >= 2) by {
            if k == 1 {
                assert(vstd::arithmetic::power2::pow2(1) == 2);
            }
        }
        lemma_vle16_size(next, rest, block, (k - 1) as nat);
    }
}

/// A stream that holds what a writer has written after a number holds
/// what it had written before the number.
pub proof fn lemma_holds_before_vle16(bytes: Seq<u8>, s: BitState, v: u16, block: int)
    requires
        tight(s),
        1 <= block <= 7,
        holds(bytes, add_vle16(s, v, block)),
    ensures
        holds(bytes, s),
{
    lemma_add_vle16(s, v, block);
    let t = add_vle16(s, v, block);
    assert forall|p: int| 0 <= p < written(s) implies #[trigger] stream_bit(bytes, p) == stream_bit(
        s.bytes,
        p,
    ) by {
        assert(stream_bit(bytes, p) == stream_bit(t.bytes, p));
        assert(stream_bit(t.bytes, p) == stream_bit(s.bytes, p));
    }
}

/// Reading the groups of a number from the place where they were written
/// completes the number. `rest` is what is left of the number `v` when its
/// low `shift` bits, `acc`, have been read.
proof fn lemma_read_rest(
    s: BitState,
    rest: u16,
    block: int,
    bytes: Seq<u8>,
    r: ReadState,
    acc: u16,
    shift: int,
    v: u16,
)
    requires
        tight(s),
        1 <= block <= 7,
        place_ok(r),
        consumed(r) == written(s),
        holds(bytes, add_vle16(s, rest, block)),
        0 <= shift < 16,
        (rest << (shift as u16)) >> (shift as u16) == rest,
        v == acc | (rest << (shift as u16)),
    ensures
        read_vle16(bytes, r, block, acc, shift) == v,
        place_ok(after_vle16(bytes, r, block, shift)),
        consumed(after_vle16(bytes, r, block, shift)) == written(add_vle16(s, rest, block)),
    decreases rest,
{
    let g = vle_block(rest, block);
    let mask = ((1u16 << (block as u16)) - 1) as u16;
    let more = if rest > mask {
        1u8
    } else {
        0u8
    };
    lemma_group(rest, block as u16, block as u8, mask, more, g, 0);
    assert forall|j: int| block + 1 <= j < 8 implies !#[trigger] bit8(g, j) by {
        lemma_group(rest, block as u16, block as u8, mask, more, g, j as u8);
    }
    lemma_groups_join(acc, rest, mask, block as u16, shift as u16, v);
    lemma_add_bits(s, g, block + 1);
    let next = add_bits(s, g, block + 1);
    let left = rest >> (block as u16);
    if left != 0 {
        lemma_shift_decreases(rest, block as u16);
        lemma_holds_before_vle16(bytes, next, left, block);
    }
    lemma_read_written(s, g, block + 1, bytes, r);
    if left != 0 {
        lemma_read_rest(
            next,
            left,
            block,
            bytes,
            after_bits(r, block + 1),
            acc | ((rest & mask) << (shift as u16)),
            shift + block,
            v,
        );
    }
}

/// Reading a number at the place where it was written gives the number
/// back, whatever was written behind it.
pub proof fn lemma_read_written_vle16(s: BitState, v: u16, block: int, bytes: Seq<u8>, r: ReadState)
    requires
        tight(s),
        1 <= block <= 7,
        place_ok(r),
        consumed(r) == written(s),
        holds(bytes, add_vle16(s, v, block)),
    ensures
        read_vle16(bytes, r, block, 0, 0) == v,
        place_ok(after_vle16(bytes, r, block, 0)),
        consumed(after_vle16(bytes, r, block, 0)) == written(add_vle16(s, v, block)),
{
    let mask = ((1u16 << (block as u16)) - 1) as u16;
    let more = if v > mask {
        1u8
    } else {
        0u8
    };
    lemma_group(v, block as u16, block as u8, mask, more, vle_block(v, block), 0);
    lemma_read_rest(s, v, block, bytes, r, 0, 0, v);
}

} // verus!
