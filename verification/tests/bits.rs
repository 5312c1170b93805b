use sfbinpack::reader::bitreader::BitReader;
use sfbinpack::writer::bitwriter::BitWriter;

#[test]
fn groups_fill_bytes_from_the_top() {
    let mut writer = BitWriter::new();
    writer.add_bits_le8(0b1, 4);
    assert_eq!(writer.movetext(), [0b0001_0000]);
    writer.add_bits_le8(0b11010, 5);
    assert_eq!(writer.movetext(), [0b0001_1101, 0b0000_0000]);
    writer.add_bits_le8(0b00110, 5);
    assert_eq!(writer.movetext(), [0b0001_1101, 0b0001_1000]);
    writer.add_bits_le8(0, 0);
    writer.add_bits_le8(0b11, 2);
    assert_eq!(writer.movetext(), [0b0001_1101, 0b0001_1011]);
    writer.add_bits_le8(0xA5, 8);
    assert_eq!(writer.movetext(), [0b0001_1101, 0b0001_1011, 0xA5]);
    writer.clear();
    assert_eq!(writer.movetext(), [0u8; 0]);
}

#[test]
fn numbers_are_written_in_groups_with_a_continuation_bit() {
    let mut writer = BitWriter::new();
    // 106 = 0110 1010: the low group with its bit set, then the high one.
    writer.add_bits_vle16(106, 4);
    assert_eq!(writer.movetext(), [0b1101_0001, 0b1000_0000]);
    let mut writer = BitWriter::new();
    writer.add_bits_vle16(0, 4);
    assert_eq!(writer.movetext(), [0b0000_0000]);
    let mut writer = BitWriter::new();
    writer.add_bits_vle16(15, 4);
    assert_eq!(writer.movetext(), [0b0111_1000]);
    let mut writer = BitWriter::new();
    writer.add_bits_vle16(16, 4);
    assert_eq!(writer.movetext(), [0b1000_0000, 0b0100_0000]);
    let mut writer = BitWriter::new();
    writer.add_bits_vle16(0xFA4A, 4);
    assert_eq!(writer.movetext(), [0b1101_0101, 0b0011_0100, 0b1111_0000]);
}

#[test]
fn what_was_written_is_read() {
    let groups: Vec<(u8, usize)> = (0..200u32)
        .map(|i| {
            let count = (i * 7 % 9) as usize;
            let bits = (i.wrapping_mul(2654435761) >> 13) as u8;
            (if count == 8 { bits } else { bits & ((1 << count) - 1) }, count)
        })
        .collect();
    let mut writer = BitWriter::new();
    for (bits, count) in &groups {
        writer.add_bits_le8(*bits, *count);
    }
    let total: usize = groups.iter().map(|g| g.1).sum();
    assert_eq!(writer.movetext().len(), (total + 7) / 8);
    let mut reader = BitReader::new();
    for (bits, count) in &groups {
        assert_eq!(reader.extract_bits_le8(writer.movetext(), *count), *bits);
    }
    assert_eq!(reader.num_read_bytes(), (total + 7) / 8);
}

#[test]
fn numbers_that_were_written_are_read() {
    for block in 1..=7usize {
        let mut writer = BitWriter::new();
        let values: Vec<u16> = (0..=u16::MAX).step_by(97).chain([u16::MAX, 1, 0]).collect();
        for (i, v) in values.iter().enumerate() {
            writer.add_bits_le8((i % 3) as u8, i % 3);
            writer.add_bits_vle16(*v, block);
        }
        let mut reader = BitReader::new();
        for (i, v) in values.iter().enumerate() {
            assert_eq!(reader.extract_bits_le8(writer.movetext(), i % 3), (i % 3) as u8);
            assert_eq!(reader.extract_vle16(writer.movetext(), block), *v);
        }
        assert_eq!(reader.num_read_bytes(), writer.movetext().len());
    }
}

#[test]
fn bytes_beyond_the_end_read_as_zero() {
    let mut reader = BitReader::new();
    assert_eq!(reader.extract_bits_le8(&[0xFF], 6), 0b11_1111);
    assert_eq!(reader.extract_bits_le8(&[0xFF], 6), 0b11_0000);
    assert_eq!(reader.extract_bits_le8(&[0xFF], 8), 0);
    assert_eq!(reader.extract_vle16(&[], 4), 0);
    assert_eq!(reader.num_read_bytes(), 4);
    assert_eq!(BitReader::new().num_read_bytes(), 0);
}
