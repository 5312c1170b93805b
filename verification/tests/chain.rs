use sfbinpack::chess::attacks::pseudo_legal_moves;
use sfbinpack::chess::chess_move::{Move, MoveType};
use sfbinpack::chess::coords::Square;
use sfbinpack::chess::piece::Piece;
use sfbinpack::chess::position::Position;
use sfbinpack::common::entry::PackedTrainingDataEntry;
use sfbinpack::{
    BinpackError, CompressedReaderError, CompressedTrainingDataEntryReader,
    CompressedTrainingDataEntryWriter, CompressedWriterError, TrainingDataEntry,
};

fn read_all(file: Vec<u8>) -> Vec<TrainingDataEntry> {
    let mut reader = CompressedTrainingDataEntryReader::new(file).unwrap();
    let mut entries = Vec::new();
    while reader.has_next() {
        entries.push(reader.next().unwrap());
    }
    entries
}

fn write_all(entries: &[TrainingDataEntry]) -> Vec<u8> {
    let mut writer = CompressedTrainingDataEntryWriter::new(Vec::new()).unwrap();
    for entry in entries {
        writer.write_entry(entry).unwrap();
    }
    writer.flush_and_end();
    writer.into_inner().unwrap()
}

/// A game from the starting position: at every ply the legal move with
/// the given rank among the legal moves is played.
fn game(plies: usize, pick: usize, first_ply: u16, result: i16) -> Vec<TrainingDataEntry> {
    let mut pos = Position::from_fen("rnbqkbnr/pppppppp/8/8/8/8/PPPPPPPP/RNBQKBNR w KQkq - 0 1")
        .unwrap();
    pos.set_ply(first_ply);
    let mut entries = Vec::new();
    let mut result = result;
    for ply in 0..plies {
        let side = pos.side_to_move();
        let legal: Vec<Move> = pseudo_legal_moves(&pos)
            .into_iter()
            .filter(|mv| !pos.after_move(*mv).is_checked(side))
            .collect();
        if legal.is_empty() {
            break;
        }
        let mv = legal[(ply * 7 + pick) % legal.len()];
        entries.push(TrainingDataEntry {
            pos,
            mv,
            score: ((ply as i16) * 37 - 500) * if ply % 2 == 0 { 1 } else { -1 },
            ply: first_ply + ply as u16,
            result,
        });
        pos.do_move(mv);
        result = -result;
    }
    entries
}

#[test]
fn writing_then_reading_a_game_gives_the_same_samples() {
    for pick in 0..12 {
        let entries = game(120, pick, 0, 1);
        assert!(entries.len() > 20);
        let file = write_all(&entries);
        // One chain: a stem, a count and the movetext.
        assert_eq!(&file[0..4], b"BINP");
        assert_eq!(
            u32::from_le_bytes([file[4], file[5], file[6], file[7]]) as usize,
            file.len() - 8
        );
        assert_eq!(
            ((file[40] as usize) << 8) | file[41] as usize,
            entries.len() - 1
        );
        assert_eq!(read_all(file), entries);
    }
}

#[test]
fn the_reader_tells_stems_from_continuations() {
    let entries = game(5, 3, 0, 0);
    let mut reader = CompressedTrainingDataEntryReader::new(write_all(&entries)).unwrap();
    assert!(!reader.is_next_entry_continuation());
    for _ in 0..4 {
        reader.next().unwrap();
        assert!(reader.is_next_entry_continuation());
    }
    reader.next().unwrap();
    assert!(!reader.is_next_entry_continuation());
    assert!(!reader.has_next());
}

#[test]
fn samples_that_do_not_continue_each_other_become_stems() {
    let first = game(3, 1, 10, 1);
    let second = game(3, 2, 40, -1);
    let mut entries = first.clone();
    entries.extend(second.iter().cloned());
    let file = write_all(&entries);
    // Two chains of a stem, a count of 2 and some movetext.
    assert_eq!(&file[0..4], b"BINP");
    assert_eq!(&file[40..42], &[0, 2]);
    assert_eq!(read_all(file), entries);

    // A sample on its own: a stem with a count of zero.
    let alone = write_all(&first[0..1]);
    assert_eq!(alone.len(), 8 + 32 + 2);
    assert_eq!(&alone[40..42], &[0, 0]);
    assert_eq!(read_all(alone), first[0..1].to_vec());
}

#[test]
fn chunks_written_on_their_own_decode_one_after_the_other() {
    let first = game(30, 1, 0, 1);
    let second = game(25, 4, 0, 0);
    let third = game(1, 0, 7, -1);
    let mut file = write_all(&first);
    file.extend(write_all(&second));
    file.extend(write_all(&third));
    let mut expected = first.clone();
    expected.extend(second);
    expected.extend(third);
    assert_eq!(read_all(file), expected);
}

#[test]
fn a_chunk_goes_out_when_it_has_reached_its_size() {
    // More than a mebibyte of stems: 40000 samples of 34 bytes each.
    let stem = game(1, 0, 0, 0)[0];
    let mut writer = CompressedTrainingDataEntryWriter::new(Vec::new()).unwrap();
    let count = 40000;
    for _ in 0..count {
        writer.write_entry(&stem).unwrap();
    }
    writer.flush_and_end();
    let file = writer.into_inner().unwrap();
    let first_chunk = u32::from_le_bytes([file[4], file[5], file[6], file[7]]) as usize;
    // The first chunk is written when it has reached 1 MiB: after 30841
    // chains of 34 bytes.
    assert_eq!(first_chunk, 30841 * 34);
    assert_eq!(&file[8 + first_chunk..12 + first_chunk], b"BINP");
    assert_eq!(file.len(), 16 + count * 34);
    let entries = read_all(file);
    assert_eq!(entries.len(), count);
    assert!(entries.iter().all(|e| *e == stem));
}

#[test]
fn the_stem_has_its_fields_at_their_places() {
    let entry = TrainingDataEntry {
        pos: Position::from_fen("1r3rk1/p2qnpb1/6pp/P1p1p3/3nN3/2QP2P1/R3PPBP/2B2RK1 b - - 2 20")
            .unwrap(),
        mv: Move::new(Square::new(61), Square::new(58), MoveType::Normal, Piece::none()),
        score: -127,
        ply: 39,
        result: 0,
    };
    let packed = PackedTrainingDataEntry::from_entry(&entry);
    assert_eq!(
        packed.data,
        [
            0x62, 0x79, 0xC0, 0x15, 0x18, 0x4C, 0xF1, 0x64, 0x64, 0x6A, 0x00, 0x04, 0x08, 0x30,
            0x02, 0x11, 0x11, 0x91, 0x13, 0x75, 0xF7, 0x00, 0x00, 0x00, 0x3D, 0xE8, 0x00, 0xFD,
            0x00, 0x27, 0x00, 0x02,
        ]
    );
    assert_eq!(packed.unpack_entry(), entry);
}

#[test]
fn result_and_ply_share_a_word() {
    let mut entry = game(1, 0, 0, 0)[0];
    for (result, top) in [(0i16, 0u8), (-1, 1), (1, 2)] {
        entry.result = result;
        entry.ply = 0x1234;
        entry.pos.set_ply(0x1234);
        let packed = PackedTrainingDataEntry::from_entry(&entry);
        assert_eq!(packed.data[28], (top << 6) | 0x12);
        assert_eq!(packed.data[29], 0x34);
        assert_eq!(packed.unpack_entry(), entry);
    }
}

#[test]
fn an_empty_file_has_come_to_its_end() {
    match CompressedTrainingDataEntryReader::new(Vec::new()) {
        Err(CompressedReaderError::EndOfFile) => {}
        other => panic!("unexpected: {:?}", other.map(|_| ())),
    }
    // So has a file whose first chunk is not whole.
    let whole = write_all(&game(4, 0, 0, 0));
    for cut in [3, 7, 8, 20, whole.len() - 1] {
        match CompressedTrainingDataEntryReader::new(whole[..cut].to_vec()) {
            Err(CompressedReaderError::EndOfFile) => {}
            other => panic!("unexpected at {}: {:?}", cut, other.map(|_| ())),
        }
    }
}

#[test]
fn a_header_without_the_magic_bytes_is_refused() {
    let mut file = write_all(&game(4, 0, 0, 0));
    file[0] = b'X';
    match CompressedTrainingDataEntryReader::new(file) {
        Err(CompressedReaderError::BinpackError(BinpackError::InvalidMagic)) => {}
        other => panic!("unexpected: {:?}", other.map(|_| ())),
    }
}

#[test]
fn a_chunk_of_more_than_100_mib_is_refused() {
    let mut file = Vec::from(*b"BINP");
    file.extend((100u32 * 1024 * 1024 + 1).to_le_bytes());
    match CompressedTrainingDataEntryReader::new(file) {
        Err(CompressedReaderError::BinpackError(BinpackError::InvalidFormat(_))) => {}
        other => panic!("unexpected: {:?}", other.map(|_| ())),
    }
}

#[test]
fn a_failure_behind_good_chunks_is_reported_after_their_samples() {
    let entries = game(6, 2, 0, 1);
    let mut file = write_all(&entries);
    file.extend(b"JUNKJUNK");
    let mut reader = CompressedTrainingDataEntryReader::new(file).unwrap();
    for entry in &entries {
        assert!(reader.has_next());
        assert_eq!(reader.next().unwrap(), *entry);
    }
    assert!(reader.has_next());
    match reader.next() {
        Err(CompressedReaderError::BinpackError(BinpackError::InvalidMagic)) => {}
        other => panic!("unexpected: {:?}", other),
    }
    assert!(!reader.has_next());

    // A last chunk that is cut short fails to be read.
    let mut file = write_all(&entries);
    let second = write_all(&entries);
    file.extend(&second[..second.len() - 1]);
    let mut reader = CompressedTrainingDataEntryReader::new(file).unwrap();
    for entry in &entries {
        assert_eq!(reader.next().unwrap(), *entry);
    }
    match reader.next() {
        Err(CompressedReaderError::BinpackError(BinpackError::Io)) => {}
        other => panic!("unexpected: {:?}", other),
    }
}

#[test]
fn a_chain_that_names_no_piece_ends_the_reading() {
    // The stem of the starting position with one continuation, whose bits
    // name the 32nd piece of a side that has 16.
    let stem = game(1, 0, 0, 0)[0];
    let mut payload = PackedTrainingDataEntry::from_entry(&stem).data.to_vec();
    payload.extend([0, 1, 0xFF, 0xFF]);
    let mut file = Vec::from(*b"BINP");
    file.extend((payload.len() as u32).to_le_bytes());
    file.extend(payload);
    let mut reader = CompressedTrainingDataEntryReader::new(file).unwrap();
    assert_eq!(reader.next().unwrap(), stem);
    assert!(reader.has_next());
    match reader.next() {
        Err(CompressedReaderError::InvalidFormat(_)) => {}
        other => panic!("unexpected: {:?}", other),
    }
    assert!(!reader.has_next());
}

#[test]
fn a_sample_that_cannot_be_packed_is_refused() {
    let mut writer = CompressedTrainingDataEntryWriter::new(Vec::new()).unwrap();
    let mut entry = game(1, 0, 0, 0)[0];
    entry.score = i16::MIN;
    match writer.write_entry(&entry) {
        Err(CompressedWriterError::InvalidFormat(_)) => {}
        other => panic!("unexpected: {:?}", other),
    }
    // Nothing was written.
    writer.flush_and_end();
    assert_eq!(writer.into_inner().unwrap(), Vec::<u8>::new());
}

#[test]
fn read_bytes_counts_headers_and_payloads() {
    let file = write_all(&game(4, 0, 0, 0));
    let size = file.len() as u64;
    let mut reader = CompressedTrainingDataEntryReader::new(file).unwrap();
    assert_eq!(reader.read_bytes(), size);
    while reader.has_next() {
        reader.next().unwrap();
    }
    assert_eq!(reader.read_bytes(), size);
    assert_eq!(reader.into_inner().unwrap().len() as u64, size);
}

#[test]
fn errors_have_their_messages() {
    assert_eq!(BinpackError::InvalidMagic.to_string(), "Invalid magic bytes");
    assert_eq!(
        BinpackError::InvalidFormat("too long".to_string()).to_string(),
        "Invalid format: too long"
    );
    assert_eq!(CompressedReaderError::EndOfFile.to_string(), "End of file reached");
    assert_eq!(
        CompressedReaderError::BinpackError(BinpackError::InvalidMagic).to_string(),
        "Binpack error: Invalid magic bytes"
    );
    assert_eq!(
        CompressedWriterError::InvalidFormat("x".to_string()).to_string(),
        "Invalid data format: x"
    );
}
