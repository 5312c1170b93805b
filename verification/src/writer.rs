//! Writing samples: bits, chains of moves and scores, chunks.

pub mod bitwriter;
pub mod move_score_list;
pub mod compressed_writer;
