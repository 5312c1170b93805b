//! Reading samples: bits, chains of moves and scores, chunks.

pub mod bitreader;
pub mod move_score_list_reader;
pub mod decoded;
pub mod compressed_reader;
