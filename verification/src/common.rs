//! The packed forms of moves, positions and samples, and the framing of
//! chunks.

pub mod arithmetic;
pub mod binpack_error;
pub mod bit_roundtrip;
pub mod chain_roundtrip;
pub mod compressed_move;
pub mod compressed_position;
pub mod compressed_training_file_reader;
pub mod compressed_training_file_writer;
pub mod entry;
pub mod game_invariant;
pub mod generated_moves;
pub mod move_slots;
pub mod position_roundtrip;
pub mod slot_roundtrip;
pub mod stream_roundtrip;
