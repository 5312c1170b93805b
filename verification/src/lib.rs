//! Codec and streaming container for chess training samples: a chess core
//! (board, move generation, make-move, FEN), a bit-packer for positions and
//! moves, and a chain encoder/decoder that stores games as a full stem
//! followed by compact continuations.

pub mod batch;
pub mod chess;
pub mod common;
pub mod reader;
pub mod skip;
pub mod writer;

pub use common::binpack_error::BinpackError;
pub use common::entry::TrainingDataEntry;
pub use reader::compressed_reader::CompressedReaderError;
pub use reader::compressed_reader::CompressedTrainingDataEntryReader;
pub use writer::compressed_writer::CompressedTrainingDataEntryWriter;
pub use writer::compressed_writer::CompressedWriterError;
