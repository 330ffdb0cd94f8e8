//! Decoding of RIFF containers that carry the `CdIx` form: four-character
//! tags, little-endian length fields, even-byte padding, and a container
//! whose children are captured as raw payloads.
use vstd::prelude::*;

pub mod chunk;
pub mod decoder;
pub mod fourcc;
pub mod laws;

pub use chunk::{CDFromError, Chunk, ChunkData, ChunkError, ChunkMeta, ChunkRiff, ChunkStream};
pub use decoder::Riff;
pub use fourcc::ChunkId;

verus! {

} // verus!
