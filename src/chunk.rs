//! The decoded tree: chunks, their payload shapes, and the error taxonomy.
use vstd::prelude::*;

use crate::fourcc::{cdix_signature, ChunkId};

verus! {

/// Structural failures of a decode.
#[derive(PartialEq, Eq, Structural, Debug, Clone, Copy)]
pub enum ChunkError {
    /// The length field of a header is cut short.
    BadHeader,
    /// The tag of a header is cut short.
    CorruptId,
    /// The root chunk is not a container.
    NotRiffFile,
    /// The container's form signature is not `CdIx`.
    IncompatibleFile,
    /// A header's tag is not one of the recognized codes.
    UnknownTag,
    /// A payload is shorter than its declared length.
    TruncatedPayload,
}

/// One decoded record.
#[derive(Debug)]
pub struct Chunk {
    pub id: ChunkId,
    pub data: ChunkData,
}

/// A container: its form signature and its children in file order.
#[derive(Debug)]
pub struct ChunkRiff {
    pub file_type: [u8; 4],
    pub data: Vec<Chunk>,
}

/// A leaf: exactly the declared payload bytes, padding excluded.
#[derive(Debug, Clone)]
pub struct ChunkStream {
    pub data: Vec<u8>,
}

/// The payload of a chunk.
#[derive(Debug)]
pub enum ChunkData {
    NoData,
    RiffData(ChunkRiff),
    StreamData(ChunkStream),
}

/// Failure to view a chunk's payload in a given shape.
#[derive(PartialEq, Eq, Structural, Debug, Clone, Copy)]
pub enum CDFromError {
    NoDataError,
}

/// Payload of a `meta` chunk: the version of the producing tool.
#[derive(Debug, Clone)]
pub struct ChunkMeta {
    pub version: [u8; 4],
}

/// What a leaf child is made of: its tag and its payload bytes.
pub type LeafModel = (ChunkId, Seq<u8>);

impl Default for ChunkData {
    /// A payload that was never decoded.
    fn default() -> (r: ChunkData)
        ensures
            r is NoData,
    {
        ChunkData::NoData
    }
}

impl Default for Chunk {
    /// A chunk with no tag and no payload.
    fn default() -> (r: Chunk)
        ensures
            r.id == ChunkId::NoId,
            r.data is NoData,
    {
        Chunk { id: ChunkId::NoId, data: ChunkData::NoData }
    }
}

impl Default for ChunkRiff {
    /// A container with a zeroed signature and no children.
    fn default() -> (r: ChunkRiff)
        ensures
            r.file_type@ == seq![0u8, 0u8, 0u8, 0u8],
            r.data@.len() == 0,
    {
        let file_type: [u8; 4] = [0, 0, 0, 0];
        assert(file_type@ =~= seq![0u8, 0u8, 0u8, 0u8]);
        ChunkRiff { file_type, data: Vec::new() }
    }
}

impl ChunkData {
    /// The raw bytes of a leaf payload; `None` for any other shape.
    pub open spec fn leaf_bytes(self) -> Option<Seq<u8>> {
        match self {
            ChunkData::StreamData(s) => Some(s.data@),
            _ => None,
        }
    }
}

impl Chunk {
    /// This chunk is the leaf `m`.
    pub open spec fn is_leaf(self, m: LeafModel) -> bool {
        self.id == m.0 && self.data.leaf_bytes() == Some(m.1)
    }
}

impl ChunkRiff {
    /// The children of this container are the leaves `kids`, in order.
    pub open spec fn holds_leaves(self, kids: Seq<LeafModel>) -> bool {
        &&& self.data@.len() == kids.len()
        &&& forall|i: int| 0 <= i < kids.len() ==> (#[trigger] self.data@[i]).is_leaf(kids[i])
    }

    /// A valid container with the leaves `kids`.
    pub open spec fn is_container_of(self, kids: Seq<LeafModel>) -> bool {
        self.file_type@ == cdix_signature() && self.holds_leaves(kids)
    }
}

impl ChunkData {
    /// A container payload with the leaves `kids`.
    pub open spec fn is_container_of(self, kids: Seq<LeafModel>) -> bool {
        match self {
            ChunkData::RiffData(r) => r.is_container_of(kids),
            _ => false,
        }
    }
}

} // verus!
