//! The closed registry of four-character codes.
use vstd::prelude::*;

verus! {

/// Tag of a chunk, resolved from the four bytes that open its header.
#[derive(PartialEq, Eq, Structural, Debug, Clone, Copy)]
pub enum ChunkId {
    NoId,
    Meta,
    Stri,
    Symb,
    Refs,
    Rela,
    Srcs,
    Cmdl,
    Riff,
    CdIx,
}

/// The four bytes of a tag, in file order.
pub open spec fn fourcc(a: u8, b: u8, c: u8, d: u8) -> Seq<u8> {
    seq![a, b, c, d]
}

/// The bytes that stand for each recognized tag; `NoId` has none.
pub open spec fn tag_bytes(id: ChunkId) -> Seq<u8> {
    match id {
        ChunkId::NoId => Seq::empty(),
        ChunkId::Meta => fourcc(0x6d, 0x65, 0x74, 0x61),  // "meta"
        ChunkId::Stri => fourcc(0x73, 0x74, 0x72, 0x69),  // "stri"
        ChunkId::Symb => fourcc(0x73, 0x79, 0x6d, 0x62),  // "symb"
        ChunkId::Refs => fourcc(0x72, 0x65, 0x66, 0x73),  // "refs"
        ChunkId::Rela => fourcc(0x72, 0x65, 0x6c, 0x61),  // "rela"
        ChunkId::Srcs => fourcc(0x73, 0x72, 0x63, 0x73),  // "srcs"
        ChunkId::Cmdl => fourcc(0x63, 0x6d, 0x64, 0x6c),  // "cmdl"
        ChunkId::Riff => fourcc(0x52, 0x49, 0x46, 0x46),  // "RIFF"
        ChunkId::CdIx => fourcc(0x43, 0x64, 0x49, 0x78),  // "CdIx"
    }
}

/// The form signature that must follow a container's header.
pub open spec fn cdix_signature() -> Seq<u8> {
    tag_bytes(ChunkId::CdIx)
}

/// The tag that four bytes stand for, if they are one of the recognized codes.
pub open spec fn resolve_tag(t: Seq<u8>) -> Option<ChunkId> {
    if t == tag_bytes(ChunkId::Meta) {
        Some(ChunkId::Meta)
    } else if t == tag_bytes(ChunkId::Stri) {
        Some(ChunkId::Stri)
    } else if t == tag_bytes(ChunkId::Symb) {
        Some(ChunkId::Symb)
    } else if t == tag_bytes(ChunkId::Refs) {
        Some(ChunkId::Refs)
    } else if t == tag_bytes(ChunkId::Rela) {
        Some(ChunkId::Rela)
    } else if t == tag_bytes(ChunkId::Srcs) {
        Some(ChunkId::Srcs)
    } else if t == tag_bytes(ChunkId::Cmdl) {
        Some(ChunkId::Cmdl)
    } else if t == tag_bytes(ChunkId::Riff) {
        Some(ChunkId::Riff)
    } else if t == tag_bytes(ChunkId::CdIx) {
        Some(ChunkId::CdIx)
    } else {
        None
    }
}

/// A resolved tag is never `NoId`, and its bytes are the ones it was read from.
pub proof fn lemma_resolve_tag_inverse(t: Seq<u8>)
    requires
        resolve_tag(t) is Some,
    ensures
        resolve_tag(t)->Some_0 != ChunkId::NoId,
        tag_bytes(resolve_tag(t)->Some_0) == t,
{
}

impl Default for ChunkId {
    /// The sentinel of a chunk whose tag was never read.
    fn default() -> (r: ChunkId)
        ensures
            r == ChunkId::NoId,
    {
        ChunkId::NoId
    }
}

impl ChunkId {
    /// Resolves a four-character code; an unrecognized code yields `None`.
    pub fn match_id(id: &[u8; 4]) -> (r: Option<ChunkId>)
        ensures
            r == resolve_tag(id@),
    {
        let a = id[0];
        let b = id[1];
        let c = id[2];
        let d = id[3];
        assert(id@ =~= fourcc(a, b, c, d));
        match (a, b, c, d) {
            (0x6d, 0x65, 0x74, 0x61) => Some(ChunkId::Meta),  // "meta"
            (0x73, 0x74, 0x72, 0x69) => Some(ChunkId::Stri),  // "stri"
            (0x73, 0x79, 0x6d, 0x62) => Some(ChunkId::Symb),  // "symb"
            (0x72, 0x65, 0x66, 0x73) => Some(ChunkId::Refs),  // "refs"
            (0x72, 0x65, 0x6c, 0x61) => Some(ChunkId::Rela),  // "rela"
            (0x73, 0x72, 0x63, 0x73) => Some(ChunkId::Srcs),  // "srcs"
            (0x63, 0x6d, 0x64, 0x6c) => Some(ChunkId::Cmdl),  // "cmdl"
            (0x52, 0x49, 0x46, 0x46) => Some(ChunkId::Riff),  // "RIFF"
            (0x43, 0x64, 0x49, 0x78) => Some(ChunkId::CdIx),  // "CdIx"
            _ => None,
        }
    }
}

} // verus!
