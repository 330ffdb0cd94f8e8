//! Framing of chunk headers and decoding of the root container.
use vstd::prelude::*;

use crate::chunk::{Chunk, ChunkData, ChunkError, ChunkRiff, ChunkStream, LeafModel};
use crate::fourcc::{cdix_signature, resolve_tag, tag_bytes, ChunkId};

verus! {

/// The value of four bytes read as an unsigned little-endian integer.
pub open spec fn le_u32(b: Seq<u8>) -> nat {
    b[0] as nat + 0x100 * (b[1] as nat) + 0x1_0000 * (b[2] as nat) + 0x100_0000 * (b[3] as nat)
}

/// A header read from the start of `b`: its tag and its declared length.
pub open spec fn frame_spec(b: Seq<u8>) -> Result<(ChunkId, nat), ChunkError> {
    if b.len() < 4 {
        Err(ChunkError::CorruptId)
    } else if b.len() < 8 {
        Err(ChunkError::BadHeader)
    } else {
        match resolve_tag(b.subrange(0, 4)) {
            None => Err(ChunkError::UnknownTag),
            Some(id) => Ok((id, le_u32(b.subrange(4, 8)))),
        }
    }
}

/// A declared length rounded up to the next even number.
pub open spec fn padded(len: nat) -> nat {
    if len % 2 == 1 { len + 1 } else { len }
}

/// The leaves of a container payload `p`, read from offset `cursor` to its end.
/// Each child takes its header, its declared length, and a pad byte after an
/// odd length; a header or payload that does not fit is an error.
pub open spec fn children_from(p: Seq<u8>, cursor: nat) -> Result<Seq<LeafModel>, ChunkError>
    decreases (if cursor < p.len() { p.len() - cursor } else { 0 }),
{
    if cursor >= p.len() {
        Ok(Seq::empty())
    } else {
        match frame_spec(p.subrange(cursor as int, p.len() as int)) {
            Err(e) => Err(e),
            Ok((id, len)) => {
                if cursor + 8 + len > p.len() {
                    Err(ChunkError::TruncatedPayload)
                } else {
                    match children_from(p, cursor + 8 + padded(len)) {
                        Err(e) => Err(e),
                        Ok(rest) => Ok(
                            seq![(id, p.subrange(cursor + 8 as int, cursor + 8 + len as int))] + rest,
                        ),
                    }
                }
            },
        }
    }
}

/// The leaves of a container payload: the `CdIx` signature, then children.
pub open spec fn container_spec(p: Seq<u8>) -> Result<Seq<LeafModel>, ChunkError> {
    if p.len() < 4 || p.subrange(0, 4) != cdix_signature() {
        Err(ChunkError::IncompatibleFile)
    } else {
        children_from(p, 4)
    }
}

/// The leaves of the root container that a whole buffer holds.
pub open spec fn decode_spec(b: Seq<u8>) -> Result<Seq<LeafModel>, ChunkError> {
    match frame_spec(b) {
        Err(e) => Err(e),
        Ok((id, _)) => {
            if id == ChunkId::Riff {
                container_spec(b.subrange(8, b.len() as int))
            } else {
                Err(ChunkError::NotRiffFile)
            }
        },
    }
}

/// `kids` put before the leaves of `r`, or the error of `r`.
pub open spec fn prefixed(kids: Seq<LeafModel>, r: Result<Seq<LeafModel>, ChunkError>) -> Result<
    Seq<LeafModel>,
    ChunkError,
> {
    match r {
        Ok(rest) => Ok(kids + rest),
        Err(e) => Err(e),
    }
}

/// The decoded container payload `r` agrees with the model `m`.
pub open spec fn data_agrees(r: Result<ChunkData, ChunkError>, m: Result<Seq<LeafModel>, ChunkError>) -> bool {
    match m {
        Ok(kids) => r matches Ok(d) && d.is_container_of(kids),
        Err(e) => r == Err::<ChunkData, ChunkError>(e),
    }
}

/// The container tag's bytes resolve to the container tag.
proof fn lemma_resolve_riff(t: Seq<u8>)
    requires
        t == tag_bytes(ChunkId::Riff),
    ensures
        resolve_tag(t) == Some(ChunkId::Riff),
{
    assert(t[0] == 0x52 && t[1] == 0x49);
}

/// Shifting and or-ing four bytes gives their little-endian value.
pub(crate) proof fn lemma_le_u32_bits(b0: u8, b1: u8, b2: u8, b3: u8)
    ensures
        ((b3 as u32) << 24u32 | (b2 as u32) << 16u32 | (b1 as u32) << 8u32 | b0 as u32) as nat
            == b0 as nat + 0x100 * (b1 as nat) + 0x1_0000 * (b2 as nat) + 0x100_0000 * (b3 as nat),
{
    assert(((b3 as u32) << 24u32 | (b2 as u32) << 16u32 | (b1 as u32) << 8u32 | b0 as u32)
        == (b0 as u32) + 0x100u32 * (b1 as u32) + 0x1_0000u32 * (b2 as u32) + 0x100_0000u32 * (b3 as u32))
        by (bit_vector);
}

/// A decoded buffer: its root chunk.
#[derive(Debug)]
pub struct Riff {
    pub chunk: Option<Chunk>,
}

impl Riff {
    /// Reads four bytes as an unsigned little-endian length.
    pub fn get_usize(d: [u8; 4]) -> (r: usize)
        ensures
            r as nat == le_u32(d@),
    {
        let us: u32 = (d[3] as u32) << 24u32 | (d[2] as u32) << 16u32 | (d[1] as u32) << 8u32 | d[0] as u32;
        proof {
            lemma_le_u32_bits(d[0], d[1], d[2], d[3]);
        }
        us as usize
    }

    /// Reads the header at the start of `data`: the tag, the declared length,
    /// and every byte after the header (not cut to the declared length).
    pub fn extract_data<'a>(data: &'a [u8]) -> (r: Result<(ChunkId, usize, &'a [u8]), ChunkError>)
        ensures
            data@.len() < 4 ==> r == Err::<(ChunkId, usize, &[u8]), ChunkError>(ChunkError::CorruptId),
            4 <= data@.len() < 8 ==> r == Err::<(ChunkId, usize, &[u8]), ChunkError>(ChunkError::BadHeader),
            8 <= data@.len() && resolve_tag(data@.subrange(0, 4)) is None
                ==> r == Err::<(ChunkId, usize, &[u8]), ChunkError>(ChunkError::UnknownTag),
            match r {
                Ok((id, len, rest)) => {
                    &&& frame_spec(data@) == Ok::<(ChunkId, nat), ChunkError>((id, len as nat))
                    &&& rest@ == data@.subrange(8, data@.len() as int)
                },
                Err(e) => frame_spec(data@) == Err::<(ChunkId, nat), ChunkError>(e),
            },
    {
        if data.len() < 4 {
            return Err(ChunkError::CorruptId);
        }
        if data.len() < 8 {
            return Err(ChunkError::BadHeader);
        }
        let tag: [u8; 4] = [data[0], data[1], data[2], data[3]];
        assert(tag@ =~= data@.subrange(0, 4));
        let id = match ChunkId::match_id(&tag) {
            Some(id) => id,
            None => return Err(ChunkError::UnknownTag),
        };
        let field: [u8; 4] = [data[4], data[5], data[6], data[7]];
        assert(field@ =~= data@.subrange(4, 8));
        let len = Riff::get_usize(field);
        Ok((id, len, &data[8..data.len()]))
    }

    /// Decodes a container payload: the `CdIx` signature, then leaf children
    /// until the payload ends.
    pub fn parse_riff(data: &[u8]) -> (r: Result<ChunkData, ChunkError>)
        ensures
            data_agrees(r, container_spec(data@)),
    {
        if data.len() < 4 || !(data[0] == 0x43 && data[1] == 0x64 && data[2] == 0x49 && data[3] == 0x78) {
            proof {
                if data@.len() >= 4 {
                    assert(data@.subrange(0, 4)[0] == data@[0]);
                    assert(data@.subrange(0, 4)[1] == data@[1]);
                    assert(data@.subrange(0, 4)[2] == data@[2]);
                    assert(data@.subrange(0, 4)[3] == data@[3]);
                }
            }
            return Err(ChunkError::IncompatibleFile);
        }
        let file_type: [u8; 4] = [data[0], data[1], data[2], data[3]];
        assert(file_type@ =~= cdix_signature());
        assert(data@.subrange(0, 4) =~= cdix_signature());
        let mut children: Vec<Chunk> = Vec::new();
        let mut cursor: usize = 4;
        let ghost mut kids: Seq<LeafModel> = Seq::empty();
        assert(kids + children_from(data@, 4)->Ok_0 =~= children_from(data@, 4)->Ok_0);
        while cursor < data.len()
            invariant
                4 <= cursor <= data@.len(),
                container_spec(data@) == prefixed(kids, children_from(data@, cursor as nat)),
                children@.len() == kids.len(),
                forall|i: int| 0 <= i < kids.len() ==> (#[trigger] children@[i]).is_leaf(kids[i]),
            decreases data@.len() - cursor,
        {
            let rest = &data[cursor..data.len()];
            let (id, len, payload) = match Riff::extract_data(rest) {
                Ok(h) => h,
                Err(e) => return Err(e),
            };
            let d = match Riff::parse_generic(payload, len) {
                Ok(d) => d,
                Err(e) => return Err(e),
            };
            let ghost leaf: LeafModel = (id, data@.subrange(cursor + 8 as int, cursor + 8 + len as int));
            assert(payload@.subrange(0, len as int) =~= leaf.1);
            let ghost spec_next: nat = (cursor + 8 + padded(len as nat)) as nat;
            let mut next: usize = cursor + 8 + len;
            if len % 2 == 1 && next < data.len() {
                next = next + 1;
            }
            proof {
                let after = children_from(data@, spec_next);
                if next as nat != spec_next {
                    assert(children_from(data@, next as nat) == Ok::<Seq<LeafModel>, ChunkError>(Seq::empty()));
                }
                assert(children_from(data@, next as nat) == after);
                if after is Ok {
                    assert(kids + (seq![leaf] + after->Ok_0) =~= kids.push(leaf) + after->Ok_0);
                }
            }
            children.push(Chunk { id, data: d });
            proof {
                kids = kids.push(leaf);
            }
            cursor = next;
        }
        assert(kids + Seq::<LeafModel>::empty() =~= kids);
        Ok(ChunkData::RiffData(ChunkRiff { file_type, data: children }))
    }

    /// Decodes the root chunk of `data`, which must be a container.
    pub fn parse_chunk(data: &[u8]) -> (r: Result<Chunk, ChunkError>)
        ensures
            match decode_spec(data@) {
                Ok(kids) => r matches Ok(c) && c.id == ChunkId::Riff && c.data.is_container_of(kids),
                Err(e) => r matches Err(f) && f == e,
            },
    {
        let (id, _, cdata) = match Riff::extract_data(data) {
            Ok(h) => h,
            Err(e) => return Err(e),
        };
        let dr = match id {
            ChunkId::Riff => Riff::parse_riff(cdata),
            _ => return Err(ChunkError::NotRiffFile),
        };
        match dr {
            Ok(d) => Ok(Chunk { id, data: d }),
            Err(e) => Err(e),
        }
    }

    /// Decodes a whole buffer into a tree with one root container.
    pub fn parse(data: &[u8]) -> (r: Result<Riff, ChunkError>)
        ensures
            match decode_spec(data@) {
                Ok(kids) => r matches Ok(t) && t.chunk matches Some(c) && c.id == ChunkId::Riff
                    && c.data.is_container_of(kids),
                Err(e) => r matches Err(f) && f == e,
            },
            data@.len() >= 12 && data@.subrange(0, 4) == tag_bytes(ChunkId::Riff)
                && data@.subrange(8, 12) != cdix_signature()
                ==> r matches Err(ChunkError::IncompatibleFile),
    {
        proof {
            let b = data@;
            if b.len() >= 12 && b.subrange(0, 4) == tag_bytes(ChunkId::Riff) {
                lemma_resolve_riff(b.subrange(0, 4));
                assert(b.subrange(8, b.len() as int).subrange(0, 4) =~= b.subrange(8, 12));
            }
        }
        let c = match Riff::parse_chunk(data) {
            Ok(c) => c,
            Err(e) => return Err(e),
        };
        Ok(Riff { chunk: Some(c) })
    }

    /// Captures the first `len` bytes of `data` as a leaf payload.
    pub fn parse_generic(data: &[u8], len: usize) -> (r: Result<ChunkData, ChunkError>)
        ensures
            len <= data@.len() ==> (r matches Ok(d) && d.leaf_bytes() == Some(data@.subrange(0, len as int))),
            len > data@.len() ==> r == Err::<ChunkData, ChunkError>(ChunkError::TruncatedPayload),
    {
        if len > data.len() {
            return Err(ChunkError::TruncatedPayload);
        }
        let bytes = vstd::slice::slice_to_vec(&data[0..len]);
        Ok(ChunkData::StreamData(ChunkStream { data: bytes }))
    }
}

} // verus!
