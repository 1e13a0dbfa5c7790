//! Bookkeeping of uploaded voxel chunk meshes: keys, content hashes, and
//! the per-chunk mesh and hash tables.
//!
//! The tables map a chunk key to the caller's GPU mesh (any type `M`) and to
//! a lightweight content hash of the uploaded mesh.
use vstd::prelude::*;
use std::collections::BTreeMap;

verus! {

broadcast use {vstd::std_specs::btree::group_btree_axioms, vstd::laws_cmp::group_laws_cmp};

/// Identifier of a destructible object.
#[derive(Copy, Clone, Debug, PartialEq, Eq, Hash, PartialOrd, Ord, Structural)]
pub struct DestructibleId(pub usize);

/// Key of one chunk: the destructible's id and the chunk coordinates.
pub type ChunkKey = (usize, u32, u32, u32);

/// The key of chunk `c` of destructible `did`.
pub open spec fn chunk_key_spec(did: DestructibleId, c: (u32, u32, u32)) -> ChunkKey {
    (did.0, c.0, c.1, c.2)
}

/// The key of chunk `c` of destructible `did`.
pub fn chunk_key(did: DestructibleId, c: (u32, u32, u32)) -> (k: ChunkKey)
    ensures
        k == chunk_key_spec(did, c),
{
    (did.0, c.0, c.1, c.2)
}

/// Lightweight content hash of a mesh: its position count, xor its index
/// count shifted into the upper half (bits shifted past 64 are dropped).
pub open spec fn content_hash_spec(n_positions: u64, n_indices: u64) -> u64 {
    n_positions ^ (n_indices << 32u64)
}

/// Lightweight content hash of a mesh with `n_positions` positions and
/// `n_indices` indices.
pub fn chunk_content_hash(n_positions: usize, n_indices: usize) -> (h: u64)
    ensures
        h == content_hash_spec(n_positions as u64, n_indices as u64),
{
    (n_positions as u64) ^ ((n_indices as u64) << 32u64)
}

/// Forget the mesh and hash of one chunk.
pub fn remove_chunk_mesh<M>(
    did: DestructibleId,
    chunk: (u32, u32, u32),
    out_meshes: &mut BTreeMap<ChunkKey, M>,
    out_hashes: &mut BTreeMap<ChunkKey, u64>,
)
    ensures
        final(out_meshes)@ == old(out_meshes)@.remove(chunk_key_spec(did, chunk)),
        final(out_hashes)@ == old(out_hashes)@.remove(chunk_key_spec(did, chunk)),
{
    let key = chunk_key(did, chunk);
    let _ = out_meshes.remove(&key);
    let _ = out_hashes.remove(&key);
}

/// Record an uploaded chunk mesh: a mesh without indices removes the chunk;
/// otherwise the chunk maps to `mesh` and to the content hash of its
/// position and index counts.
pub fn record_chunk_mesh<M>(
    did: DestructibleId,
    chunk: (u32, u32, u32),
    mesh: Option<M>,
    n_positions: usize,
    n_indices: usize,
    out_meshes: &mut BTreeMap<ChunkKey, M>,
    out_hashes: &mut BTreeMap<ChunkKey, u64>,
)
    requires
        n_indices == 0 <==> mesh is None,
    ensures
        ({
            let k = chunk_key_spec(did, chunk);
            match mesh {
                None => {
                    &&& final(out_meshes)@ == old(out_meshes)@.remove(k)
                    &&& final(out_hashes)@ == old(out_hashes)@.remove(k)
                },
                Some(m) => {
                    &&& final(out_meshes)@ == old(out_meshes)@.insert(k, m)
                    &&& final(out_hashes)@ == old(out_hashes)@.insert(
                        k,
                        content_hash_spec(n_positions as u64, n_indices as u64),
                    )
                },
            }
        }),
{
    match mesh {
        None => remove_chunk_mesh(did, chunk, out_meshes, out_hashes),
        Some(m) => {
            let key = chunk_key(did, chunk);
            let h = chunk_content_hash(n_positions, n_indices);
            let _ = out_meshes.insert(key, m);
            let _ = out_hashes.insert(key, h);
        },
    }
}

} // verus!
