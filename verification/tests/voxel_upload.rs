use render_wgpu::voxel_upload::{
    chunk_content_hash, chunk_key, record_chunk_mesh, remove_chunk_mesh, DestructibleId,
};
use std::collections::BTreeMap;

#[test]
fn chunk_key_combines_id_and_coords() {
    assert_eq!(chunk_key(DestructibleId(9), (4, 5, 6)), (9, 4, 5, 6));
}

#[test]
fn content_hash_packs_counts() {
    assert_eq!(chunk_content_hash(3, 3), 0x0000_0003_0000_0003);
    assert_eq!(chunk_content_hash(0, 0), 0);
    assert_eq!(chunk_content_hash(0xffff_ffff_0000_0001, 1), 0xffff_fffe_0000_0001);
}

#[test]
fn record_and_remove_chunk_meshes() {
    let mut meshes: BTreeMap<(usize, u32, u32, u32), &str> = BTreeMap::new();
    let mut hashes: BTreeMap<(usize, u32, u32, u32), u64> = BTreeMap::new();
    record_chunk_mesh(DestructibleId(1), (0, 0, 0), Some("a"), 4, 6, &mut meshes, &mut hashes);
    record_chunk_mesh(DestructibleId(1), (1, 0, 0), Some("b"), 8, 12, &mut meshes, &mut hashes);
    assert_eq!(meshes.len(), 2);
    assert_eq!(hashes[&(1, 0, 0, 0)], chunk_content_hash(4, 6));
    // An empty mesh removes the chunk.
    record_chunk_mesh(DestructibleId(1), (0, 0, 0), None, 4, 0, &mut meshes, &mut hashes);
    assert_eq!(meshes.len(), 1);
    assert!(!hashes.contains_key(&(1, 0, 0, 0)));
    remove_chunk_mesh(DestructibleId(1), (1, 0, 0), &mut meshes, &mut hashes);
    assert!(meshes.is_empty() && hashes.is_empty());
    // Removing an absent chunk is harmless.
    remove_chunk_mesh(DestructibleId(2), (0, 0, 0), &mut meshes, &mut hashes);
    assert!(meshes.is_empty());
}
