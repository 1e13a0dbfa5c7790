use render_wgpu::terrain::{build_mesh_indices, hash_bits};

#[test]
fn single_quad_indices() {
    assert_eq!(build_mesh_indices(2), vec![0, 2, 1, 1, 2, 3]);
}

#[test]
fn grid_indices_cover_every_quad() {
    let idx = build_mesh_indices(3);
    assert_eq!(idx.len(), 24);
    assert_eq!(&idx[18..24], &[4, 7, 5, 5, 7, 8]);
    assert!(build_mesh_indices(1).is_empty());
    let big = build_mesh_indices(256);
    assert_eq!(big.len(), 6 * 255 * 255);
    assert_eq!(*big.iter().max().unwrap(), 65535);
}

#[test]
fn hash_bits_values() {
    assert_eq!(hash_bits(0, 0, 0), 0);
    assert_eq!(hash_bits(1, 0, 0), 0x27d4_eb2d);
    assert_eq!(hash_bits(0, 0, 1), 0x9e37_79b9_3051_c0c9);
    assert_eq!(hash_bits(-1, 0, 0), 0xffff_ffff_a7d4_eb2c);
}
