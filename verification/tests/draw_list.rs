use render_wgpu::draw_list::{DrawItem, DrawKey, DrawList};

#[test]
fn merges_contiguous_same_key() {
    let k = DrawKey {
        pipeline_id: 1,
        material_id: 2,
        mesh_id: 3,
    };
    let mut dl = DrawList::new();
    dl.add(DrawItem {
        key: k,
        index_count: 10,
        instance_count: 1,
    });
    dl.add(DrawItem {
        key: k,
        index_count: 6,
        instance_count: 2,
    });
    let b = dl.to_batches();
    assert_eq!(b.len(), 1);
    assert_eq!(b[0].index_count, 16);
    assert_eq!(b[0].instance_count, 3);
}

#[test]
fn does_not_merge_across_different_keys() {
    let k0 = DrawKey {
        pipeline_id: 1,
        material_id: 2,
        mesh_id: 3,
    };
    let k1 = DrawKey {
        pipeline_id: 1,
        material_id: 2,
        mesh_id: 4,
    };
    let mut dl = DrawList::new();
    dl.add(DrawItem {
        key: k0,
        index_count: 4,
        instance_count: 1,
    });
    dl.add(DrawItem {
        key: k1,
        index_count: 8,
        instance_count: 1,
    });
    dl.add(DrawItem {
        key: k0,
        index_count: 2,
        instance_count: 1,
    });
    let b = dl.to_batches();
    assert_eq!(b.len(), 3);
    assert_eq!(b[0].key.mesh_id, 3);
    assert_eq!(b[1].key.mesh_id, 4);
    assert_eq!(b[2].key.mesh_id, 3);
}

#[test]
fn stable_ordering() {
    let keys = [
        DrawKey {
            pipeline_id: 1,
            material_id: 2,
            mesh_id: 1,
        },
        DrawKey {
            pipeline_id: 1,
            material_id: 2,
            mesh_id: 1,
        },
        DrawKey {
            pipeline_id: 2,
            material_id: 2,
            mesh_id: 3,
        },
    ];
    let mut dl = DrawList::new();
    for k in keys {
        dl.add(DrawItem {
            key: k,
            index_count: 5,
            instance_count: 1,
        });
    }
    let b = dl.to_batches();
    assert_eq!(b.len(), 2);
    assert_eq!(b[0].key.pipeline_id, 1);
    assert_eq!(b[1].key.pipeline_id, 2);
}

#[test]
fn empty_list_has_no_batches() {
    let dl = DrawList::new();
    assert!(dl.is_empty());
    assert_eq!(dl.len(), 0);
    assert!(dl.to_batches().is_empty());
    let d: DrawList = Default::default();
    assert!(d.is_empty());
}

#[test]
fn batch_totals_match_item_totals() {
    let ka = DrawKey { pipeline_id: 7, material_id: 0, mesh_id: 0 };
    let kb = DrawKey { pipeline_id: 8, material_id: 0, mesh_id: 0 };
    let mut dl = DrawList::new();
    let counts = [(ka, 3u32, 1u32), (ka, 4, 2), (kb, 5, 1), (kb, 1, 1), (ka, 9, 4)];
    for (k, i, n) in counts {
        dl.add(DrawItem { key: k, index_count: i, instance_count: n });
    }
    assert_eq!(dl.len(), 5);
    let b = dl.to_batches();
    assert_eq!(b.len(), 3);
    let idx: u32 = b.iter().map(|x| x.index_count).sum();
    let inst: u32 = b.iter().map(|x| x.instance_count).sum();
    assert_eq!(idx, 22);
    assert_eq!(inst, 9);
    for w in b.windows(2) {
        assert_ne!(w[0].key, w[1].key);
    }
    assert_eq!((b[0].index_count, b[0].instance_count), (7, 3));
    assert_eq!((b[1].index_count, b[1].instance_count), (6, 2));
    assert_eq!((b[2].index_count, b[2].instance_count), (9, 4));
}
