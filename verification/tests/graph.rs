use render_wgpu::graph::{graph_for, FrameGraph, PassSpec, Res};

#[test]
fn graph_invariants_hold() {
    let g = graph_for(true, true, true, false);
    g.validate();
}

#[test]
fn every_toggle_combination_is_valid() {
    for bits in 0u8..16 {
        let g = graph_for(bits & 1 != 0, bits & 2 != 0, bits & 4 != 0, bits & 8 != 0);
        assert!(g.first_violation().is_none());
        g.validate();
    }
}

#[test]
fn first_violation_names_offending_pass_and_resource() {
    let g = FrameGraph::new()
        .add(PassSpec {
            label: "ok",
            reads: &[Res::Depth],
            writes: &[Res::SceneColor],
        })
        .add(PassSpec {
            label: "bad",
            reads: &[Res::SceneRead, Res::SceneColor],
            writes: &[Res::SceneColor],
        })
        .add(PassSpec {
            label: "also_bad",
            reads: &[Res::Depth],
            writes: &[Res::Depth],
        });
    assert_eq!(g.first_violation(), Some(("bad", Res::SceneColor)));
}

#[test]
fn empty_graph_is_valid() {
    let g: FrameGraph = Default::default();
    assert!(g.first_violation().is_none());
    assert!(FrameGraph::new().first_violation().is_none());
}

#[test]
fn writing_depth_is_a_violation() {
    let g = FrameGraph::new()
        .add(PassSpec {
            label: "ok",
            reads: &[Res::Depth],
            writes: &[Res::SceneColor],
        })
        .add(PassSpec {
            label: "z",
            reads: &[],
            writes: &[Res::SceneRead, Res::Depth],
        });
    assert_eq!(g.first_violation(), Some(("z", Res::Depth)));
}

#[test]
fn first_bad_write_of_a_pass_is_reported() {
    let g = FrameGraph::new().add(PassSpec {
        label: "mixed",
        reads: &[Res::SceneRead],
        writes: &[Res::SceneColor, Res::SceneRead, Res::Depth],
    });
    assert_eq!(g.first_violation(), Some(("mixed", Res::SceneRead)));
}
