use render_wgpu::framegraph::{Graph, GraphBuilder, GraphError, ImageKind, Size2D};
use render_wgpu::graph_alloc::{plan_aliasing, ImageUsage, Live};

fn color16() -> ImageKind {
    ImageKind::Color {
        format: 1,
        size: Size2D { x: 16, y: 16 },
        msaa: 1,
    }
}

#[test]
fn preserves_pass_declaration_order() {
    let mut b: GraphBuilder<()> = GraphBuilder::new();
    b.pass("A", ());
    b.pass("B", ());
    let g = Graph::compile(b);
    assert_eq!(g.names, vec!["A", "B"]);
}

#[test]
fn try_compile_reports_read_write_hazard_in_pass() {
    let mut b: GraphBuilder<()> = GraphBuilder::new();
    let img = b.image(color16());
    b.pass("bad", ()).reads(img).writes(img);
    match Graph::try_compile(b) {
        Err(e) => assert_eq!(e, GraphError::ReadWriteSameImage { pass: "bad" }),
        Ok(_) => panic!("hazard not detected"),
    }
}

#[test]
fn try_compile_reports_write_after_read() {
    let mut b: GraphBuilder<()> = GraphBuilder::new();
    let img = b.image(color16());
    b.pass("writer", ()).writes(img);
    b.pass("reader", ()).reads(img);
    b.pass("writer2", ()).writes(img);
    match Graph::try_compile(b) {
        Err(e) => assert_eq!(e, GraphError::WriteAfterRead { pass: "writer2" }),
        Ok(_) => panic!("hazard not detected"),
    }
}

#[test]
fn same_pass_hazard_reported_before_cross_pass_hazard() {
    let mut b: GraphBuilder<()> = GraphBuilder::new();
    let a = b.image(color16());
    let c = b.image(color16());
    b.pass("w", ()).writes(a);
    b.pass("r", ()).reads(a);
    b.pass("war", ()).writes(a);
    b.pass("self", ()).reads(c).writes(c);
    match Graph::try_compile(b) {
        Err(e) => assert_eq!(e, GraphError::ReadWriteSameImage { pass: "self" }),
        Ok(_) => panic!("hazard not detected"),
    }
}

#[test]
fn compile_keeps_payloads_and_handles() {
    let mut b: GraphBuilder<u32> = GraphBuilder::new();
    let hdr = b.image(color16());
    let post = b.image(color16());
    assert_eq!(hdr.index(), 0);
    assert_eq!(post.index(), 1);
    b.pass("first", 10).writes(hdr);
    b.pass("second", 20).reads(hdr).writes(post);
    let g = Graph::try_compile(b).ok().expect("valid graph");
    assert_eq!(g.names, vec!["first", "second"]);
    assert_eq!(g.image_kinds().len(), 2);
    let ps = g.passes();
    assert_eq!(*ps[0].exec_fn(), 10);
    assert_eq!(*ps[1].exec_fn(), 20);
    assert_eq!(ps[1].name(), "second");
    assert_eq!(ps[1].read_handles()[0].index(), 0);
    assert_eq!(ps[1].write_handles()[0].index(), 1);
    let passes = g.into_passes();
    assert_eq!(passes.len(), 2);
}

#[test]
fn lifetimes_and_usages_follow_passes() {
    let mut b: GraphBuilder<()> = GraphBuilder::new();
    let a = b.image(color16());
    let c = b.image(color16());
    let unused = b.image(color16());
    b.pass("p0", ()).writes(a);
    b.pass("p1", ()).reads(a).writes(c);
    b.pass("p2", ()).writes(c);
    let g = Graph::compile(b);
    let (lives, usages) = g.image_lifetimes();
    assert_eq!(lives[a.index()], Live { first: 0, last: 1, init: true });
    assert_eq!(lives[c.index()], Live { first: 1, last: 2, init: true });
    assert_eq!(lives[unused.index()], Live { first: 0, last: 0, init: false });
    assert_eq!(usages[a.index()], ImageUsage { sampled: true, attachment: true });
    assert_eq!(usages[c.index()], ImageUsage { sampled: false, attachment: true });
    assert_eq!(usages[unused.index()], ImageUsage { sampled: false, attachment: false });
}

#[test]
fn aliasing_reuses_textures_of_dead_images() {
    let depth = ImageKind::Depth {
        format: 2,
        size: Size2D { x: 16, y: 16 },
        msaa: 1,
    };
    let kinds = vec![color16(), depth, color16(), color16()];
    let both = ImageUsage { sampled: true, attachment: true };
    let att = ImageUsage { sampled: false, attachment: true };
    let usages = vec![both, att, att, both];
    let lives = vec![
        Live { first: 0, last: 1, init: true },
        Live { first: 0, last: 3, init: true },
        Live { first: 2, last: 3, init: true },
        Live { first: 2, last: 2, init: true },
    ];
    let plan = plan_aliasing(&kinds, &usages, &lives);
    // Image 2 takes image 0's texture (same kind, usage covered, 1 < 2);
    // image 3 overlaps image 2 and needs sampling, so it gets a new texture.
    assert_eq!(plan.slot_of, vec![0, 1, 0, 2]);
    assert_eq!(plan.slots.len(), 3);
    assert_eq!(plan.slots[0].creator, 0);
    assert_eq!(plan.slots[1].kind, depth);
    assert_eq!(plan.slots[2].creator, 3);
    assert_eq!(plan.slots[2].usage, both);
}

#[test]
fn aliasing_never_shares_between_kinds() {
    let depth = ImageKind::Depth {
        format: 1,
        size: Size2D { x: 16, y: 16 },
        msaa: 1,
    };
    let kinds = vec![color16(), depth];
    let u = ImageUsage { sampled: false, attachment: true };
    let lives = vec![
        Live { first: 0, last: 0, init: true },
        Live { first: 1, last: 1, init: true },
    ];
    let plan = plan_aliasing(&kinds, &vec![u, u], &lives);
    assert_eq!(plan.slot_of, vec![0, 1]);
}

#[test]
fn pass_name_list_matches_names() {
    let mut b: GraphBuilder<()> = GraphBuilder::new();
    b.pass("x", ());
    b.pass("y", ());
    let g = Graph::compile(b);
    assert_eq!(g.pass_name_list(), &vec!["x", "y"]);
    assert_eq!(g.pass_name_list(), &g.names);
}
