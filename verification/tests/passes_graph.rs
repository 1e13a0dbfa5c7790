use render_wgpu::framegraph::{Graph, GraphBuilder, ImageKind, Size2D};
use render_wgpu::passes_graph::{
    BlitHdrToPostPass, BlitPostToSrcPass, BloomPass, HistoryCopyPass, MainPass, ParticlesPass,
    PostAoPass, PresentPass, ResolvePass, SkyPass, SsgiPass, SsrPass, UiPass,
};

fn kind(depth: bool) -> ImageKind {
    let size = Size2D { x: 8, y: 8 };
    if depth {
        ImageKind::Depth { format: 9, size, msaa: 1 }
    } else {
        ImageKind::Color { format: 3, size, msaa: 1 }
    }
}

#[test]
fn declarations_record_names_and_io() {
    let mut b: GraphBuilder<u8> = GraphBuilder::new();
    let hdr = b.image(kind(false));
    let depth = b.image(kind(true));
    let post = b.image(kind(false));
    let msaa = b.image(kind(false));
    SkyPass::declare(&mut b, hdr, Some(msaa), 0);
    MainPass::declare(&mut b, hdr, depth, None, 1);
    ParticlesPass::declare(&mut b, hdr, None, 2);
    ResolvePass::declare(&mut b, msaa, hdr, 3);
    BlitHdrToPostPass::declare(&mut b, hdr, post, 4);
    PostAoPass::declare(&mut b, post, depth, 5);
    SsgiPass::declare(&mut b, post, hdr, depth, 6);
    SsrPass::declare(&mut b, post, hdr, depth, 7);
    BloomPass::declare(&mut b, post, hdr, 8);
    BlitPostToSrcPass::declare(&mut b, post, hdr, 9);
    HistoryCopyPass::declare(&mut b, hdr, 10);
    UiPass::declare(&mut b, post, 11);
    PresentPass::declare(&mut b, post, 12);
    // Resolve reads msaa after Sky wrote it; BlitPostToSrc writes hdr after reads: not a valid graph.
    assert!(Graph::try_compile(b).is_err());

    let mut b: GraphBuilder<u8> = GraphBuilder::new();
    let hdr = b.image(kind(false));
    let depth = b.image(kind(true));
    let post = b.image(kind(false));
    SkyPass::declare(&mut b, hdr, None, 0);
    MainPass::declare(&mut b, hdr, depth, None, 1);
    BlitHdrToPostPass::declare(&mut b, hdr, post, 2);
    PostAoPass::declare(&mut b, post, depth, 3);
    PresentPass::declare(&mut b, post, 4);
    let g = Graph::compile(b);
    assert_eq!(g.names, vec!["Sky", "Main", "BlitHdrToPost", "PostAO", "Present"]);
    let ps = g.passes();
    let ids = |hs: &Vec<render_wgpu::framegraph::Handle<render_wgpu::framegraph::Img>>| {
        hs.iter().map(|h| h.index()).collect::<Vec<usize>>()
    };
    assert_eq!(ids(ps[0].write_handles()), vec![0, 0]);
    assert_eq!(ids(ps[1].write_handles()), vec![0, 0, 1]);
    assert_eq!(ids(ps[2].read_handles()), vec![0]);
    assert_eq!(ids(ps[2].write_handles()), vec![2]);
    assert_eq!(ids(ps[3].read_handles()), vec![1]);
    assert_eq!(ids(ps[3].write_handles()), vec![2]);
    assert_eq!(ids(ps[4].read_handles()), vec![2]);
    assert!(ps[4].write_handles().is_empty());
    assert_eq!(*ps[3].exec_fn(), 3);
}

#[test]
fn msaa_declarations_write_the_msaa_target() {
    let mut b: GraphBuilder<()> = GraphBuilder::new();
    let hdr = b.image(kind(false));
    let depth = b.image(kind(true));
    let msaa = b.image(kind(false));
    MainPass::declare(&mut b, hdr, depth, Some(msaa), ());
    ResolvePass::declare(&mut b, msaa, hdr, ());
    let g = Graph::compile(b);
    let ps = g.passes();
    let w: Vec<usize> = ps[0].write_handles().iter().map(|h| h.index()).collect();
    assert_eq!(w, vec![0, 2, 1]);
    assert_eq!(ps[1].name(), "Resolve");
    assert_eq!(ps[1].read_handles()[0].index(), 2);
}
