//! Framegraph pass declarations.
//!
//! Declares the renderer's passes against the `GraphBuilder` API: each
//! declaration fixes the pass name and the images it reads and writes; the
//! caller supplies the execution payload that records the pass's GPU work.
use vstd::prelude::*;
use crate::framegraph::{GraphBuilder, Handle, Img, PassDecl, PassIo};

verus! {

/// `after` is `before` with one more pass at the end, whose name and
/// read/write sets are `io` and whose payload is `f`.
pub open spec fn declares_one<E>(
    before: Seq<PassDecl<E>>,
    after: Seq<PassDecl<E>>,
    io: PassIo,
    f: E,
) -> bool {
    &&& after.len() == before.len() + 1
    &&& forall|i: int| 0 <= i < before.len() ==> after[i] == before[i]
    &&& after.last().io() == io
    &&& after.last().payload() == f
}

/// Sky: clears and draws the sky gradient into the HDR target (through the MSAA target when there is one).
pub struct SkyPass;

impl SkyPass {
    /// Declare the pass on `builder` with the execution payload `exec`.
    pub fn declare<E>(builder: &mut GraphBuilder<E>, hdr: Handle<Img>, msaa: Option<Handle<Img>>, exec: E)
        ensures
            final(builder).images() == old(builder).images(),
            declares_one(
                old(builder).decls(),
                final(builder).decls(),
                ("Sky"@, Seq::<u32>::empty(), seq![hdr.id(), msaa.unwrap_or(hdr).id()]),
                exec,
            ),
    {
        let p = builder.pass("Sky", exec);
        let p = p.writes(hdr);
        let p = p.writes(msaa.unwrap_or(hdr));
        proof {
            assert(p.io().1 =~= Seq::<u32>::empty());
            assert(p.io().2 =~= seq![hdr.id(), msaa.unwrap_or(hdr).id()]);
        }
    }
}

/// Main: draws the scene into the HDR target (through the MSAA target when there is one) with depth.
pub struct MainPass;

impl MainPass {
    /// Declare the pass on `builder` with the execution payload `exec`.
    pub fn declare<E>(builder: &mut GraphBuilder<E>, hdr: Handle<Img>, depth: Handle<Img>, msaa: Option<Handle<Img>>, exec: E)
        ensures
            final(builder).images() == old(builder).images(),
            declares_one(
                old(builder).decls(),
                final(builder).decls(),
                ("Main"@, Seq::<u32>::empty(), seq![hdr.id(), msaa.unwrap_or(hdr).id(), depth.id()]),
                exec,
            ),
    {
        let p = builder.pass("Main", exec);
        let p = p.writes(hdr);
        let p = p.writes(msaa.unwrap_or(hdr));
        let p = p.writes(depth);
        proof {
            assert(p.io().1 =~= Seq::<u32>::empty());
            assert(p.io().2 =~= seq![hdr.id(), msaa.unwrap_or(hdr).id(), depth.id()]);
        }
    }
}

/// Present: samples the final color to the swapchain.
pub struct PresentPass;

impl PresentPass {
    /// Declare the pass on `builder` with the execution payload `exec`.
    pub fn declare<E>(builder: &mut GraphBuilder<E>, color: Handle<Img>, exec: E)
        ensures
            final(builder).images() == old(builder).images(),
            declares_one(
                old(builder).decls(),
                final(builder).decls(),
                ("Present"@, seq![color.id()], Seq::<u32>::empty()),
                exec,
            ),
    {
        let p = builder.pass("Present", exec);
        let p = p.reads(color);
        proof {
            assert(p.io().1 =~= seq![color.id()]);
            assert(p.io().2 =~= Seq::<u32>::empty());
        }
    }
}

/// Particles: draws additive particles into the HDR target (through the MSAA target when there is one).
pub struct ParticlesPass;

impl ParticlesPass {
    /// Declare the pass on `builder` with the execution payload `exec`.
    pub fn declare<E>(builder: &mut GraphBuilder<E>, hdr: Handle<Img>, msaa: Option<Handle<Img>>, exec: E)
        ensures
            final(builder).images() == old(builder).images(),
            declares_one(
                old(builder).decls(),
                final(builder).decls(),
                ("Particles"@, Seq::<u32>::empty(), seq![hdr.id(), msaa.unwrap_or(hdr).id()]),
                exec,
            ),
    {
        let p = builder.pass("Particles", exec);
        let p = p.writes(hdr);
        let p = p.writes(msaa.unwrap_or(hdr));
        proof {
            assert(p.io().1 =~= Seq::<u32>::empty());
            assert(p.io().2 =~= seq![hdr.id(), msaa.unwrap_or(hdr).id()]);
        }
    }
}

/// UI: draws overlays into the color target.
pub struct UiPass;

impl UiPass {
    /// Declare the pass on `builder` with the execution payload `exec`.
    pub fn declare<E>(builder: &mut GraphBuilder<E>, color: Handle<Img>, exec: E)
        ensures
            final(builder).images() == old(builder).images(),
            declares_one(
                old(builder).decls(),
                final(builder).decls(),
                ("UI"@, Seq::<u32>::empty(), seq![color.id()]),
                exec,
            ),
    {
        let p = builder.pass("UI", exec);
        let p = p.writes(color);
        proof {
            assert(p.io().1 =~= Seq::<u32>::empty());
            assert(p.io().2 =~= seq![color.id()]);
        }
    }
}

/// PostAO: samples depth and darkens the post target.
pub struct PostAoPass;

impl PostAoPass {
    /// Declare the pass on `builder` with the execution payload `exec`.
    pub fn declare<E>(builder: &mut GraphBuilder<E>, post: Handle<Img>, depth: Handle<Img>, exec: E)
        ensures
            final(builder).images() == old(builder).images(),
            declares_one(
                old(builder).decls(),
                final(builder).decls(),
                ("PostAO"@, seq![depth.id()], seq![post.id()]),
                exec,
            ),
    {
        let p = builder.pass("PostAO", exec);
        let p = p.reads(depth);
        let p = p.writes(post);
        proof {
            assert(p.io().1 =~= seq![depth.id()]);
            assert(p.io().2 =~= seq![post.id()]);
        }
    }
}

/// BlitHdrToPost: copies the HDR target into the post target.
pub struct BlitHdrToPostPass;

impl BlitHdrToPostPass {
    /// Declare the pass on `builder` with the execution payload `exec`.
    pub fn declare<E>(builder: &mut GraphBuilder<E>, hdr: Handle<Img>, post: Handle<Img>, exec: E)
        ensures
            final(builder).images() == old(builder).images(),
            declares_one(
                old(builder).decls(),
                final(builder).decls(),
                ("BlitHdrToPost"@, seq![hdr.id()], seq![post.id()]),
                exec,
            ),
    {
        let p = builder.pass("BlitHdrToPost", exec);
        let p = p.reads(hdr);
        let p = p.writes(post);
        proof {
            assert(p.io().1 =~= seq![hdr.id()]);
            assert(p.io().2 =~= seq![post.id()]);
        }
    }
}

/// BlitPostToSrc: copies one image into another.
pub struct BlitPostToSrcPass;

impl BlitPostToSrcPass {
    /// Declare the pass on `builder` with the execution payload `exec`.
    pub fn declare<E>(builder: &mut GraphBuilder<E>, src: Handle<Img>, dst: Handle<Img>, exec: E)
        ensures
            final(builder).images() == old(builder).images(),
            declares_one(
                old(builder).decls(),
                final(builder).decls(),
                ("BlitPostToSrc"@, seq![src.id()], seq![dst.id()]),
                exec,
            ),
    {
        let p = builder.pass("BlitPostToSrc", exec);
        let p = p.reads(src);
        let p = p.writes(dst);
        proof {
            assert(p.io().1 =~= seq![src.id()]);
            assert(p.io().2 =~= seq![dst.id()]);
        }
    }
}

/// HistoryCopy: copies an image into the temporal history.
pub struct HistoryCopyPass;

impl HistoryCopyPass {
    /// Declare the pass on `builder` with the execution payload `exec`.
    pub fn declare<E>(builder: &mut GraphBuilder<E>, src: Handle<Img>, exec: E)
        ensures
            final(builder).images() == old(builder).images(),
            declares_one(
                old(builder).decls(),
                final(builder).decls(),
                ("HistoryCopy"@, seq![src.id()], Seq::<u32>::empty()),
                exec,
            ),
    {
        let p = builder.pass("HistoryCopy", exec);
        let p = p.reads(src);
        proof {
            assert(p.io().1 =~= seq![src.id()]);
            assert(p.io().2 =~= Seq::<u32>::empty());
        }
    }
}

/// SSGI: samples HDR color and depth, adds indirect light to the post target.
pub struct SsgiPass;

impl SsgiPass {
    /// Declare the pass on `builder` with the execution payload `exec`.
    pub fn declare<E>(builder: &mut GraphBuilder<E>, post: Handle<Img>, hdr: Handle<Img>, depth: Handle<Img>, exec: E)
        ensures
            final(builder).images() == old(builder).images(),
            declares_one(
                old(builder).decls(),
                final(builder).decls(),
                ("SSGI"@, seq![hdr.id(), depth.id()], seq![post.id()]),
                exec,
            ),
    {
        let p = builder.pass("SSGI", exec);
        let p = p.reads(hdr);
        let p = p.reads(depth);
        let p = p.writes(post);
        proof {
            assert(p.io().1 =~= seq![hdr.id(), depth.id()]);
            assert(p.io().2 =~= seq![post.id()]);
        }
    }
}

/// SSR: samples HDR color and depth, adds reflections to the post target.
pub struct SsrPass;

impl SsrPass {
    /// Declare the pass on `builder` with the execution payload `exec`.
    pub fn declare<E>(builder: &mut GraphBuilder<E>, post: Handle<Img>, hdr: Handle<Img>, depth: Handle<Img>, exec: E)
        ensures
            final(builder).images() == old(builder).images(),
            declares_one(
                old(builder).decls(),
                final(builder).decls(),
                ("SSR"@, seq![hdr.id(), depth.id()], seq![post.id()]),
                exec,
            ),
    {
        let p = builder.pass("SSR", exec);
        let p = p.reads(hdr);
        let p = p.reads(depth);
        let p = p.writes(post);
        proof {
            assert(p.io().1 =~= seq![hdr.id(), depth.id()]);
            assert(p.io().2 =~= seq![post.id()]);
        }
    }
}

/// Bloom: samples a source image and adds glow to the post target.
pub struct BloomPass;

impl BloomPass {
    /// Declare the pass on `builder` with the execution payload `exec`.
    pub fn declare<E>(builder: &mut GraphBuilder<E>, post: Handle<Img>, src: Handle<Img>, exec: E)
        ensures
            final(builder).images() == old(builder).images(),
            declares_one(
                old(builder).decls(),
                final(builder).decls(),
                ("Bloom"@, seq![src.id()], seq![post.id()]),
                exec,
            ),
    {
        let p = builder.pass("Bloom", exec);
        let p = p.reads(src);
        let p = p.writes(post);
        proof {
            assert(p.io().1 =~= seq![src.id()]);
            assert(p.io().2 =~= seq![post.id()]);
        }
    }
}

/// Resolve: resolves the MSAA target into the HDR target.
pub struct ResolvePass;

impl ResolvePass {
    /// Declare the pass on `builder` with the execution payload `exec`.
    pub fn declare<E>(builder: &mut GraphBuilder<E>, msaa: Handle<Img>, hdr: Handle<Img>, exec: E)
        ensures
            final(builder).images() == old(builder).images(),
            declares_one(
                old(builder).decls(),
                final(builder).decls(),
                ("Resolve"@, seq![msaa.id()], seq![hdr.id()]),
                exec,
            ),
    {
        let p = builder.pass("Resolve", exec);
        let p = p.reads(msaa);
        let p = p.writes(hdr);
        proof {
            assert(p.io().1 =~= seq![msaa.id()]);
            assert(p.io().2 =~= seq![hdr.id()]);
        }
    }
}

} // verus!
