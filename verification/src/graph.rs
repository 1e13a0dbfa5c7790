//! Minimal frame-graph for pass I/O validation.
//!
//! Encodes read/write resources for each pass and validates invariants:
//! - A pass may not sample from the same resource it writes this frame.
//! - Depth is read-only in all passes.
use vstd::prelude::*;

verus! {

/// Frame resources a pass of the static frame graph can read or write.
#[derive(Copy, Clone, Debug, PartialEq, Eq, Hash, Structural)]
pub enum Res {
    SceneColor,
    SceneRead,
    Depth,
}

/// Static I/O declaration of one pass.
#[derive(Clone, Debug)]
pub struct PassSpec {
    pub label: &'static str,
    pub reads: &'static [Res],
    pub writes: &'static [Res],
}

/// A pass as a mathematical value: label, resources read, resources written.
pub type PassView = (Seq<char>, Seq<Res>, Seq<Res>);

/// The mathematical value of a pass declaration.
pub open spec fn pass_view(p: PassSpec) -> PassView {
    (p.label@, p.reads@, p.writes@)
}

/// The pass both reads and writes `res`.
pub open spec fn reads_and_writes(p: PassView, res: Res) -> bool {
    p.2.contains(res) && p.1.contains(res)
}

/// The pass writes no depth and samples nothing that it writes.
pub open spec fn pass_ok(p: PassView) -> bool {
    &&& !p.2.contains(Res::Depth)
    &&& forall|res: Res| !#[trigger] reads_and_writes(p, res)
}

/// Writing `res` in pass `p` breaks an invariant: `res` is the depth
/// buffer, or the pass also samples it.
pub open spec fn bad_write(p: PassView, res: Res) -> bool {
    res == Res::Depth || p.1.contains(res)
}

/// No pass of the graph writes depth or samples a resource it writes.
pub open spec fn graph_ok(passes: Seq<PassView>) -> bool {
    forall|i: int| 0 <= i < passes.len() ==> pass_ok(#[trigger] passes[i])
}

/// An ordered list of pass declarations.
pub struct FrameGraph {
    passes: Vec<PassSpec>,
}

impl View for FrameGraph {
    type V = Seq<PassView>;

    closed spec fn view(&self) -> Seq<PassView> {
        self.passes@.map_values(|p: PassSpec| pass_view(p))
    }
}

impl Default for FrameGraph {
    fn default() -> (r: Self)
        ensures
            r@ == Seq::<PassView>::empty(),
    {
        let r = FrameGraph { passes: Vec::new() };
        proof {
            assert(r@ =~= Seq::<PassView>::empty());
        }
        r
    }
}

/// Index of the first write of `p` that breaks an invariant, if any.
fn first_bad_write(p: &PassSpec) -> (r: Option<usize>)
    ensures
        match r {
            Some(w) => w < p.writes@.len() && bad_write(pass_view(*p), p.writes@[w as int])
                && forall|k: int| 0 <= k < w ==> !bad_write(pass_view(*p), #[trigger] p.writes@[k]),
            None => forall|k: int|
                0 <= k < p.writes@.len() ==> !bad_write(pass_view(*p), #[trigger] p.writes@[k]),
        },
{
    let nw = p.writes.len();
    let mut wi: usize = 0;
    while wi < nw
        invariant
            nw == p.writes@.len(),
            0 <= wi <= nw,
            forall|k: int| 0 <= k < wi ==> !bad_write(pass_view(*p), #[trigger] p.writes@[k]),
        decreases nw - wi,
    {
        let w = p.writes[wi];
        if w == Res::Depth {
            return Some(wi);
        }
        let nr = p.reads.len();
        let mut ri: usize = 0;
        while ri < nr
            invariant
                nr == p.reads@.len(),
                nw == p.writes@.len(),
                0 <= wi < nw,
                0 <= ri <= nr,
                forall|k: int| 0 <= k < wi ==> !bad_write(pass_view(*p), #[trigger] p.writes@[k]),
                w == p.writes@[wi as int],
                w != Res::Depth,
                forall|k: int| 0 <= k < ri ==> p.reads@[k] != w,
            decreases nr - ri,
        {
            if p.reads[ri] == w {
                proof {
                    assert(p.reads@[ri as int] == w);
                    assert(p.reads@.contains(p.writes@[wi as int]));
                }
                return Some(wi);
            }
            ri = ri + 1;
        }
        proof {
            assert(!p.reads@.contains(w));
        }
        wi = wi + 1;
    }
    None
}

/// A pass satisfies the invariants exactly when none of its writes is bad.
proof fn lemma_pass_ok_iff(v: PassView)
    ensures
        pass_ok(v) <==> forall|k: int| 0 <= k < v.2.len() ==> !bad_write(v, #[trigger] v.2[k]),
{
    if pass_ok(v) {
        assert forall|k: int| 0 <= k < v.2.len() implies !bad_write(v, #[trigger] v.2[k]) by {
            assert(!reads_and_writes(v, v.2[k]));
            assert(v.2.contains(v.2[k]));
        }
    }
    if forall|k: int| 0 <= k < v.2.len() ==> !bad_write(v, #[trigger] v.2[k]) {
        if v.2.contains(Res::Depth) {
            let k = choose|k: int| 0 <= k < v.2.len() && v.2[k] == Res::Depth;
            assert(bad_write(v, v.2[k]));
        }
        assert forall|res: Res| !#[trigger] reads_and_writes(v, res) by {
            if v.2.contains(res) {
                let k = choose|k: int| 0 <= k < v.2.len() && v.2[k] == res;
                assert(!bad_write(v, v.2[k]));
            }
        }
    }
}

impl FrameGraph {
    /// An empty graph.
    pub fn new() -> (r: Self)
        ensures
            r@ == Seq::<PassView>::empty(),
    {
        let r = Self { passes: Vec::new() };
        proof {
            assert(r@ =~= Seq::<PassView>::empty());
        }
        r
    }

    /// Append a pass at the end.
    pub fn add(self, p: PassSpec) -> (r: Self)
        ensures
            r@ == self@.push(pass_view(p)),
    {
        let mut s = self;
        s.passes.push(p);
        proof {
            assert(s@ =~= self@.push(pass_view(p)));
        }
        s
    }

    /// The first violation, in declaration order: the label of the first
    /// pass that writes depth or reads a resource it writes, and the first
    /// such written resource; `None` when the graph satisfies its invariants.
    pub fn first_violation(&self) -> (r: Option<(&'static str, Res)>)
        ensures
            r is None <==> graph_ok(self@),
            r matches Some((label, res)) ==> exists|i: int, w: int|
                #![trigger self@[i].2[w]]
                {
                    &&& 0 <= i < self@.len()
                    &&& forall|j: int| 0 <= j < i ==> pass_ok(#[trigger] self@[j])
                    &&& self@[i].0 == label@
                    &&& 0 <= w < self@[i].2.len()
                    &&& self@[i].2[w] == res
                    &&& bad_write(self@[i], res)
                    &&& forall|k: int| 0 <= k < w ==> !bad_write(self@[i], #[trigger] self@[i].2[k])
                },
    {
        let n = self.passes.len();
        let mut i: usize = 0;
        while i < n
            invariant
                n == self.passes@.len(),
                0 <= i <= n,
                self@.len() == n,
                forall|j: int| 0 <= j < i ==> pass_ok(#[trigger] self@[j]),
            decreases n - i,
        {
            let p = &self.passes[i];
            proof {
                assert(self@[i as int] == pass_view(*p));
                lemma_pass_ok_iff(pass_view(*p));
            }
            match first_bad_write(p) {
                Some(w) => {
                    let res = p.writes[w];
                    proof {
                        assert(self@[i as int].2[w as int] == res);
                        assert(self@[i as int].0 == p.label@);
                    }
                    return Some((p.label, res));
                },
                None => {},
            }
            i = i + 1;
        }
        None
    }

    /// Validate the graph's invariants (no pass samples what it writes, and
    /// depth is read-only). A graph that violates them is refused by the
    /// precondition; `first_violation` finds out which graphs those are.
    pub fn validate(&self)
        requires
            graph_ok(self@),
    {
        let v = self.first_violation();
        proof {
            assert(v is None);
        }
    }
}

/// The passes that `graph_for` declares, in order.
pub open spec fn graph_for_spec(
    enabled_ssgi: bool,
    enabled_ssr: bool,
    enabled_bloom: bool,
    direct_present: bool,
) -> Seq<PassView> {
    let sky: PassView = ("sky"@, seq![], seq![Res::SceneColor]);
    let main: PassView = ("main"@, seq![Res::Depth], seq![Res::SceneColor]);
    let blit: PassView = ("blit_scene_to_read"@, seq![Res::SceneColor], seq![Res::SceneRead]);
    let ssr: PassView = ("ssr"@, seq![Res::Depth, Res::SceneRead], seq![Res::SceneColor]);
    let ssgi: PassView = ("ssgi"@, seq![Res::Depth, Res::SceneRead], seq![Res::SceneColor]);
    let ao: PassView = ("post_ao"@, seq![Res::Depth], seq![Res::SceneColor]);
    let bloom: PassView = ("bloom"@, seq![Res::SceneRead], seq![Res::SceneColor]);
    let g0 = seq![sky, main];
    let g1 = if !direct_present {
        g0.push(blit)
    } else {
        g0
    };
    let g2 = if enabled_ssr {
        g1.push(ssr)
    } else {
        g1
    };
    let g3 = if enabled_ssgi {
        g2.push(ssgi)
    } else {
        g2
    };
    let g4 = g3.push(ao);
    if enabled_bloom {
        g4.push(bloom)
    } else {
        g4
    }
}

/// Static pass specs for the frame: sky, main, then the enabled post passes.
pub fn graph_for(
    enabled_ssgi: bool,
    enabled_ssr: bool,
    enabled_bloom: bool,
    direct_present: bool,
) -> (g: FrameGraph)
    ensures
        g@ == graph_for_spec(enabled_ssgi, enabled_ssr, enabled_bloom, direct_present),
{
    let p_sky = PassSpec { label: "sky", reads: &[], writes: &[Res::SceneColor] };
    let p_main = PassSpec { label: "main", reads: &[Res::Depth], writes: &[Res::SceneColor] };
    let p_blit = PassSpec {
        label: "blit_scene_to_read",
        reads: &[Res::SceneColor],
        writes: &[Res::SceneRead],
    };
    let p_ssr = PassSpec {
        label: "ssr",
        reads: &[Res::Depth, Res::SceneRead],
        writes: &[Res::SceneColor],
    };
    let p_ssgi = PassSpec {
        label: "ssgi",
        reads: &[Res::Depth, Res::SceneRead],
        writes: &[Res::SceneColor],
    };
    let p_ao = PassSpec { label: "post_ao", reads: &[Res::Depth], writes: &[Res::SceneColor] };
    let p_bloom = PassSpec { label: "bloom", reads: &[Res::SceneRead], writes: &[Res::SceneColor] };
    let ghost spec = graph_for_spec(enabled_ssgi, enabled_ssr, enabled_bloom, direct_present);
    proof {
        assert(pass_view(p_sky) == ("sky"@, Seq::<Res>::empty(), seq![Res::SceneColor]));
        assert(pass_view(p_main) == ("main"@, seq![Res::Depth], seq![Res::SceneColor]));
        assert(pass_view(p_blit) == ("blit_scene_to_read"@, seq![Res::SceneColor], seq![Res::SceneRead]));
        assert(pass_view(p_ssr) == ("ssr"@, seq![Res::Depth, Res::SceneRead], seq![Res::SceneColor]));
        assert(pass_view(p_ssgi) == ("ssgi"@, seq![Res::Depth, Res::SceneRead], seq![Res::SceneColor]));
        assert(pass_view(p_ao) == ("post_ao"@, seq![Res::Depth], seq![Res::SceneColor]));
        assert(pass_view(p_bloom) == ("bloom"@, seq![Res::SceneRead], seq![Res::SceneColor]));
    }
    let mut g = FrameGraph::new().add(p_sky).add(p_main);
    if !direct_present {
        g = g.add(p_blit);
    }
    if enabled_ssr {
        g = g.add(p_ssr);
    }
    if enabled_ssgi {
        g = g.add(p_ssgi);
    }
    g = g.add(p_ao);
    if enabled_bloom {
        g = g.add(p_bloom);
    }
    proof {
        assert(g@ =~= spec);
    }
    g
}


/// Every graph that `graph_for` builds, for every combination of toggles,
/// satisfies the frame-graph invariants: no pass samples what it writes,
/// and depth is read-only in all of its passes.
pub proof fn lemma_graph_for_valid(
    enabled_ssgi: bool,
    enabled_ssr: bool,
    enabled_bloom: bool,
    direct_present: bool,
)
    ensures
        graph_ok(graph_for_spec(enabled_ssgi, enabled_ssr, enabled_bloom, direct_present)),
{
    let g = graph_for_spec(enabled_ssgi, enabled_ssr, enabled_bloom, direct_present);
    assert forall|i: int| 0 <= i < g.len() implies !(#[trigger] g[i]).2.contains(Res::Depth) by {
        if g[i].2.contains(Res::Depth) {
            let a = choose|a: int| 0 <= a < g[i].2.len() && g[i].2[a] == Res::Depth;
        }
    }
    assert forall|i: int| 0 <= i < g.len() implies pass_ok(#[trigger] g[i]) by {
        assert forall|res: Res| !#[trigger] reads_and_writes(g[i], res) by {
            let p = g[i];
            if p.2.contains(res) && p.1.contains(res) {
                let a = choose|a: int| 0 <= a < p.2.len() && p.2[a] == res;
                let b = choose|b: int| 0 <= b < p.1.len() && p.1[b] == res;
                assert(p.2[a] == p.1[b]);
            }
        }
    }
}

/// Some pass of `g` is labelled `label`.
pub open spec fn has_label(g: Seq<PassView>, label: Seq<char>) -> bool {
    exists|i: int| 0 <= i < g.len() && #[trigger] g[i].0 == label
}

/// Where a pass with this label stands in the frame: sky, main, the
/// scene-read blit, SSR, SSGI, ambient occlusion, bloom; 7 for any other label.
pub open spec fn frame_rank(label: Seq<char>) -> int {
    if label == "sky"@ {
        0
    } else if label == "main"@ {
        1
    } else if label == "blit_scene_to_read"@ {
        2
    } else if label == "ssr"@ {
        3
    } else if label == "ssgi"@ {
        4
    } else if label == "post_ao"@ {
        5
    } else if label == "bloom"@ {
        6
    } else {
        7
    }
}

/// Some pass of `g` has frame rank `k`.
pub open spec fn has_rank(g: Seq<PassView>, k: int) -> bool {
    exists|i: int| 0 <= i < g.len() && frame_rank(#[trigger] g[i].0) == k
}

/// The passes of `g` stand in strictly increasing frame rank, all below `r`.
pub open spec fn ranked_below(g: Seq<PassView>, r: int) -> bool {
    &&& forall|i: int, j: int| 0 <= i < j < g.len() ==> frame_rank(#[trigger] g[i].0) < frame_rank(#[trigger] g[j].0)
    &&& forall|i: int| 0 <= i < g.len() ==> frame_rank(#[trigger] g[i].0) < r
}

proof fn lemma_push_ranked(g: Seq<PassView>, p: PassView, r: int)
    requires
        ranked_below(g, frame_rank(p.0)),
        frame_rank(p.0) < r,
    ensures
        ranked_below(g.push(p), r),
        forall|k: int| has_rank(g.push(p), k) <==> has_rank(g, k) || k == frame_rank(p.0),
{
    let h = g.push(p);
    assert forall|i: int, j: int| 0 <= i < j < h.len() implies frame_rank(#[trigger] h[i].0) < frame_rank(#[trigger] h[j].0) by {
        assert(h[i] == g[i]);
        if j < g.len() {
            assert(h[j] == g[j]);
        }
    }
    assert forall|i: int| 0 <= i < h.len() implies frame_rank(#[trigger] h[i].0) < r by {
        if i < g.len() {
            assert(h[i] == g[i]);
        }
    }
    assert forall|k: int| has_rank(h, k) <==> has_rank(g, k) || k == frame_rank(p.0) by {
        if has_rank(g, k) {
            let i = choose|i: int| 0 <= i < g.len() && frame_rank(g[i].0) == k;
            assert(h[i] == g[i]);
        }
        if k == frame_rank(p.0) {
            assert(frame_rank(h[g.len() as int].0) == k);
        }
        if has_rank(h, k) {
            let i = choose|i: int| 0 <= i < h.len() && frame_rank(h[i].0) == k;
            if i < g.len() {
                assert(h[i] == g[i]);
            }
        }
    }
}

/// A known label is present exactly when its rank is.
proof fn lemma_label_by_rank(g: Seq<PassView>, label: Seq<char>)
    requires
        frame_rank(label) < 7,
    ensures
        has_label(g, label) <==> has_rank(g, frame_rank(label)),
{
    if has_rank(g, frame_rank(label)) {
        let i = choose|i: int| 0 <= i < g.len() && frame_rank(g[i].0) == frame_rank(label);
        assert(g[i].0 == label);
    }
}

/// The frame graph holds sky, main and ambient occlusion always, the
/// scene-read blit exactly when not presenting directly, and SSR, SSGI and
/// bloom exactly when enabled; the passes stand in frame order (so each
/// label at most once), and each pass reads and writes what the pass I/O
/// overview gives for its label.
pub proof fn lemma_graph_for_passes(
    enabled_ssgi: bool,
    enabled_ssr: bool,
    enabled_bloom: bool,
    direct_present: bool,
)
    ensures
        ({
            let g = graph_for_spec(enabled_ssgi, enabled_ssr, enabled_bloom, direct_present);
            &&& g.len() == 3 + (if direct_present { 0int } else { 1 }) + (if enabled_ssr { 1int } else { 0 })
                + (if enabled_ssgi { 1int } else { 0 }) + (if enabled_bloom { 1int } else { 0 })
            &&& g[0].0 == "sky"@
            &&& g[1].0 == "main"@
            &&& has_label(g, "post_ao"@)
            &&& has_label(g, "blit_scene_to_read"@) <==> !direct_present
            &&& has_label(g, "ssr"@) <==> enabled_ssr
            &&& has_label(g, "ssgi"@) <==> enabled_ssgi
            &&& has_label(g, "bloom"@) <==> enabled_bloom
            &&& forall|i: int, j: int| 0 <= i < j < g.len() ==> frame_rank(#[trigger] g[i].0) < frame_rank(#[trigger] g[j].0)
            &&& forall|i: int| 0 <= i < g.len() ==> frame_rank(#[trigger] g[i].0) < 7
            &&& forall|i: int| 0 <= i < g.len() ==> {
                let p = #[trigger] g[i];
                &&& p.0 == "sky"@ ==> p.1 == Seq::<Res>::empty() && p.2 == seq![Res::SceneColor]
                &&& p.0 == "main"@ ==> p.1 == seq![Res::Depth] && p.2 == seq![Res::SceneColor]
                &&& p.0 == "blit_scene_to_read"@ ==> p.1 == seq![Res::SceneColor] && p.2 == seq![Res::SceneRead]
                &&& p.0 == "ssr"@ ==> p.1 == seq![Res::Depth, Res::SceneRead] && p.2 == seq![Res::SceneColor]
                &&& p.0 == "ssgi"@ ==> p.1 == seq![Res::Depth, Res::SceneRead] && p.2 == seq![Res::SceneColor]
                &&& p.0 == "post_ao"@ ==> p.1 == seq![Res::Depth] && p.2 == seq![Res::SceneColor]
                &&& p.0 == "bloom"@ ==> p.1 == seq![Res::SceneRead] && p.2 == seq![Res::SceneColor]
            }
        }),
{
    reveal_strlit("sky");
    reveal_strlit("main");
    reveal_strlit("blit_scene_to_read");
    reveal_strlit("ssr");
    reveal_strlit("ssgi");
    reveal_strlit("post_ao");
    reveal_strlit("bloom");
    assert("sky"@.len() == 3 && "main"@.len() == 4 && "blit_scene_to_read"@.len() == 18);
    assert("ssr"@.len() == 3 && "ssgi"@.len() == 4 && "post_ao"@.len() == 7 && "bloom"@.len() == 5);
    assert("sky"@[1] != "ssr"@[1]);
    assert("main"@[0] != "ssgi"@[0]);
    let g = graph_for_spec(enabled_ssgi, enabled_ssr, enabled_bloom, direct_present);
    let sky: PassView = ("sky"@, seq![], seq![Res::SceneColor]);
    let main: PassView = ("main"@, seq![Res::Depth], seq![Res::SceneColor]);
    let blit: PassView = ("blit_scene_to_read"@, seq![Res::SceneColor], seq![Res::SceneRead]);
    let ssr: PassView = ("ssr"@, seq![Res::Depth, Res::SceneRead], seq![Res::SceneColor]);
    let ssgi: PassView = ("ssgi"@, seq![Res::Depth, Res::SceneRead], seq![Res::SceneColor]);
    let ao: PassView = ("post_ao"@, seq![Res::Depth], seq![Res::SceneColor]);
    let bloom: PassView = ("bloom"@, seq![Res::SceneRead], seq![Res::SceneColor]);
    assert(frame_rank(sky.0) == 0);
    assert(frame_rank(main.0) == 1);
    assert(frame_rank(blit.0) == 2);
    assert(frame_rank(ssr.0) == 3);
    assert(frame_rank(ssgi.0) == 4);
    assert(frame_rank(ao.0) == 5);
    assert(frame_rank(bloom.0) == 6);
    let e: Seq<PassView> = Seq::empty();
    let gs = e.push(sky);
    lemma_push_ranked(e, sky, 1);
    assert forall|k: int| !has_rank(e, k) by {}
    let g0 = gs.push(main);
    lemma_push_ranked(gs, main, 2);
    let g1 = if !direct_present { g0.push(blit) } else { g0 };
    if !direct_present {
        lemma_push_ranked(g0, blit, 3);
    }
    let g2 = if enabled_ssr { g1.push(ssr) } else { g1 };
    if enabled_ssr {
        lemma_push_ranked(g1, ssr, 4);
    }
    let g3 = if enabled_ssgi { g2.push(ssgi) } else { g2 };
    if enabled_ssgi {
        lemma_push_ranked(g2, ssgi, 5);
    }
    let g4 = g3.push(ao);
    lemma_push_ranked(g3, ao, 6);
    let g5 = if enabled_bloom { g4.push(bloom) } else { g4 };
    if enabled_bloom {
        lemma_push_ranked(g4, bloom, 7);
    }
    assert(g0 =~= seq![sky, main]);
    assert(g == g5);
    assert forall|k: int| has_rank(g0, k) <==> (k == 0 || k == 1) by {
        assert(has_rank(gs, k) <==> has_rank(e, k) || k == 0);
    }
    assert forall|k: int| has_rank(g1, k) <==> (k == 0 || k == 1 || (!direct_present && k == 2)) by {
        assert(has_rank(g0, k) <==> (k == 0 || k == 1));
    }
    assert forall|k: int| has_rank(g2, k) <==> (k == 0 || k == 1 || (!direct_present && k == 2) || (enabled_ssr && k == 3)) by {
        assert(has_rank(g1, k) <==> (k == 0 || k == 1 || (!direct_present && k == 2)));
    }
    assert forall|k: int| has_rank(g3, k) <==> (k == 0 || k == 1 || (!direct_present && k == 2) || (enabled_ssr && k == 3)
        || (enabled_ssgi && k == 4)) by {
        assert(has_rank(g2, k) <==> (k == 0 || k == 1 || (!direct_present && k == 2) || (enabled_ssr && k == 3)));
    }
    assert forall|k: int| has_rank(g4, k) <==> (k == 0 || k == 1 || (!direct_present && k == 2) || (enabled_ssr && k == 3)
        || (enabled_ssgi && k == 4) || k == 5) by {
        assert(has_rank(g3, k) <==> (k == 0 || k == 1 || (!direct_present && k == 2) || (enabled_ssr && k == 3)
            || (enabled_ssgi && k == 4)));
    }
    assert forall|k: int| has_rank(g5, k) <==> (k == 0 || k == 1 || (!direct_present && k == 2) || (enabled_ssr && k == 3)
        || (enabled_ssgi && k == 4) || k == 5 || (enabled_bloom && k == 6)) by {
        assert(has_rank(g4, k) <==> (k == 0 || k == 1 || (!direct_present && k == 2) || (enabled_ssr && k == 3)
            || (enabled_ssgi && k == 4) || k == 5));
    }
    lemma_label_by_rank(g, "blit_scene_to_read"@);
    lemma_label_by_rank(g, "ssr"@);
    lemma_label_by_rank(g, "ssgi"@);
    lemma_label_by_rank(g, "post_ao"@);
    lemma_label_by_rank(g, "bloom"@);
    assert forall|i: int| 0 <= i < g.len() implies {
        let p = #[trigger] g[i];
        &&& p.0 == "sky"@ ==> p.1 == Seq::<Res>::empty() && p.2 == seq![Res::SceneColor]
        &&& p.0 == "main"@ ==> p.1 == seq![Res::Depth] && p.2 == seq![Res::SceneColor]
        &&& p.0 == "blit_scene_to_read"@ ==> p.1 == seq![Res::SceneColor] && p.2 == seq![Res::SceneRead]
        &&& p.0 == "ssr"@ ==> p.1 == seq![Res::Depth, Res::SceneRead] && p.2 == seq![Res::SceneColor]
        &&& p.0 == "ssgi"@ ==> p.1 == seq![Res::Depth, Res::SceneRead] && p.2 == seq![Res::SceneColor]
        &&& p.0 == "post_ao"@ ==> p.1 == seq![Res::Depth] && p.2 == seq![Res::SceneColor]
        &&& p.0 == "bloom"@ ==> p.1 == seq![Res::SceneRead] && p.2 == seq![Res::SceneColor]
    } by {
        assert(g[i] == sky || g[i] == main || g[i] == blit || g[i] == ssr || g[i] == ssgi || g[i] == ao
            || g[i] == bloom);
    }
}

} // verus!
