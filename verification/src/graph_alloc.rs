//! Per-frame image planning for a compiled graph: the span of passes that
//! use each image, how each image is used, and a first-fit assignment of
//! images to shared textures (aliasing) for images whose lifetimes do not
//! overlap.
use vstd::prelude::*;
use crate::framegraph::{Graph, ImageKind, PassIo, handles_contain, handle_ids};

verus! {

/// The passes between which an image is in use.
#[derive(Copy, Clone, Debug, PartialEq, Eq, Structural)]
pub struct Live {
    pub first: usize,
    pub last: usize,
    pub init: bool,
}

/// How the passes use an image: sampled (read) and/or rendered into (written).
#[derive(Copy, Clone, Debug, PartialEq, Eq, Structural)]
pub struct ImageUsage {
    pub sampled: bool,
    pub attachment: bool,
}

/// The pass reads image `i`.
pub open spec fn reads_img(p: PassIo, i: int) -> bool {
    exists|k: int| 0 <= k < p.1.len() && #[trigger] p.1[k] == i
}

/// The pass writes image `i`.
pub open spec fn writes_img(p: PassIo, i: int) -> bool {
    exists|k: int| 0 <= k < p.2.len() && #[trigger] p.2[k] == i
}

/// The pass reads or writes image `i`.
pub open spec fn uses_img(p: PassIo, i: int) -> bool {
    reads_img(p, i) || writes_img(p, i)
}

/// `l` is the lifetime of image `i` over the passes `ps`: when some pass
/// uses the image, `first` and `last` are the first and last such passes;
/// otherwise the lifetime is the default one.
pub open spec fn is_lifetime(ps: Seq<PassIo>, i: int, l: Live) -> bool {
    &&& l.init <==> exists|q: int| 0 <= q < ps.len() && #[trigger] uses_img(ps[q], i)
    &&& l.init ==> {
        &&& l.first <= l.last < ps.len()
        &&& uses_img(ps[l.first as int], i)
        &&& uses_img(ps[l.last as int], i)
        &&& forall|q: int| 0 <= q < l.first ==> !#[trigger] uses_img(ps[q], i)
        &&& forall|q: int| l.last < q < ps.len() ==> !#[trigger] uses_img(ps[q], i)
    }
    &&& !l.init ==> l.first == 0 && l.last == 0
}

/// `u` is how the passes `ps` use image `i`.
pub open spec fn is_usage(ps: Seq<PassIo>, i: int, u: ImageUsage) -> bool {
    &&& u.sampled <==> exists|q: int| 0 <= q < ps.len() && #[trigger] reads_img(ps[q], i)
    &&& u.attachment <==> exists|q: int| 0 <= q < ps.len() && #[trigger] writes_img(ps[q], i)
}

/// Whether one of the handles names image `i`.
fn pass_touches(hs: &Vec<crate::framegraph::Handle<crate::framegraph::Img>>, i: usize) -> (r: bool)
    ensures
        r == exists|k: int| 0 <= k < handle_ids(hs@).len() && #[trigger] handle_ids(hs@)[k] == i,
{
    if i <= u32::MAX as usize {
        let r = handles_contain(hs, i as u32);
        proof {
            if r {
                let k = choose|k: int| 0 <= k < handle_ids(hs@).len() && handle_ids(hs@)[k] == i as u32;
            }
        }
        r
    } else {
        false
    }
}

impl<E> Graph<E> {
    /// Lifetime and usage of every declared image, indexed like the images.
    pub fn image_lifetimes(&self) -> (r: (Vec<Live>, Vec<ImageUsage>))
        ensures
            r.0@.len() == self.images().len(),
            r.1@.len() == self.images().len(),
            forall|i: int|
                0 <= i < r.0@.len() ==> is_lifetime(crate::framegraph::ios(self.decls()), i, #[trigger] r.0@[i]),
            forall|i: int|
                0 <= i < r.1@.len() ==> is_usage(crate::framegraph::ios(self.decls()), i, #[trigger] r.1@[i]),
    {
        let ghost ps = crate::framegraph::ios(self.decls());
        let passes = self.passes();
        let nimg = self.image_kinds().len();
        let np = passes.len();
        let mut lives: Vec<Live> = Vec::new();
        let mut usages: Vec<ImageUsage> = Vec::new();
        let mut i: usize = 0;
        while i < nimg
            invariant
                nimg == self.images().len(),
                np == passes@.len(),
                passes@ == self.decls(),
                ps == crate::framegraph::ios(self.decls()),
                0 <= i <= nimg,
                lives@.len() == i,
                usages@.len() == i,
                forall|j: int| 0 <= j < i ==> is_lifetime(ps, j, #[trigger] lives@[j]),
                forall|j: int| 0 <= j < i ==> is_usage(ps, j, #[trigger] usages@[j]),
            decreases nimg - i,
        {
            let mut l = Live { first: 0, last: 0, init: false };
            let mut u = ImageUsage { sampled: false, attachment: false };
            let mut pi: usize = 0;
            while pi < np
                invariant
                    np == passes@.len(),
                    passes@ == self.decls(),
                    ps == crate::framegraph::ios(self.decls()),
                    0 <= pi <= np,
                    l.init <==> exists|q: int| 0 <= q < pi && #[trigger] uses_img(ps[q], i as int),
                    l.init ==> {
                        &&& l.first <= l.last < pi
                        &&& uses_img(ps[l.first as int], i as int)
                        &&& uses_img(ps[l.last as int], i as int)
                        &&& forall|q: int| 0 <= q < l.first ==> !#[trigger] uses_img(ps[q], i as int)
                        &&& forall|q: int| l.last < q < pi ==> !#[trigger] uses_img(ps[q], i as int)
                    },
                    !l.init ==> l.first == 0 && l.last == 0,
                    u.sampled <==> exists|q: int| 0 <= q < pi && #[trigger] reads_img(ps[q], i as int),
                    u.attachment <==> exists|q: int| 0 <= q < pi && #[trigger] writes_img(ps[q], i as int),
                decreases np - pi,
            {
                let p = &passes[pi];
                let rd = pass_touches(p.read_handles(), i);
                let wr = pass_touches(p.write_handles(), i);
                proof {
                    assert(ps[pi as int] == p.io());
                    assert(rd == reads_img(ps[pi as int], i as int));
                    assert(wr == writes_img(ps[pi as int], i as int));
                }
                if rd || wr {
                    if !l.init {
                        l.first = pi;
                        l.init = true;
                    }
                    l.last = pi;
                }
                if rd {
                    u.sampled = true;
                }
                if wr {
                    u.attachment = true;
                }
                proof {
                    if rd || wr {
                        assert(uses_img(ps[pi as int], i as int));
                    }
                    if l.init {
                        assert forall|q: int| l.last < q < pi + 1 implies !#[trigger] uses_img(ps[q], i as int) by {}
                    }
                    if !(exists|q: int| 0 <= q < pi && #[trigger] uses_img(ps[q], i as int)) && !(rd || wr) {
                        assert(!exists|q: int| 0 <= q < pi + 1 && #[trigger] uses_img(ps[q], i as int));
                    }
                }
                pi = pi + 1;
            }
            lives.push(l);
            usages.push(u);
            i = i + 1;
        }
        (lives, usages)
    }
}

/// A texture shared by aliased images: the descriptor and usage of the
/// image that created it.
#[derive(Copy, Clone, Debug, PartialEq, Eq, Structural)]
pub struct PoolSlot {
    pub kind: ImageKind,
    pub usage: ImageUsage,
    pub creator: usize,
}

/// Which texture every image uses, and the textures to create.
pub struct AliasPlan {
    pub slot_of: Vec<usize>,
    pub slots: Vec<PoolSlot>,
}

/// A pool entry while planning: kind, usage, lifetime of its latest image,
/// creating image, latest image.
pub type SlotState = (ImageKind, ImageUsage, Live, int, int);

/// Every use in `small` is allowed by `big`.
pub open spec fn usage_covers(big: ImageUsage, small: ImageUsage) -> bool {
    (small.sampled ==> big.sampled) && (small.attachment ==> big.attachment)
}

/// An image of kind `kind`, usage `usage` and lifetime `live` can take over
/// the pool entry `e`: same descriptor, usage allowed, and the entry's
/// latest image is dead before this one is first used.
pub open spec fn fits(e: SlotState, kind: ImageKind, usage: ImageUsage, live: Live) -> bool {
    e.0 == kind && usage_covers(e.1, usage) && e.2.last < live.first
}

/// The first entry at or after `k` that the image fits, or `pool.len()`.
pub open spec fn first_fit(pool: Seq<SlotState>, kind: ImageKind, usage: ImageUsage, live: Live, k: int) -> int
    decreases pool.len() - k,
{
    if k >= pool.len() {
        pool.len() as int
    } else if fits(pool[k], kind, usage, live) {
        k
    } else {
        first_fit(pool, kind, usage, live, k + 1)
    }
}

/// First-fit aliasing of the first `n` images, in order: each image takes the
/// first pool entry it fits (which then tracks its lifetime) or opens a new one.
pub open spec fn alias_plan(kinds: Seq<ImageKind>, usages: Seq<ImageUsage>, lives: Seq<Live>, n: nat) -> (Seq<int>, Seq<SlotState>)
    decreases n,
{
    if n == 0 {
        (Seq::empty(), Seq::empty())
    } else {
        let prev = alias_plan(kinds, usages, lives, (n - 1) as nat);
        let b = n - 1;
        let f = first_fit(prev.1, kinds[b], usages[b], lives[b], 0);
        if f < prev.1.len() {
            (prev.0.push(f), prev.1.update(f, (prev.1[f].0, prev.1[f].1, lives[b], prev.1[f].3, b)))
        } else {
            (prev.0.push(prev.1.len() as int), prev.1.push((kinds[b], usages[b], lives[b], b, b)))
        }
    }
}

proof fn lemma_first_fit(pool: Seq<SlotState>, kind: ImageKind, usage: ImageUsage, live: Live, k: int)
    requires
        0 <= k <= pool.len(),
    ensures
        k <= first_fit(pool, kind, usage, live, k) <= pool.len(),
        first_fit(pool, kind, usage, live, k) < pool.len() ==> fits(pool[first_fit(pool, kind, usage, live, k)], kind, usage, live),
        forall|j: int| k <= j < first_fit(pool, kind, usage, live, k) ==> !fits(#[trigger] pool[j], kind, usage, live),
    decreases pool.len() - k,
{
    if k < pool.len() && !fits(pool[k], kind, usage, live) {
        lemma_first_fit(pool, kind, usage, live, k + 1);
    }
}

/// The invariant of first-fit planning after `n` images.
pub open spec fn plan_inv(kinds: Seq<ImageKind>, usages: Seq<ImageUsage>, lives: Seq<Live>, n: nat) -> bool {
    let (sl, pool) = alias_plan(kinds, usages, lives, n);
    &&& sl.len() == n
    &&& forall|a: int| 0 <= a < n ==> 0 <= #[trigger] sl[a] < pool.len()
    &&& forall|j: int| 0 <= j < pool.len() ==> {
        &&& 0 <= (#[trigger] pool[j]).3 <= pool[j].4 < n
        &&& sl[pool[j].3] == j
        &&& sl[pool[j].4] == j
        &&& pool[j].0 == kinds[pool[j].3]
        &&& pool[j].1 == usages[pool[j].3]
        &&& pool[j].2 == lives[pool[j].4]
    }
    &&& forall|a: int| 0 <= a < n ==> a <= pool[#[trigger] sl[a]].4 && pool[sl[a]].3 <= a
    &&& forall|a: int| 0 <= a < n ==> pool[#[trigger] sl[a]].0 == kinds[a] && usage_covers(pool[sl[a]].1, usages[a])
    &&& forall|a: int, b: int| 0 <= a < b < n && #[trigger] sl[a] == #[trigger] sl[b] ==> lives[a].last < lives[b].first
}

proof fn lemma_plan_inv(kinds: Seq<ImageKind>, usages: Seq<ImageUsage>, lives: Seq<Live>, n: nat)
    requires
        n <= kinds.len(),
        n <= usages.len(),
        n <= lives.len(),
        forall|i: int| 0 <= i < lives.len() ==> (#[trigger] lives[i]).first <= lives[i].last,
    ensures
        plan_inv(kinds, usages, lives, n),
    decreases n,
{
    if n > 0 {
        lemma_plan_inv(kinds, usages, lives, (n - 1) as nat);
        let prev = alias_plan(kinds, usages, lives, (n - 1) as nat);
        let (sl0, pool0) = prev;
        let b = n - 1;
        lemma_first_fit(pool0, kinds[b], usages[b], lives[b], 0);
        let f = first_fit(pool0, kinds[b], usages[b], lives[b], 0);
        let (sl, pool) = alias_plan(kinds, usages, lives, n);
        if f < pool0.len() {
            assert(sl == sl0.push(f));
            assert forall|a: int, c: int| 0 <= a < c < n && #[trigger] sl[a] == #[trigger] sl[c] implies lives[a].last < lives[c].first by {
                if c == b {
                    let last = pool0[f].4;
                    assert(sl0[a] == f);
                    assert(a <= last);
                    if a < last {
                        assert(sl0[last] == f);
                        assert(lives[a].last < lives[last].first);
                        assert(lives[last].first <= lives[last].last);
                    }
                }
            }
            assert forall|a: int| 0 <= a < n implies a <= pool[#[trigger] sl[a]].4 && pool[sl[a]].3 <= a by {
                if a < b && sl0[a] != f {
                    assert(pool[sl[a]] == pool0[sl0[a]]);
                }
            }
            assert forall|a: int| 0 <= a < n implies pool[#[trigger] sl[a]].0 == kinds[a] && usage_covers(pool[sl[a]].1, usages[a]) by {
                if a < b {
                    assert(pool[sl[a]].0 == pool0[sl0[a]].0);
                    assert(pool[sl[a]].1 == pool0[sl0[a]].1);
                }
            }
            assert forall|j: int| 0 <= j < pool.len() implies {
                &&& 0 <= (#[trigger] pool[j]).3 <= pool[j].4 < n
                &&& sl[pool[j].3] == j
                &&& sl[pool[j].4] == j
                &&& pool[j].0 == kinds[pool[j].3]
                &&& pool[j].1 == usages[pool[j].3]
                &&& pool[j].2 == lives[pool[j].4]
            } by {
                if j != f {
                    assert(pool[j] == pool0[j]);
                }
            }
        } else {
            assert(sl == sl0.push(pool0.len() as int));
            assert(pool == pool0.push((kinds[b], usages[b], lives[b], b as int, b as int)));
            assert forall|a: int| 0 <= a < n implies a <= pool[#[trigger] sl[a]].4 && pool[sl[a]].3 <= a by {
                if a < b {
                    assert(pool[sl[a]] == pool0[sl0[a]]);
                }
            }
            assert forall|a: int| 0 <= a < n implies pool[#[trigger] sl[a]].0 == kinds[a] && usage_covers(pool[sl[a]].1, usages[a]) by {
                if a < b {
                    assert(pool[sl[a]] == pool0[sl0[a]]);
                }
            }
            assert forall|j: int| 0 <= j < pool.len() implies {
                &&& 0 <= (#[trigger] pool[j]).3 <= pool[j].4 < n
                &&& sl[pool[j].3] == j
                &&& sl[pool[j].4] == j
                &&& pool[j].0 == kinds[pool[j].3]
                &&& pool[j].1 == usages[pool[j].3]
                &&& pool[j].2 == lives[pool[j].4]
            } by {
                if j < pool0.len() {
                    assert(pool[j] == pool0[j]);
                }
            }
            assert forall|a: int, c: int| 0 <= a < c < n && #[trigger] sl[a] == #[trigger] sl[c] implies lives[a].last < lives[c].first by {
                if c == b {
                    assert(sl0[a] < pool0.len());
                }
            }
        }
    }
}

/// Aliasing never lets two images share a texture unsafely: an image's
/// texture has the image's descriptor and allows every use the image
/// needs, and two images that share a texture have the same descriptor and
/// the earlier one is dead before the later one is first used.
pub proof fn lemma_alias_plan_sound(kinds: Seq<ImageKind>, usages: Seq<ImageUsage>, lives: Seq<Live>)
    requires
        kinds.len() == usages.len(),
        kinds.len() == lives.len(),
        forall|i: int| 0 <= i < lives.len() ==> (#[trigger] lives[i]).first <= lives[i].last,
    ensures
        ({
            let (sl, pool) = alias_plan(kinds, usages, lives, kinds.len());
            &&& sl.len() == kinds.len()
            &&& forall|a: int| 0 <= a < sl.len() ==> 0 <= #[trigger] sl[a] < pool.len()
            &&& forall|a: int| 0 <= a < sl.len() ==> pool[#[trigger] sl[a]].0 == kinds[a] && usage_covers(pool[sl[a]].1, usages[a])
            &&& forall|a: int, b: int| 0 <= a < b < sl.len() && #[trigger] sl[a] == #[trigger] sl[b] ==> kinds[a] == kinds[b] && lives[a].last < lives[b].first
        }),
{
    lemma_plan_inv(kinds, usages, lives, kinds.len());
}

/// Image `b` is the latest image before image `a` that was given texture `t`.
pub open spec fn latest_user_before(sl: Seq<int>, t: int, a: int, b: int) -> bool {
    &&& 0 <= b < a
    &&& sl[b] == t
    &&& forall|c: int| b < c < a ==> sl[c] != t
}

/// What first-fit planning keeps besides `plan_inv`: each pool entry's
/// creator is the first image on it and its latest image the last one so
/// far; every texture numbered below an image's was opened before it; and
/// no texture numbered below an image's would have fitted it.
pub open spec fn first_fit_inv(kinds: Seq<ImageKind>, usages: Seq<ImageUsage>, lives: Seq<Live>, n: nat) -> bool {
    let (sl, pool) = alias_plan(kinds, usages, lives, n);
    &&& forall|j: int, c: int| 0 <= j < pool.len() && (#[trigger] pool[j]).4 < c < n ==> #[trigger] sl[c] != j
    &&& forall|j: int, c: int| 0 <= j < pool.len() && 0 <= c < (#[trigger] pool[j]).3 ==> #[trigger] sl[c] != j
    &&& forall|a: int, t: int| 0 <= a < n && 0 <= t < #[trigger] sl[a] ==> (#[trigger] pool[t]).3 < a
    &&& forall|a: int, t: int, b: int|
        0 <= a < n && 0 <= t < #[trigger] sl[a] && #[trigger] latest_user_before(sl, t, a, b) ==> !(pool[t].0 == kinds[a]
            && usage_covers(pool[t].1, usages[a]) && lives[b].last < lives[a].first)
}

proof fn lemma_first_fit_inv(kinds: Seq<ImageKind>, usages: Seq<ImageUsage>, lives: Seq<Live>, n: nat)
    requires
        n <= kinds.len(),
        n <= usages.len(),
        n <= lives.len(),
        forall|i: int| 0 <= i < lives.len() ==> (#[trigger] lives[i]).first <= lives[i].last,
    ensures
        plan_inv(kinds, usages, lives, n),
        first_fit_inv(kinds, usages, lives, n),
    decreases n,
{
    lemma_plan_inv(kinds, usages, lives, n);
    if n > 0 {
        lemma_first_fit_inv(kinds, usages, lives, (n - 1) as nat);
        let (sl0, pool0) = alias_plan(kinds, usages, lives, (n - 1) as nat);
        let b = n - 1;
        lemma_first_fit(pool0, kinds[b], usages[b], lives[b], 0);
        let f = first_fit(pool0, kinds[b], usages[b], lives[b], 0);
        let (sl, pool) = alias_plan(kinds, usages, lives, n);
        assert(forall|a: int| 0 <= a < b ==> sl[a] == sl0[a]);
        assert(forall|t: int| 0 <= t < pool0.len() ==> (#[trigger] pool[t]).0 == pool0[t].0 && pool[t].1 == pool0[t].1
            && pool[t].3 == pool0[t].3);
        assert forall|j: int, c: int| 0 <= j < pool.len() && (#[trigger] pool[j]).4 < c < n implies #[trigger] sl[c] != j by {
            if j < pool0.len() && j != f {
                assert(pool[j] == pool0[j]);
                if c < b {
                    assert(sl0[c] != j);
                }
            }
        }
        assert forall|j: int, c: int| 0 <= j < pool.len() && 0 <= c < (#[trigger] pool[j]).3 implies #[trigger] sl[c] != j by {
            if j < pool0.len() {
                assert(pool0[j].3 < b);
                assert(sl0[c] != j);
            } else {
                assert(sl0[c] < pool0.len());
            }
        }
        assert forall|a: int, t: int| 0 <= a < n && 0 <= t < #[trigger] sl[a] implies (#[trigger] pool[t]).3 < a by {
            if a == b {
                assert(pool0[t].3 <= pool0[t].4 && pool0[t].4 < b);
            } else {
                assert(pool0[t].3 < a);
            }
        }
        assert forall|a: int, t: int, c: int|
            0 <= a < n && 0 <= t < #[trigger] sl[a] && #[trigger] latest_user_before(sl, t, a, c) implies !(pool[t].0
                == kinds[a] && usage_covers(pool[t].1, usages[a]) && lives[c].last < lives[a].first) by {
            if a == b {
                let last = pool0[t].4;
                assert(sl0[last] == t);
                if c < last {
                    assert(sl[last] == t);
                } else if c > last {
                    assert(sl0[c] != t);
                }
                assert(c == last);
                assert(!fits(pool0[t], kinds[b], usages[b], lives[b]));
            } else {
                assert(latest_user_before(sl0, t, a, c));
            }
        }
    }
}

/// First-fit aliasing is also complete. Every texture is created by the
/// first image that uses it (its `creator`) and takes that image's
/// descriptor and usage; an image gets texture `t` only after every
/// lower-numbered texture has been created by an earlier image; and none of
/// those lower textures would have fitted it: each has another descriptor,
/// lacks a use the image needs, or its latest earlier image is still alive
/// when the image is first used.
pub proof fn lemma_alias_plan_first_fit(kinds: Seq<ImageKind>, usages: Seq<ImageUsage>, lives: Seq<Live>)
    requires
        kinds.len() == usages.len(),
        kinds.len() == lives.len(),
        forall|i: int| 0 <= i < lives.len() ==> (#[trigger] lives[i]).first <= lives[i].last,
    ensures
        ({
            let (sl, pool) = alias_plan(kinds, usages, lives, kinds.len());
            &&& forall|t: int| #![trigger pool[t]] 0 <= t < pool.len() ==> {
                let c = pool[t].3;
                &&& 0 <= c < sl.len()
                &&& sl[c] == t
                &&& pool[t].0 == kinds[c]
                &&& pool[t].1 == usages[c]
                &&& forall|d: int| 0 <= d < c ==> #[trigger] sl[d] != t
            }
            &&& forall|a: int, t: int| #![trigger sl[a], pool[t]] 0 <= a < sl.len() && 0 <= t < sl[a] ==> pool[t].3 < a
            &&& forall|a: int, t: int, b: int|
                0 <= a < sl.len() && 0 <= t < #[trigger] sl[a] && #[trigger] latest_user_before(sl, t, a, b) ==> !(
                pool[t].0 == kinds[a] && usage_covers(pool[t].1, usages[a]) && lives[b].last < lives[a].first)
        }),
{
    lemma_first_fit_inv(kinds, usages, lives, kinds.len());
}

/// Lifetimes produced by `image_lifetimes` start no later than they end.
pub proof fn lemma_lifetimes_ordered(ps: Seq<PassIo>, i: int, l: Live)
    requires
        is_lifetime(ps, i, l),
    ensures
        l.first <= l.last,
{
}

/// Plan the textures for a graph's images with first-fit aliasing: images
/// are taken in order and each one reuses the first texture it fits (same
/// descriptor, usage allowed, previous user dead before it starts) or gets
/// a new texture.
pub fn plan_aliasing(kinds: &Vec<ImageKind>, usages: &Vec<ImageUsage>, lives: &Vec<Live>) -> (r: AliasPlan)
    requires
        kinds@.len() == usages@.len(),
        kinds@.len() == lives@.len(),
    ensures
        r.slot_of@.len() == kinds@.len(),
        r.slots@.len() == alias_plan(kinds@, usages@, lives@, kinds@.len()).1.len(),
        forall|a: int| 0 <= a < r.slot_of@.len() ==> #[trigger] r.slot_of@[a] == alias_plan(kinds@, usages@, lives@, kinds@.len()).0[a],
        forall|j: int| 0 <= j < r.slots@.len() ==> {
            let e = alias_plan(kinds@, usages@, lives@, kinds@.len()).1[j];
            &&& (#[trigger] r.slots@[j]).kind == e.0
            &&& r.slots@[j].usage == e.1
            &&& r.slots@[j].creator == e.3
        },
{
    let n = kinds.len();
    let mut slot_of: Vec<usize> = Vec::new();
    let mut slots: Vec<PoolSlot> = Vec::new();
    let mut slot_lives: Vec<Live> = Vec::new();
    let mut ix: usize = 0;
    while ix < n
        invariant
            n == kinds@.len(),
            n == usages@.len(),
            n == lives@.len(),
            0 <= ix <= n,
            slot_of@.len() == ix,
            alias_plan(kinds@, usages@, lives@, ix as nat).0.len() == ix,
            slots@.len() == slot_lives@.len(),
            slots@.len() == alias_plan(kinds@, usages@, lives@, ix as nat).1.len(),
            forall|a: int| 0 <= a < ix ==> #[trigger] slot_of@[a] == alias_plan(kinds@, usages@, lives@, ix as nat).0[a],
            forall|j: int| 0 <= j < slots@.len() ==> {
                let e = alias_plan(kinds@, usages@, lives@, ix as nat).1[j];
                &&& (#[trigger] slots@[j]).kind == e.0
                &&& slots@[j].usage == e.1
                &&& slots@[j].creator == e.3
                &&& slot_lives@[j] == e.2
            },
        decreases n - ix,
    {
        let ghost prev = alias_plan(kinds@, usages@, lives@, ix as nat);
        let kind = kinds[ix];
        let usage = usages[ix];
        let live = lives[ix];
        let ns = slots.len();
        let mut j: usize = 0;
        let mut found = false;
        while j < ns
            invariant_except_break
                ns == slots@.len(),
                0 <= j <= ns,
                first_fit(prev.1, kind, usage, live, 0) == first_fit(prev.1, kind, usage, live, j as int),
                !found,
            invariant
                ns == slots@.len(),
                ns == slot_lives@.len(),
                ns == prev.1.len(),
                forall|jj: int| 0 <= jj < slots@.len() ==> {
                    let e = prev.1[jj];
                    &&& (#[trigger] slots@[jj]).kind == e.0
                    &&& slots@[jj].usage == e.1
                    &&& slots@[jj].creator == e.3
                    &&& slot_lives@[jj] == e.2
                },
            ensures
                found ==> j < ns && first_fit(prev.1, kind, usage, live, 0) == j,
                !found ==> first_fit(prev.1, kind, usage, live, 0) == ns,
            decreases ns - j,
        {
            let e = slots[j];
            let el = slot_lives[j];
            let same = e.kind == kind && (!usage.sampled || e.usage.sampled) && (!usage.attachment || e.usage.attachment);
            if same && el.last < live.first {
                found = true;
                break;
            }
            j = j + 1;
        }
        if found {
            slot_lives.set(j, live);
            slot_of.push(j);
            proof {
                let cur = alias_plan(kinds@, usages@, lives@, (ix + 1) as nat);
                assert(cur.0 == prev.0.push(j as int));
                assert forall|jj: int| 0 <= jj < slots@.len() implies {
                    let e = cur.1[jj];
                    &&& (#[trigger] slots@[jj]).kind == e.0
                    &&& slots@[jj].usage == e.1
                    &&& slots@[jj].creator == e.3
                    &&& slot_lives@[jj] == e.2
                } by {}
            }
        } else {
            slot_of.push(ns);
            slots.push(PoolSlot { kind, usage, creator: ix });
            slot_lives.push(live);
            proof {
                let cur = alias_plan(kinds@, usages@, lives@, (ix + 1) as nat);
                assert(cur.0 == prev.0.push(ns as int));
                assert forall|jj: int| 0 <= jj < slots@.len() implies {
                    let e = cur.1[jj];
                    &&& (#[trigger] slots@[jj]).kind == e.0
                    &&& slots@[jj].usage == e.1
                    &&& slots@[jj].creator == e.3
                    &&& slot_lives@[jj] == e.2
                } by {}
            }
        }
        ix = ix + 1;
    }
    AliasPlan { slot_of, slots }
}

} // verus!
