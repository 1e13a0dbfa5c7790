//! Frame-graph core: image declarations, pass declarations with their
//! read/write sets, and compilation with hazard validation.
//!
//! A pass carries an execution payload `E` (the recorder of its GPU work)
//! that the graph keeps in declaration order without looking at it.
use vstd::prelude::*;
use std::marker::PhantomData;

verus! {

broadcast use vstd::std_specs::hash::group_hash_axioms;

/// A typed handle to a declared resource (its index in declaration order).
#[derive(Debug, PartialEq, Eq, Hash)]
pub struct Handle<T>(u32, PhantomData<T>);

impl<T> Clone for Handle<T> {
    fn clone(&self) -> (r: Self)
        ensures
            r == *self,
    {
        Handle(self.0, PhantomData)
    }
}

impl<T> Copy for Handle<T> {

}

/// How a pass uses a resource.
#[derive(Copy, Clone, Debug, PartialEq, Eq, Hash, Structural)]
pub enum Access {
    Read,
    Write,
}

/// Tag for image resources.
#[derive(Copy, Clone, Debug, PartialEq, Eq, Hash, Structural)]
pub struct Img;

impl<T> Handle<T> {
    /// The index of the resource this handle names.
    pub closed spec fn id(self) -> u32 {
        self.0
    }

    /// The index of the resource this handle names, for indexing per-image tables.
    pub fn index(&self) -> (r: usize)
        ensures
            r == self.id(),
    {
        self.0 as usize
    }
}

/// Width and height of an image, in texels.
#[derive(Copy, Clone, Debug, PartialEq, Eq, Hash, Structural)]
pub struct Size2D {
    pub x: u32,
    pub y: u32,
}

/// Description of a declared image: its format code, size and sample count.
#[derive(Copy, Clone, Debug, PartialEq, Eq, Structural)]
pub enum ImageKind {
    Color { format: u32, size: Size2D, msaa: u32 },
    Depth { format: u32, size: Size2D, msaa: u32 },
}

/// The declaration of one pass: its name, the images it reads and writes,
/// and its execution payload.
pub struct PassDecl<E> {
    name: &'static str,
    reads: Vec<Handle<Img>>,
    writes: Vec<Handle<Img>>,
    exec_fn: E,
}

/// A pass as a mathematical value: name, ids of images read, ids of images written.
pub type PassIo = (Seq<char>, Seq<u32>, Seq<u32>);

/// The ids of a sequence of handles.
pub open spec fn handle_ids(hs: Seq<Handle<Img>>) -> Seq<u32> {
    hs.map_values(|h: Handle<Img>| h.id())
}

impl<E> PassDecl<E> {
    /// Name and read/write sets of the pass.
    pub closed spec fn io(&self) -> PassIo {
        (self.name@, handle_ids(self.reads@), handle_ids(self.writes@))
    }

    /// The execution payload of the pass.
    pub closed spec fn payload(&self) -> E {
        self.exec_fn
    }

    /// Declare that the pass samples `h`.
    pub fn reads(&mut self, h: Handle<Img>) -> (r: &mut Self)
        ensures
            r.io() == (old(self).io().0, old(self).io().1.push(h.id()), old(self).io().2),
            r.payload() == old(self).payload(),
            *final(self) == *final(r),
    {
        self.reads.push(h);
        proof {
            assert(handle_ids(self.reads@) =~= handle_ids(old(self).reads@).push(h.id()));
        }
        self
    }

    /// Declare that the pass renders into `h`.
    pub fn writes(&mut self, h: Handle<Img>) -> (r: &mut Self)
        ensures
            r.io() == (old(self).io().0, old(self).io().1, old(self).io().2.push(h.id())),
            r.payload() == old(self).payload(),
            *final(self) == *final(r),
    {
        self.writes.push(h);
        proof {
            assert(handle_ids(self.writes@) =~= handle_ids(old(self).writes@).push(h.id()));
        }
        self
    }

    /// Handles of the images the pass reads, in declaration order.
    pub fn read_handles(&self) -> (r: &Vec<Handle<Img>>)
        ensures
            handle_ids(r@) == self.io().1,
    {
        &self.reads
    }

    /// Handles of the images the pass writes, in declaration order.
    pub fn write_handles(&self) -> (r: &Vec<Handle<Img>>)
        ensures
            handle_ids(r@) == self.io().2,
    {
        &self.writes
    }

    /// The pass's name.
    pub fn name(&self) -> (r: &'static str)
        ensures
            r@ == self.io().0,
    {
        self.name
    }

    /// The pass's execution payload.
    pub fn exec_fn(&self) -> (r: &E)
        ensures
            *r == self.payload(),
    {
        &self.exec_fn
    }
}

/// Collects image and pass declarations in order.
pub struct GraphBuilder<E> {
    images: Vec<ImageKind>,
    passes: Vec<PassDecl<E>>,
}

impl<E> GraphBuilder<E> {
    /// Declared images, in declaration order.
    pub closed spec fn images(&self) -> Seq<ImageKind> {
        self.images@
    }

    /// Declared passes, in declaration order.
    pub closed spec fn decls(&self) -> Seq<PassDecl<E>> {
        self.passes@
    }

    /// A builder with no declaration.
    pub fn new() -> (r: Self)
        ensures
            r.images() == Seq::<ImageKind>::empty(),
            r.decls() == Seq::<PassDecl<E>>::empty(),
    {
        Self { images: Vec::new(), passes: Vec::new() }
    }

    /// Declare an image; the handle carries its position (as a `u32`).
    pub fn image(&mut self, kind: ImageKind) -> (h: Handle<Img>)
        ensures
            final(self).images() == old(self).images().push(kind),
            final(self).decls() == old(self).decls(),
            h.id() == old(self).images().len() as u32,
    {
        let id = self.images.len() as u32;
        self.images.push(kind);
        Handle(id, PhantomData)
    }

    /// Declare a pass that reads and writes nothing yet; returns it so that
    /// its reads and writes can be declared.
    pub fn pass(&mut self, name: &'static str, f: E) -> (r: &mut PassDecl<E>)
        ensures
            r.io() == (name@, Seq::<u32>::empty(), Seq::<u32>::empty()),
            r.payload() == f,
            final(self).images() == old(self).images(),
            final(self).decls() == old(self).decls().push(*final(r)),
    {
        let d = PassDecl { name, reads: Vec::new(), writes: Vec::new(), exec_fn: f };
        proof {
            assert(handle_ids(d.reads@) =~= Seq::<u32>::empty());
            assert(handle_ids(d.writes@) =~= Seq::<u32>::empty());
        }
        self.passes.push(d);
        let i = self.passes.len() - 1;
        &mut self.passes[i]
    }
}

/// The pass writes an image that it also reads.
pub open spec fn rw_hazard(p: PassIo) -> bool {
    exists|i: int, j: int| 0 <= i < p.2.len() && 0 <= j < p.1.len() && #[trigger] p.2[i] == #[trigger] p.1[j]
}

/// Some pass before position `k` reads image `id`.
pub open spec fn read_before(ps: Seq<PassIo>, k: int, id: u32) -> bool {
    exists|m: int| 0 <= m < k && #[trigger] ps[m].1.contains(id)
}

/// Pass `k` writes an image that an earlier pass read.
pub open spec fn war_hazard(ps: Seq<PassIo>, k: int) -> bool {
    exists|i: int| 0 <= i < ps[k].2.len() && read_before(ps, k, #[trigger] ps[k].2[i])
}

/// No pass writes an image it reads, and no image is written after it was read.
pub open spec fn hazard_free(ps: Seq<PassIo>) -> bool {
    &&& forall|k: int| 0 <= k < ps.len() ==> !rw_hazard(#[trigger] ps[k])
    &&& forall|k: int| 0 <= k < ps.len() ==> !#[trigger] war_hazard(ps, k)
}

/// The read/write sets of a sequence of declarations.
pub open spec fn ios<E>(ds: Seq<PassDecl<E>>) -> Seq<PassIo> {
    ds.map_values(|d: PassDecl<E>| d.io())
}

/// Why a set of declarations cannot be compiled.
#[derive(Copy, Clone, Debug, PartialEq, Eq)]
pub enum GraphError {
    /// The named pass reads and writes one image.
    ReadWriteSameImage { pass: &'static str },
    /// The named pass writes an image that an earlier pass read.
    WriteAfterRead { pass: &'static str },
}

/// A validated graph: declarations in order, ready to execute.
pub struct Graph<E> {
    pub names: Vec<&'static str>,
    images: Vec<ImageKind>,
    passes: Vec<PassDecl<E>>,
}

impl<E> Graph<E> {
    /// The recorded pass names, in execution order.
    pub closed spec fn pass_names(&self) -> Seq<&'static str> {
        self.names@
    }

    /// Declared images, in declaration order.
    pub closed spec fn images(&self) -> Seq<ImageKind> {
        self.images@
    }

    /// Passes, in declaration order.
    pub closed spec fn decls(&self) -> Seq<PassDecl<E>> {
        self.passes@
    }

    /// The recorded pass names, in execution order (the `names` field).
    pub fn pass_name_list(&self) -> (r: &Vec<&'static str>)
        ensures
            r@ == self.pass_names(),
    {
        &self.names
    }

    /// The graph's images, as a table to index by handle.
    pub fn image_kinds(&self) -> (r: &Vec<ImageKind>)
        ensures
            r@ == self.images(),
    {
        &self.images
    }

    /// The graph's passes in execution order.
    pub fn passes(&self) -> (r: &Vec<PassDecl<E>>)
        ensures
            r@ == self.decls(),
    {
        &self.passes
    }

    /// Give up the graph, keeping its passes in execution order.
    pub fn into_passes(self) -> (r: Vec<PassDecl<E>>)
        ensures
            r@ == self.decls(),
    {
        self.passes
    }
}

/// Whether `id` occurs among `hs`.
pub(crate) fn handles_contain(hs: &Vec<Handle<Img>>, id: u32) -> (r: bool)
    ensures
        r == handle_ids(hs@).contains(id),
{
    let n = hs.len();
    let mut i: usize = 0;
    while i < n
        invariant
            n == hs@.len(),
            0 <= i <= n,
            forall|k: int| 0 <= k < i ==> handle_ids(hs@)[k] != id,
        decreases n - i,
    {
        if hs[i].0 == id {
            proof {
                assert(handle_ids(hs@)[i as int] == id);
            }
            return true;
        }
        i = i + 1;
    }
    proof {
        if handle_ids(hs@).contains(id) {
            let k = choose|k: int| 0 <= k < handle_ids(hs@).len() && handle_ids(hs@)[k] == id;
        }
    }
    false
}

/// Whether the pass writes an image it also reads.
fn pass_has_rw_hazard<E>(p: &PassDecl<E>) -> (r: bool)
    ensures
        r == rw_hazard(p.io()),
{
    let n = p.writes.len();
    let mut i: usize = 0;
    let ghost io = p.io();
    while i < n
        invariant
            n == p.writes@.len(),
            io == p.io(),
            0 <= i <= n,
            forall|a: int, b: int|
                0 <= a < i && 0 <= b < io.1.len() ==> #[trigger] io.2[a] != #[trigger] io.1[b],
        decreases n - i,
    {
        let w = p.writes[i].0;
        if handles_contain(&p.reads, w) {
            proof {
                let b = choose|b: int| 0 <= b < io.1.len() && io.1[b] == w;
                assert(io.2[i as int] == io.1[b]);
            }
            return true;
        }
        proof {
            assert forall|a: int, b: int|
                0 <= a < i + 1 && 0 <= b < io.1.len() implies #[trigger] io.2[a] != #[trigger] io.1[b] by {
                if a == i {
                    if io.2[a] == io.1[b] {
                        assert(io.1.contains(w));
                    }
                }
            }
        }
        i = i + 1;
    }
    false
}

/// Validate declarations: the first pass (in order) that reads and writes
/// one image, else the first pass that writes an image an earlier pass read;
/// `None` when there is no hazard.
fn find_hazard<E>(passes: &Vec<PassDecl<E>>) -> (r: Option<GraphError>)
    ensures
        r is None <==> hazard_free(ios(passes@)),
        r matches Some(GraphError::ReadWriteSameImage { pass }) ==> exists|k: int|
            0 <= k < passes@.len() && rw_hazard(#[trigger] ios(passes@)[k]) && ios(passes@)[k].0
                == pass@ && forall|j: int| 0 <= j < k ==> !rw_hazard(#[trigger] ios(passes@)[j]),
        r matches Some(GraphError::WriteAfterRead { pass }) ==> (forall|k: int|
            0 <= k < passes@.len() ==> !rw_hazard(#[trigger] ios(passes@)[k])) && exists|k: int|
            0 <= k < passes@.len() && #[trigger] war_hazard(ios(passes@), k) && ios(passes@)[k].0
                == pass@ && forall|j: int| 0 <= j < k ==> !#[trigger] war_hazard(ios(passes@), j),
{
    let ghost ps = ios(passes@);
    let n = passes.len();
    let mut k: usize = 0;
    while k < n
        invariant
            n == passes@.len(),
            ps == ios(passes@),
            0 <= k <= n,
            forall|j: int| 0 <= j < k ==> !rw_hazard(#[trigger] ps[j]),
        decreases n - k,
    {
        if pass_has_rw_hazard(&passes[k]) {
            proof {
                assert(ps[k as int] == passes@[k as int].io());
                assert(rw_hazard(ps[k as int]));
                assert(ps[k as int].0 == passes@[k as int].name@);
            }
            return Some(GraphError::ReadWriteSameImage { pass: passes[k].name });
        }
        k = k + 1;
    }
    // Cross-pass monotonic rule: no write after any read of the same image.
    let mut seen_read: std::collections::HashSet<u32> = std::collections::HashSet::new();
    let mut k: usize = 0;
    while k < n
        invariant
            n == passes@.len(),
            ps == ios(passes@),
            0 <= k <= n,
            forall|j: int| 0 <= j < n ==> !rw_hazard(#[trigger] ps[j]),
            forall|j: int| 0 <= j < k ==> !#[trigger] war_hazard(ps, j),
            forall|id: u32| seen_read@.contains(id) <==> read_before(ps, k as int, id),
        decreases n - k,
    {
        let p = &passes[k];
        let nw = p.writes.len();
        let mut i: usize = 0;
        while i < nw
            invariant
                n == passes@.len(),
                ps == ios(passes@),
                0 <= k < n,
                nw == p.writes@.len(),
                *p == passes@[k as int],
                0 <= i <= nw,
                forall|j: int| 0 <= j < n ==> !rw_hazard(#[trigger] ps[j]),
                forall|j: int| 0 <= j < k ==> !#[trigger] war_hazard(ps, j),
                forall|id: u32| seen_read@.contains(id) <==> read_before(ps, k as int, id),
                forall|a: int| 0 <= a < i ==> !read_before(ps, k as int, #[trigger] ps[k as int].2[a]),
            decreases nw - i,
        {
            let w = p.writes[i].0;
            proof {
                assert(ps[k as int].2[i as int] == w);
            }
            if seen_read.contains(&w) {
                proof {
                    assert(ps[k as int] == passes@[k as int].io());
                    assert(war_hazard(ps, k as int));
                    assert(ps[k as int].0 == p.name@);
                }
                return Some(GraphError::WriteAfterRead { pass: p.name });
            }
            i = i + 1;
        }
        proof {
            assert(!war_hazard(ps, k as int));
        }
        let nr = p.reads.len();
        let mut i: usize = 0;
        while i < nr
            invariant
                n == passes@.len(),
                ps == ios(passes@),
                0 <= k < n,
                nr == p.reads@.len(),
                *p == passes@[k as int],
                0 <= i <= nr,
                forall|j: int| 0 <= j < n ==> !rw_hazard(#[trigger] ps[j]),
                forall|j: int| 0 <= j <= k ==> !#[trigger] war_hazard(ps, j),
                forall|id: u32|
                    seen_read@.contains(id) <==> (read_before(ps, k as int, id) || exists|a: int|
                        0 <= a < i && #[trigger] ps[k as int].1[a] == id),
            decreases nr - i,
        {
            let r = p.reads[i].0;
            proof {
                assert(ps[k as int].1[i as int] == r);
            }
            seen_read.insert(r);
            i = i + 1;
        }
        proof {
            assert forall|id: u32| seen_read@.contains(id) <==> read_before(ps, k + 1, id) by {
                if seen_read@.contains(id) {
                    if !read_before(ps, k as int, id) {
                        let a = choose|a: int| 0 <= a < nr && #[trigger] ps[k as int].1[a] == id;
                        assert(ps[k as int].1.contains(id));
                    } else {
                        let m = choose|m: int| 0 <= m < k && #[trigger] ps[m].1.contains(id);
                    }
                }
                if read_before(ps, k + 1, id) {
                    let m = choose|m: int| 0 <= m < k + 1 && #[trigger] ps[m].1.contains(id);
                    if m == k {
                        let a = choose|a: int| 0 <= a < ps[k as int].1.len() && ps[k as int].1[a] == id;
                    }
                }
            }
        }
        k = k + 1;
    }
    None
}

impl<E> Graph<E> {
    /// Compile validated declarations, keeping declaration order. Declarations
    /// with a hazard are refused by the precondition; `try_compile` reports them.
    pub fn compile(b: GraphBuilder<E>) -> (g: Self)
        requires
            hazard_free(ios(b.decls())),
        ensures
            g.images() == b.images(),
            g.decls() == b.decls(),
            g.pass_names().len() == b.decls().len(),
            forall|i: int| 0 <= i < g.pass_names().len() ==> (#[trigger] g.pass_names()[i])@ == ios(b.decls())[i].0,
    {
        Self::assemble(b)
    }

    /// Keep the declarations in order and record the pass names.
    fn assemble(b: GraphBuilder<E>) -> (g: Self)
        ensures
            g.images() == b.images(),
            g.decls() == b.decls(),
            g.pass_names().len() == b.decls().len(),
            forall|i: int| 0 <= i < g.pass_names().len() ==> (#[trigger] g.pass_names()[i])@ == ios(b.decls())[i].0,
    {
        let n = b.passes.len();
        let mut names: Vec<&'static str> = Vec::new();
        let mut i: usize = 0;
        while i < n
            invariant
                n == b.passes@.len(),
                0 <= i <= n,
                names@.len() == i,
                forall|j: int| 0 <= j < i ==> (#[trigger] names@[j])@ == ios(b.passes@)[j].0,
            decreases n - i,
        {
            names.push(b.passes[i].name);
            i = i + 1;
        }
        Graph { names, images: b.images, passes: b.passes }
    }

    /// Validate and compile declarations: the first pass (in declaration order)
    /// that reads and writes one image is reported; failing that, the first pass
    /// that writes an image an earlier pass read; otherwise the graph keeps the
    /// images and passes in declaration order.
    pub fn try_compile(b: GraphBuilder<E>) -> (r: Result<Self, GraphError>)
        ensures
            r is Ok <==> hazard_free(ios(b.decls())),
            r matches Ok(g) ==> {
                &&& g.images() == b.images()
                &&& g.decls() == b.decls()
                &&& g.pass_names().len() == b.decls().len()
                &&& forall|i: int| 0 <= i < g.pass_names().len() ==> (#[trigger] g.pass_names()[i])@ == ios(b.decls())[i].0
            },
            r matches Err(GraphError::ReadWriteSameImage { pass }) ==> exists|k: int|
                0 <= k < b.decls().len() && rw_hazard(#[trigger] ios(b.decls())[k]) && ios(b.decls())[k].0
                    == pass@ && forall|j: int| 0 <= j < k ==> !rw_hazard(#[trigger] ios(b.decls())[j]),
            r matches Err(GraphError::WriteAfterRead { pass }) ==> (forall|k: int|
                0 <= k < b.decls().len() ==> !rw_hazard(#[trigger] ios(b.decls())[k])) && exists|k: int|
                0 <= k < b.decls().len() && #[trigger] war_hazard(ios(b.decls()), k) && ios(b.decls())[k].0
                    == pass@ && forall|j: int| 0 <= j < k ==> !#[trigger] war_hazard(ios(b.decls()), j),
    {
        proof {
            assert(b.decls() == b.passes@);
        }
        if let Some(e) = find_hazard(&b.passes) {
            return Err(e);
        }
        Ok(Self::assemble(b))
    }
}

} // verus!
