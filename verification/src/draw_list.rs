//! CPU-only draw list builder and batch grouper.
//!
//! Pure data structures for deterministic grouping of draws by a key
//! (e.g., pipeline/material/mesh). Rendering integration can consume
//! the produced batches to minimize state changes.
use vstd::prelude::*;

verus! {

/// Identifies the GPU state a draw needs: pipeline, material and mesh.
#[derive(Copy, Clone, Debug, PartialEq, Eq, Hash, Structural)]
pub struct DrawKey {
    pub pipeline_id: u32,
    pub material_id: u32,
    pub mesh_id: u32,
}

/// One recorded draw.
#[derive(Copy, Clone, Debug, PartialEq, Eq, Structural)]
pub struct DrawItem {
    pub key: DrawKey,
    pub index_count: u32,
    pub instance_count: u32,
}

/// A run of consecutive draws sharing one key, with their counts summed.
#[derive(Copy, Clone, Debug, PartialEq, Eq, Structural)]
pub struct DrawBatch {
    pub key: DrawKey,
    pub index_count: u32,
    pub instance_count: u32,
}

/// An ordered list of draws.
pub struct DrawList {
    items: Vec<DrawItem>,
}

/// A batch as a mathematical value: key, summed index count, summed instance count.
pub type RunSpec = (DrawKey, int, int);

/// The batches of `items`: consecutive items with equal keys merged into one
/// run whose counts are the sums of the merged items' counts.
pub open spec fn runs(items: Seq<DrawItem>) -> Seq<RunSpec>
    decreases items.len(),
{
    if items.len() == 0 {
        Seq::empty()
    } else {
        let prev = runs(items.drop_last());
        let it = items.last();
        if prev.len() > 0 && prev.last().0 == it.key {
            prev.update(
                prev.len() - 1,
                (it.key, prev.last().1 + it.index_count, prev.last().2 + it.instance_count),
            )
        } else {
            prev.push((it.key, it.index_count as int, it.instance_count as int))
        }
    }
}

/// Every run's summed counts fit in a `u32`.
pub open spec fn runs_fit_u32(items: Seq<DrawItem>) -> bool {
    forall|k: int|
        0 <= k < runs(items).len() ==> #[trigger] runs(items)[k].1 <= u32::MAX && runs(
            items,
        )[k].2 <= u32::MAX
}

/// `b` is the executable form of the run `r`.
pub open spec fn batch_matches(b: DrawBatch, r: RunSpec) -> bool {
    b.key == r.0 && b.index_count == r.1 && b.instance_count == r.2
}

/// Sum of the index counts of a sequence of items.
pub open spec fn sum_item_indices(items: Seq<DrawItem>) -> int
    decreases items.len(),
{
    if items.len() == 0 {
        0
    } else {
        sum_item_indices(items.drop_last()) + items.last().index_count
    }
}

/// Sum of the instance counts of a sequence of items.
pub open spec fn sum_item_instances(items: Seq<DrawItem>) -> int
    decreases items.len(),
{
    if items.len() == 0 {
        0
    } else {
        sum_item_instances(items.drop_last()) + items.last().instance_count
    }
}

/// Sum of the index counts of a sequence of runs.
pub open spec fn sum_run_indices(rs: Seq<RunSpec>) -> int
    decreases rs.len(),
{
    if rs.len() == 0 {
        0
    } else {
        sum_run_indices(rs.drop_last()) + rs.last().1
    }
}

/// Sum of the instance counts of a sequence of runs.
pub open spec fn sum_run_instances(rs: Seq<RunSpec>) -> int
    decreases rs.len(),
{
    if rs.len() == 0 {
        0
    } else {
        sum_run_instances(rs.drop_last()) + rs.last().2
    }
}

proof fn lemma_sum_run_update_last(rs: Seq<RunSpec>, r: RunSpec)
    requires
        rs.len() > 0,
    ensures
        sum_run_indices(rs.update(rs.len() - 1, r)) == sum_run_indices(rs) - rs.last().1 + r.1,
        sum_run_instances(rs.update(rs.len() - 1, r)) == sum_run_instances(rs) - rs.last().2
            + r.2,
{
    let u = rs.update(rs.len() - 1, r);
    assert(u.drop_last() =~= rs.drop_last());
}

proof fn lemma_sum_run_push(rs: Seq<RunSpec>, r: RunSpec)
    ensures
        sum_run_indices(rs.push(r)) == sum_run_indices(rs) + r.1,
        sum_run_instances(rs.push(r)) == sum_run_instances(rs) + r.2,
{
    assert(rs.push(r).drop_last() =~= rs);
}

/// Batching loses no work: the batches' index and instance counts add up to
/// exactly the items' index and instance counts.
pub proof fn lemma_batches_preserve_totals(items: Seq<DrawItem>)
    ensures
        sum_run_indices(runs(items)) == sum_item_indices(items),
        sum_run_instances(runs(items)) == sum_item_instances(items),
    decreases items.len(),
{
    if items.len() > 0 {
        let prev = runs(items.drop_last());
        lemma_batches_preserve_totals(items.drop_last());
        let it = items.last();
        if prev.len() > 0 && prev.last().0 == it.key {
            lemma_sum_run_update_last(
                prev,
                (it.key, prev.last().1 + it.index_count, prev.last().2 + it.instance_count),
            );
        } else {
            lemma_sum_run_push(prev, (it.key, it.index_count as int, it.instance_count as int));
        }
    }
}

/// Batching merges maximally: two neighbouring batches never share a key,
/// there are never more batches than items, and there is a batch exactly
/// when there is an item.
pub proof fn lemma_batches_maximal(items: Seq<DrawItem>)
    ensures
        forall|k: int|
            0 <= k < runs(items).len() - 1 ==> #[trigger] runs(items)[k].0 != runs(items)[k
                + 1].0,
        runs(items).len() <= items.len(),
        (runs(items).len() == 0) == (items.len() == 0),
    decreases items.len(),
{
    if items.len() > 0 {
        lemma_batches_maximal(items.drop_last());
    }
}

/// Batching keeps the order of the keys: the last batch carries the last
/// item's key, and the batches of a list with one more item extend the
/// batches of the shorter list (same earlier batches, in the same order).
pub proof fn lemma_batches_stable(items: Seq<DrawItem>)
    requires
        items.len() > 0,
    ensures
        runs(items).last().0 == items.last().key,
        runs(items.drop_last()).len() <= runs(items).len(),
        forall|k: int|
            0 <= k < runs(items.drop_last()).len() - 1 ==> #[trigger] runs(items)[k] == runs(
                items.drop_last(),
            )[k],
        forall|k: int|
            0 <= k < runs(items.drop_last()).len() ==> #[trigger] runs(items)[k].0 == runs(
                items.drop_last(),
            )[k].0,
{
}

/// A prefix's runs agree with the runs of a longer prefix: same keys, the
/// earlier runs are equal and the last run's counts can only grow.
proof fn lemma_runs_prefix(items: Seq<DrawItem>, i: int, j: int)
    requires
        0 <= i <= j <= items.len(),
    ensures
        runs(items.take(i)).len() <= runs(items.take(j)).len(),
        forall|k: int|
            0 <= k < runs(items.take(i)).len() - 1 ==> #[trigger] runs(items.take(i))[k] == runs(
                items.take(j),
            )[k],
        forall|k: int|
            0 <= k < runs(items.take(i)).len() ==> #[trigger] runs(items.take(i))[k].0 == runs(
                items.take(j),
            )[k].0,
        runs(items.take(i)).len() > 0 ==> {
            let a = runs(items.take(i)).last();
            let b = runs(items.take(j))[runs(items.take(i)).len() - 1];
            a.1 <= b.1 && a.2 <= b.2
        },
    decreases j - i,
{
    if i < j {
        lemma_runs_prefix(items, i, j - 1);
        assert(items.take(j).drop_last() =~= items.take(j - 1));
        let p = runs(items.take(j - 1));
        let q = runs(items.take(j));
        let a = runs(items.take(i));
        if a.len() > 0 {
            let m = a.len() - 1;
            assert(p[m].0 == q[m].0);
            assert(p[m].1 <= q[m].1 && p[m].2 <= q[m].2);
        }
    }
}

impl Default for DrawList {
    fn default() -> (r: Self)
        ensures
            r@ == Seq::<DrawItem>::empty(),
    {
        DrawList { items: Vec::new() }
    }
}

impl View for DrawList {
    type V = Seq<DrawItem>;

    closed spec fn view(&self) -> Seq<DrawItem> {
        self.items@
    }
}

impl DrawList {
    /// An empty list.
    pub fn new() -> (r: Self)
        ensures
            r@ == Seq::<DrawItem>::empty(),
    {
        Self { items: Vec::new() }
    }

    /// Append one draw at the end.
    pub fn add(&mut self, item: DrawItem)
        ensures
            final(self)@ == old(self)@.push(item),
    {
        self.items.push(item);
    }

    /// Number of recorded draws.
    pub fn len(&self) -> (n: usize)
        ensures
            n == self@.len(),
    {
        self.items.len()
    }

    /// Whether no draw was recorded.
    pub fn is_empty(&self) -> (b: bool)
        ensures
            b == (self@.len() == 0),
    {
        self.items.len() == 0
    }

    /// Group contiguous items with the same key into batches.
    pub fn to_batches(&self) -> (out: Vec<DrawBatch>)
        requires
            runs_fit_u32(self@),
        ensures
            out@.len() == runs(self@).len(),
            forall|k: int| 0 <= k < out@.len() ==> batch_matches(#[trigger] out@[k], runs(self@)[k]),
    {
        let mut out: Vec<DrawBatch> = Vec::new();
        let n = self.items.len();
        let ghost items = self@;
        let mut i: usize = 0;
        proof {
            assert(items.take(0) =~= Seq::<DrawItem>::empty());
        }
        while i < n
            invariant
                n == items.len(),
                items == self@,
                0 <= i <= n,
                runs_fit_u32(items),
                out@.len() == runs(items.take(i as int)).len(),
                forall|k: int|
                    0 <= k < out@.len() ==> batch_matches(
                        #[trigger] out@[k],
                        runs(items.take(i as int))[k],
                    ),
            decreases n - i,
        {
            let it = self.items[i];
            proof {
                assert(items.take(i + 1).drop_last() =~= items.take(i as int));
                assert(items.take(i + 1).last() == it);
                lemma_runs_prefix(items, i + 1, n as int);
                assert(items.take(n as int) =~= items);
            }
            let len = out.len();
            if len > 0 && out[len - 1].key == it.key {
                let last = out[len - 1];
                proof {
                    let r = runs(items.take(i + 1));
                    assert(r[len - 1] == r.last());
                    assert(r[len - 1].1 <= runs(items)[len - 1].1);
                    assert(runs(items)[len - 1].1 <= u32::MAX);
                    assert(runs(items)[len - 1].2 <= u32::MAX);
                }
                out.set(
                    len - 1,
                    DrawBatch {
                        key: last.key,
                        index_count: last.index_count + it.index_count,
                        instance_count: last.instance_count + it.instance_count,
                    },
                );
            } else {
                out.push(
                    DrawBatch {
                        key: it.key,
                        index_count: it.index_count,
                        instance_count: it.instance_count,
                    },
                );
            }
            i = i + 1;
        }
        proof {
            assert(items.take(n as int) =~= items);
        }
        out
    }
}

} // verus!
