//! Counting state changes while recording the main pass: each draw reports
//! its (pipeline, material, mesh) key, and a new batch starts whenever the
//! key differs from the previous draw's.
use vstd::prelude::*;

verus! {

/// Number of batches in a sequence of draw keys: one per maximal run of
/// equal consecutive keys.
pub open spec fn batch_count(keys: Seq<[u32; 3]>) -> nat
    decreases keys.len(),
{
    if keys.len() == 0 {
        0
    } else if keys.len() >= 2 && keys[keys.len() - 2] == keys.last() {
        batch_count(keys.drop_last())
    } else {
        batch_count(keys.drop_last()) + 1
    }
}

/// Two draw keys differ in the pipeline, the material or the mesh.
pub open spec fn keys_differ(a: [u32; 3], b: [u32; 3]) -> bool {
    a[0] != b[0] || a[1] != b[1] || a[2] != b[2]
}

/// No keys make no batches; reporting a key adds a batch exactly when it is
/// the first key or differs from the previous key in any of its three
/// parts; and there are never more batches than keys, nor none when there
/// is a key.
pub proof fn lemma_batch_count_step(keys: Seq<[u32; 3]>, k: [u32; 3])
    ensures
        batch_count(Seq::<[u32; 3]>::empty()) == 0,
        batch_count(keys.push(k)) == batch_count(keys) + if keys.len() == 0 || keys_differ(keys.last(), k) {
            1nat
        } else {
            0nat
        },
        batch_count(keys) <= keys.len(),
        keys.len() > 0 ==> batch_count(keys) >= 1,
    decreases keys.len(),
{
    let ks = keys.push(k);
    assert(ks.drop_last() =~= keys);
    if keys.len() > 0 {
        assert(ks[ks.len() - 2] == keys.last());
        if !keys_differ(keys.last(), k) {
            assert(keys.last() =~= k);
        }
        lemma_batch_count_step(keys.drop_last(), keys.last());
        assert(keys.drop_last().push(keys.last()) =~= keys);
    }
}

/// The smaller of a count and `u32::MAX` (counts saturate).
pub open spec fn saturate(n: nat) -> u32 {
    if n <= u32::MAX {
        n as u32
    } else {
        u32::MAX
    }
}

/// Batch statistics of the main pass.
pub struct BatchCounter {
    prev_key: Option<[u32; 3]>,
    count_curr: u32,
    count_last: u32,
    keys: Ghost<Seq<[u32; 3]>>,
}

impl BatchCounter {
    /// Keys reported since the current pass began.
    pub closed spec fn keys(&self) -> Seq<[u32; 3]> {
        self.keys@
    }

    /// Batches counted so far in the current pass.
    pub closed spec fn current(&self) -> u32 {
        self.count_curr
    }

    /// Batches counted by the last finished pass.
    pub closed spec fn last(&self) -> u32 {
        self.count_last
    }

    /// The running count is the saturated number of batches of the keys
    /// reported so far, and the previous key is the last one reported.
    pub closed spec fn wf(&self) -> bool {
        &&& self.count_curr == saturate(batch_count(self.keys@))
        &&& self.prev_key == if self.keys@.len() == 0 {
            None
        } else {
            Some(self.keys@.last())
        }
    }

    /// A counter with nothing recorded.
    pub fn new() -> (r: Self)
        ensures
            r.wf(),
            r.keys() == Seq::<[u32; 3]>::empty(),
            r.current() == 0,
            r.last() == 0,
    {
        BatchCounter { prev_key: None, count_curr: 0, count_last: 0, keys: Ghost(Seq::empty()) }
    }

    /// Start counting a new pass.
    pub fn batch_begin(&mut self)
        ensures
            final(self).wf(),
            final(self).keys() == Seq::<[u32; 3]>::empty(),
            final(self).current() == 0,
            final(self).last() == old(self).last(),
    {
        self.prev_key = None;
        self.count_curr = 0;
        self.keys = Ghost(Seq::empty());
    }

    /// Report one draw's key; a key different from the previous one starts
    /// a new batch (the count saturates at `u32::MAX`).
    pub fn batch_add_key_ids(&mut self, pid: u32, mid: u32, mesh_ref_id: u32)
        requires
            old(self).wf(),
        ensures
            final(self).wf(),
            final(self).keys() == old(self).keys().push([pid, mid, mesh_ref_id]),
            final(self).last() == old(self).last(),
            final(self).current() == saturate(batch_count(final(self).keys())),
    {
        let key = [pid, mid, mesh_ref_id];
        let ghost ks = self.keys@.push(key);
        proof {
            assert(ks.drop_last() =~= self.keys@);
        }
        let same = match self.prev_key {
            Some(prev) => prev[0] == pid && prev[1] == mid && prev[2] == mesh_ref_id,
            None => false,
        };
        proof {
            if same {
                let prev = self.prev_key.unwrap();
                assert(prev =~= key);
                assert(ks[ks.len() - 2] == self.keys@.last());
            } else if self.keys@.len() > 0 {
                let prev = self.prev_key.unwrap();
                assert(ks[ks.len() - 2] == prev);
                if ks[ks.len() - 2] == ks.last() {
                    assert(prev[0] == pid && prev[1] == mid && prev[2] == mesh_ref_id);
                }
            }
        }
        if !same {
            self.prev_key = Some(key);
            self.count_curr = self.count_curr.saturating_add(1);
        }
        self.keys = Ghost(ks);
    }

    /// Finish the pass: its batch count becomes the last count.
    pub fn batch_end(&mut self)
        ensures
            final(self).last() == old(self).current(),
            final(self).current() == old(self).current(),
            final(self).keys() == old(self).keys(),
            old(self).wf() ==> final(self).wf(),
    {
        self.count_last = self.count_curr;
    }

    /// Batches counted by the last finished pass.
    pub fn last_count(&self) -> (r: u32)
        ensures
            r == self.last(),
    {
        self.count_last
    }
}

} // verus!
