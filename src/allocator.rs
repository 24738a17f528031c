//! Allocation of the local variables of one kernel compilation.
//!
//! Every storage location gets a fresh id from one counter. Mutable locals
//! are pooled per item: a pooled location that nobody holds any more is handed
//! out again instead of a new one, so the number of locations emitted for an
//! item is the largest number of its mutable locals alive at the same time.
use vstd::prelude::*;

use crate::ir::{ExpandElement, Item, Matrix, Variable, VariableKind};

verus! {

/// One mutable location of the reuse pool.
#[derive(Clone, Copy, Debug, PartialEq, Eq, Structural)]
pub struct PoolSlot {
    pub id: u32,
    pub item: Item,
    /// Whether some binding outside the pool still refers to the location.
    pub in_use: bool,
}

/// Abstract state of an allocator: the next id and the pool in order of
/// insertion.
pub ghost struct AllocatorView {
    pub next_id: nat,
    pub pool: Seq<PoolSlot>,
}

/// An operation on the mutable pool: a request for a mutable local of an item,
/// or the end of the binding with the given id.
pub ghost enum PoolOp {
    CreateMut(Item),
    Release(u32),
}

/// Allocator of the local variables of one kernel.
///
/// Immutable locals (`create_local`) are written once; mutable ones
/// (`create_local_mut`) may reuse a pooled location; restricted ones
/// (`create_local_restricted`) are mutable and never reused.
#[derive(Debug)]
pub struct Allocator {
    pool: Vec<PoolSlot>,
    next_id: u32,
}

/// Index of the last pooled location among the first `n` that holds `item`
/// and is no longer in use.
pub open spec fn find_free(pool: Seq<PoolSlot>, item: Item, n: nat) -> Option<int>
    decreases n,
{
    if n == 0 {
        None
    } else if pool[n - 1].item == item && !pool[n - 1].in_use {
        Some(n - 1)
    } else {
        find_free(pool, item, (n - 1) as nat)
    }
}

/// A location that `find_free` picks is one of the first `n`, of `item`, and free.
pub proof fn lemma_find_free_picks_free(pool: Seq<PoolSlot>, item: Item, n: nat)
    requires
        n <= pool.len(),
    ensures
        match find_free(pool, item, n) {
            Some(i) => 0 <= i < n && pool[i].item == item && !pool[i].in_use,
            None => forall|j: int| 0 <= j < n ==> !(pool[j].item == item && !pool[j].in_use),
        },
    decreases n,
{
    if n > 0 {
        lemma_find_free_picks_free(pool, item, (n - 1) as nat);
    }
}

/// Number of pooled locations of `item`.
pub open spec fn count_item(pool: Seq<PoolSlot>, item: Item) -> nat
    decreases pool.len(),
{
    if pool.len() == 0 {
        0
    } else {
        count_item(pool.drop_last(), item) + if pool.last().item == item {
            1nat
        } else {
            0nat
        }
    }
}

/// Number of pooled locations of `item` that are in use.
pub open spec fn live_item(pool: Seq<PoolSlot>, item: Item) -> nat
    decreases pool.len(),
{
    if pool.len() == 0 {
        0
    } else {
        live_item(pool.drop_last(), item) + if pool.last().item == item && pool.last().in_use {
            1nat
        } else {
            0nat
        }
    }
}

/// The pool after the binding `id` has ended.
pub open spec fn release_in(pool: Seq<PoolSlot>, id: u32) -> Seq<PoolSlot> {
    pool.map_values(|s: PoolSlot| if s.id == id { PoolSlot { in_use: false, ..s } } else { s })
}

/// Effect of one pool operation on the allocator.
pub open spec fn step(s: AllocatorView, op: PoolOp) -> AllocatorView {
    match op {
        PoolOp::CreateMut(item) => {
            if item.elem.is_atomic() {
                AllocatorView { next_id: s.next_id + 1, pool: s.pool }
            } else {
                match find_free(s.pool, item, s.pool.len()) {
                    Some(i) => AllocatorView {
                        next_id: s.next_id,
                        pool: s.pool.update(i, PoolSlot { in_use: true, ..s.pool[i] }),
                    },
                    None => AllocatorView {
                        next_id: s.next_id + 1,
                        pool: s.pool.push(PoolSlot { id: s.next_id as u32, item, in_use: true }),
                    },
                }
            }
        },
        PoolOp::Release(id) => AllocatorView { next_id: s.next_id, pool: release_in(s.pool, id) },
    }
}

/// State after a sequence of pool operations.
pub open spec fn run(s: AllocatorView, ops: Seq<PoolOp>) -> AllocatorView
    decreases ops.len(),
{
    if ops.len() == 0 {
        s
    } else {
        step(run(s, ops.drop_last()), ops.last())
    }
}

/// Largest number of mutable locals of `item` alive at once along `ops`.
pub open spec fn high_water(s: AllocatorView, ops: Seq<PoolOp>, item: Item) -> nat
    decreases ops.len(),
{
    if ops.len() == 0 {
        live_item(s.pool, item)
    } else {
        let prev = high_water(s, ops.drop_last(), item);
        let now = live_item(run(s, ops).pool, item);
        if prev >= now {
            prev
        } else {
            now
        }
    }
}

proof fn lemma_live_le_count(pool: Seq<PoolSlot>, item: Item)
    ensures
        live_item(pool, item) <= count_item(pool, item),
    decreases pool.len(),
{
    if pool.len() > 0 {
        lemma_live_le_count(pool.drop_last(), item);
    }
}

proof fn lemma_push_counts(pool: Seq<PoolSlot>, x: PoolSlot, item: Item)
    ensures
        count_item(pool.push(x), item) == count_item(pool, item) + if x.item == item {
            1nat
        } else {
            0nat
        },
        live_item(pool.push(x), item) == live_item(pool, item) + if x.item == item && x.in_use {
            1nat
        } else {
            0nat
        },
{
    assert(pool.push(x).drop_last() =~= pool);
}

proof fn lemma_update_counts(pool: Seq<PoolSlot>, i: int, x: PoolSlot, item: Item)
    requires
        0 <= i < pool.len(),
        x.item == pool[i].item,
    ensures
        count_item(pool.update(i, x), item) == count_item(pool, item),
        live_item(pool.update(i, x), item) as int == live_item(pool, item) as int - (if pool[i].item
            == item && pool[i].in_use {
            1int
        } else {
            0int
        }) + (if x.item == item && x.in_use {
            1int
        } else {
            0int
        }),
    decreases pool.len(),
{
    let q = pool.update(i, x);
    if i == pool.len() - 1 {
        assert(q.drop_last() =~= pool.drop_last());
    } else {
        assert(q.drop_last() =~= pool.drop_last().update(i, x));
        lemma_update_counts(pool.drop_last(), i, x, item);
    }
}

proof fn lemma_release_counts(pool: Seq<PoolSlot>, id: u32, item: Item)
    ensures
        count_item(release_in(pool, id), item) == count_item(pool, item),
        live_item(release_in(pool, id), item) <= live_item(pool, item),
    decreases pool.len(),
{
    if pool.len() > 0 {
        assert(release_in(pool, id).drop_last() =~= release_in(pool.drop_last(), id));
        lemma_release_counts(pool.drop_last(), id, item);
    }
}

proof fn lemma_all_in_use(pool: Seq<PoolSlot>, item: Item)
    requires
        forall|j: int| 0 <= j < pool.len() ==> !(pool[j].item == item && !pool[j].in_use),
    ensures
        live_item(pool, item) == count_item(pool, item),
    decreases pool.len(),
{
    if pool.len() > 0 {
        let d = pool.drop_last();
        assert forall|j: int| 0 <= j < d.len() implies !(d[j].item == item && !d[j].in_use) by {
            assert(d[j] == pool[j]);
        }
        lemma_all_in_use(d, item);
    }
}

proof fn lemma_step_counts(s: AllocatorView, op: PoolOp, item: Item)
    requires
        live_item(s.pool, item) <= count_item(s.pool, item),
    ensures
        ({
            let t = step(s, op);
            &&& live_item(t.pool, item) <= count_item(t.pool, item)
            &&& count_item(t.pool, item) == if live_item(t.pool, item) > count_item(s.pool, item) {
                live_item(t.pool, item)
            } else {
                count_item(s.pool, item)
            }
        }),
{
    let t = step(s, op);
    lemma_live_le_count(t.pool, item);
    match op {
        PoolOp::CreateMut(it) => {
            if !it.elem.is_atomic() {
                lemma_find_free_picks_free(s.pool, it, s.pool.len());
                match find_free(s.pool, it, s.pool.len()) {
                    Some(i) => {
                        lemma_update_counts(s.pool, i, PoolSlot { in_use: true, ..s.pool[i] }, item);
                    },
                    None => {
                        let x = PoolSlot { id: s.next_id as u32, item: it, in_use: true };
                        lemma_push_counts(s.pool, x, item);
                        if it == item {
                            lemma_all_in_use(s.pool, item);
                        }
                    },
                }
            }
        },
        PoolOp::Release(id) => {
            lemma_release_counts(s.pool, id, item);
        },
    }
}

/// Pooling is idempotent: starting from a pool with no location for
/// `item`, after any sequence of mutable-local requests and releases, the
/// number of distinct locations registered for `item` equals the largest
/// number of its mutable locals that were alive at the same time, whatever
/// the number of requests.
pub proof fn lemma_pool_size_is_high_water(s: AllocatorView, ops: Seq<PoolOp>, item: Item)
    requires
        count_item(s.pool, item) == 0,
    ensures
        count_item(run(s, ops).pool, item) == high_water(s, ops, item),
        live_item(run(s, ops).pool, item) <= count_item(run(s, ops).pool, item),
    decreases ops.len(),
{
    if ops.len() > 0 {
        lemma_pool_size_is_high_water(s, ops.drop_last(), item);
        lemma_step_counts(run(s, ops.drop_last()), ops.last(), item);
    } else {
        lemma_live_le_count(s.pool, item);
    }
}

proof fn lemma_id_stays_out(s: AllocatorView, ops: Seq<PoolOp>, id: nat)
    requires
        id < s.next_id,
        s.next_id + ops.len() <= u32::MAX,
        forall|j: int| 0 <= j < s.pool.len() ==> s.pool[j].id < s.next_id && s.pool[j].id != id,
    ensures
        id < run(s, ops).next_id <= s.next_id + ops.len(),
        forall|j: int|
            0 <= j < run(s, ops).pool.len() ==> run(s, ops).pool[j].id < run(s, ops).next_id
                && run(s, ops).pool[j].id != id,
    decreases ops.len(),
{
    if ops.len() > 0 {
        lemma_id_stays_out(s, ops.drop_last(), id);
        let t = run(s, ops.drop_last());
        match ops.last() {
            PoolOp::CreateMut(it) => {
                if !it.elem.is_atomic() {
                    lemma_find_free_picks_free(t.pool, it, t.pool.len());
                }
            },
            PoolOp::Release(r) => {},
        }
    }
}

/// An atomic item given to `create_local_mut` gets a binding that bypasses
/// the pool: whatever requests and releases follow, no pooled location ever
/// carries its id, so no later pool lookup can hand it out.
pub proof fn lemma_atomic_bypasses_pool(s: AllocatorView, item: Item, ops: Seq<PoolOp>)
    requires
        item.elem.is_atomic(),
        s.next_id + 1 + ops.len() <= u32::MAX,
        forall|j: int| 0 <= j < s.pool.len() ==> s.pool[j].id < s.next_id,
    ensures
        ({
            let t = run(step(s, PoolOp::CreateMut(item)), ops);
            forall|j: int| 0 <= j < t.pool.len() ==> t.pool[j].id != s.next_id
        }),
{
    lemma_id_stays_out(step(s, PoolOp::CreateMut(item)), ops, s.next_id);
}

impl View for Allocator {
    type V = AllocatorView;

    closed spec fn view(&self) -> AllocatorView {
        AllocatorView { next_id: self.next_id as nat, pool: self.pool@ }
    }
}

impl Default for Allocator {
    fn default() -> (r: Allocator)
        ensures
            r.wf(),
            r@.next_id == 0,
            r@.pool.len() == 0,
    {
        Allocator::new()
    }
}

impl Allocator {
    /// Ids are unique: every pooled id was drawn from the counter and no two
    /// pooled locations share one.
    pub open spec fn wf(&self) -> bool {
        &&& self@.next_id <= u32::MAX
        &&& forall|i: int| 0 <= i < self@.pool.len() ==> self@.pool[i].id < self@.next_id
        &&& forall|i: int, j: int|
            0 <= i < j < self@.pool.len() ==> self@.pool[i].id != self@.pool[j].id
    }

    /// Whether one more id can be drawn.
    pub open spec fn can_allocate(&self) -> bool {
        self@.next_id < u32::MAX
    }

    /// A fresh allocator: no id drawn, an empty pool.
    pub fn new() -> (r: Allocator)
        ensures
            r.wf(),
            r@.next_id == 0,
            r@.pool.len() == 0,
    {
        Allocator { pool: Vec::new(), next_id: 0 }
    }

    /// The id the next allocation will receive.
    pub fn next_id(&self) -> (r: u32)
        ensures
            r == self@.next_id,
    {
        self.next_id
    }

    /// Number of pooled mutable locations.
    pub fn pool_len(&self) -> (r: usize)
        ensures
            r == self@.pool.len(),
    {
        self.pool.len()
    }

    /// Draw a fresh id.
    pub fn new_local_index(&mut self) -> (r: u32)
        requires
            old(self).wf(),
            old(self).can_allocate(),
        ensures
            final(self).wf(),
            r == old(self)@.next_id,
            final(self)@.next_id == old(self)@.next_id + 1,
            final(self)@.pool == old(self)@.pool,
    {
        let id = self.next_id;
        self.next_id = self.next_id + 1;
        id
    }

    /// A new immutable local of type `item`.
    pub fn create_local(&mut self, item: Item) -> (r: ExpandElement)
        requires
            old(self).wf(),
            old(self).can_allocate(),
        ensures
            final(self).wf(),
            r == ExpandElement::Plain(
                Variable { kind: VariableKind::LocalConst { id: old(self)@.next_id as u32 }, item },
            ),
            final(self)@.next_id == old(self)@.next_id + 1,
            final(self)@.pool == old(self)@.pool,
    {
        let id = self.new_local_index();
        ExpandElement::Plain(Variable::new(VariableKind::LocalConst { id }, item))
    }

    /// A new mutable local of type `item` that is never reused.
    pub fn create_local_restricted(&mut self, item: Item) -> (r: ExpandElement)
        requires
            old(self).wf(),
            old(self).can_allocate(),
        ensures
            final(self).wf(),
            r == ExpandElement::Plain(
                Variable { kind: VariableKind::LocalMut { id: old(self)@.next_id as u32 }, item },
            ),
            final(self)@.next_id == old(self)@.next_id + 1,
            final(self)@.pool == old(self)@.pool,
    {
        let id = self.new_local_index();
        ExpandElement::Plain(Variable::new(VariableKind::LocalMut { id }, item))
    }

    /// A new local array of `array_size` elements of type `item`.
    pub fn create_local_array(&mut self, item: Item, array_size: u32) -> (r: ExpandElement)
        requires
            old(self).wf(),
            old(self).can_allocate(),
        ensures
            final(self).wf(),
            r == ExpandElement::Plain(
                Variable {
                    kind: VariableKind::LocalArray {
                        id: old(self)@.next_id as u32,
                        length: array_size,
                    },
                    item,
                },
            ),
            final(self)@.next_id == old(self)@.next_id + 1,
            final(self)@.pool == old(self)@.pool,
    {
        let id = self.new_local_index();
        let local_array = Variable::new(VariableKind::LocalArray { id, length: array_size }, item);
        ExpandElement::Plain(local_array)
    }

    /// A new slice variable of type `item`.
    pub fn create_slice(&mut self, item: Item) -> (r: ExpandElement)
        requires
            old(self).wf(),
            old(self).can_allocate(),
        ensures
            final(self).wf(),
            r == ExpandElement::Plain(
                Variable { kind: VariableKind::Slice { id: old(self)@.next_id as u32 }, item },
            ),
            final(self)@.next_id == old(self)@.next_id + 1,
            final(self)@.pool == old(self)@.pool,
    {
        let id = self.new_local_index();
        ExpandElement::Plain(Variable::new(VariableKind::Slice { id }, item))
    }

    /// A new matrix fragment variable; its item is the fragment's scalar element.
    pub fn create_matrix(&mut self, matrix: Matrix) -> (r: ExpandElement)
        requires
            old(self).wf(),
            old(self).can_allocate(),
        ensures
            final(self).wf(),
            r == ExpandElement::Plain(
                Variable {
                    kind: VariableKind::Matrix { id: old(self)@.next_id as u32, mat: matrix },
                    item: Item { elem: matrix.elem, vectorization: 1 },
                },
            ),
            final(self)@.next_id == old(self)@.next_id + 1,
            final(self)@.pool == old(self)@.pool,
    {
        let id = self.new_local_index();
        let variable = Variable::new(
            VariableKind::Matrix { id, mat: matrix },
            Item::new(matrix.elem),
        );
        ExpandElement::Plain(variable)
    }

    /// Take back into use the last pooled location of `item` that nobody holds.
    fn reuse_local_mut(&mut self, item: Item) -> (r: Option<ExpandElement>)
        requires
            old(self).wf(),
        ensures
            final(self).wf(),
            final(self)@.next_id == old(self)@.next_id,
            match find_free(old(self)@.pool, item, old(self)@.pool.len()) {
                None => r is None && final(self)@.pool == old(self)@.pool,
                Some(i) => r == Some(
                    ExpandElement::Managed(
                        Variable {
                            kind: VariableKind::LocalMut { id: old(self)@.pool[i].id },
                            item,
                        },
                    ),
                ) && final(self)@.pool == old(self)@.pool.update(
                    i,
                    PoolSlot { in_use: true, ..old(self)@.pool[i] },
                ),
            },
    {
        let ghost old_pool = self.pool@;
        proof {
            lemma_find_free_picks_free(old_pool, item, old_pool.len());
        }
        let mut i: usize = self.pool.len();
        while i > 0
            invariant
                i <= self.pool.len(),
                self.pool@ == old_pool,
                old_pool == old(self).pool@,
                old(self).wf(),
                self.next_id == old(self).next_id,
                find_free(self.pool@, item, self.pool@.len()) == find_free(
                    self.pool@,
                    item,
                    i as nat,
                ),
            decreases i,
        {
            let slot = self.pool[i - 1];
            if slot.item == item && !slot.in_use {
                let id = slot.id;
                self.pool.set(i - 1, PoolSlot { in_use: true, ..slot });
                proof {
                    assert(find_free(old_pool, item, i as nat) == Some((i - 1) as int));
                    assert(self.pool@ =~= old_pool.update(
                        (i - 1) as int,
                        PoolSlot { in_use: true, ..old_pool[i - 1] },
                    ));
                    assert forall|j: int| 0 <= j < self.pool@.len() implies self.pool@[j].id
                        == old_pool[j].id by {}
                }
                return Some(
                    ExpandElement::Managed(Variable::new(VariableKind::LocalMut { id }, item)),
                );
            }
            i = i - 1;
        }
        None
    }

    /// Register a new mutable location of type `item` in the pool, in use.
    pub fn add_local_mut(&mut self, item: Item) -> (r: Variable)
        requires
            old(self).wf(),
            old(self).can_allocate(),
        ensures
            final(self).wf(),
            r == (Variable { kind: VariableKind::LocalMut { id: old(self)@.next_id as u32 }, item }),
            final(self)@.next_id == old(self)@.next_id + 1,
            final(self)@.pool == old(self)@.pool.push(
                PoolSlot { id: old(self)@.next_id as u32, item, in_use: true },
            ),
    {
        let id = self.new_local_index();
        self.pool.push(PoolSlot { id, item, in_use: true });
        Variable::new(VariableKind::LocalMut { id }, item)
    }

    /// A mutable local of type `item`. An atomic item gets a restricted
    /// local; any other first reuses a pooled location that nobody holds, and
    /// only when there is none registers a new one.
    pub fn create_local_mut(&mut self, item: Item) -> (r: ExpandElement)
        requires
            old(self).wf(),
            old(self).can_allocate(),
        ensures
            final(self).wf(),
            final(self)@ == step(old(self)@, PoolOp::CreateMut(item)),
            item.elem.is_atomic() ==> r == ExpandElement::Plain(
                Variable { kind: VariableKind::LocalMut { id: old(self)@.next_id as u32 }, item },
            ),
            !item.elem.is_atomic() ==> match find_free(old(self)@.pool, item, old(self)@.pool.len()) {
                Some(i) => r == ExpandElement::Managed(
                    Variable { kind: VariableKind::LocalMut { id: old(self)@.pool[i].id }, item },
                ),
                None => r == ExpandElement::Managed(
                    Variable {
                        kind: VariableKind::LocalMut { id: old(self)@.next_id as u32 },
                        item,
                    },
                ),
            },
    {
        if item.elem.is_atomic() {
            self.create_local_restricted(item)
        } else {
            match self.reuse_local_mut(item) {
                Some(e) => e,
                None => ExpandElement::Managed(self.add_local_mut(item)),
            }
        }
    }

    /// End the binding with id `id`: its pooled location, if any, may be
    /// handed out again.
    pub fn release(&mut self, id: u32)
        requires
            old(self).wf(),
        ensures
            final(self).wf(),
            final(self)@ == step(old(self)@, PoolOp::Release(id)),
    {
        let ghost old_pool = self.pool@;
        let mut i: usize = 0;
        while i < self.pool.len()
            invariant
                i <= self.pool.len(),
                self.pool@.len() == old_pool.len(),
                self.next_id == old(self).next_id,
                forall|j: int| 0 <= j < i ==> self.pool@[j] == release_in(old_pool, id)[j],
                forall|j: int| i <= j < self.pool@.len() ==> self.pool@[j] == old_pool[j],
            decreases self.pool.len() - i,
        {
            let slot = self.pool[i];
            if slot.id == id {
                self.pool.set(i, PoolSlot { in_use: false, ..slot });
            }
            i = i + 1;
        }
        assert(self.pool@ =~= release_in(old_pool, id));
        assert forall|j: int| 0 <= j < self.pool@.len() implies self.pool@[j].id == old_pool[j].id by {
            assert(self.pool@[j] == release_in(old_pool, id)[j]);
        }
    }
}

} // verus!
