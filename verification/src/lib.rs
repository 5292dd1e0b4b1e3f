//! A single-threaded, reference-counted shared-ownership primitive.
//!
//! A payload of type `T` is placed in a control block exactly once; any
//! number of [`Shared`] handles may then share ownership of that block.
//! The block records how many handles are live, and the payload leaves the
//! heap — so that its teardown can run — exactly when the count reaches
//! zero.
//!
//! The heap that control blocks live on is modelled explicitly by
//! [`Heap`], so that allocation, sharing, mutation and freeing are all
//! ordinary verified operations on ordinary data: every operation carries a
//! contract over the heap's mathematical view, and the counting protocol is
//! proved rather than trusted.

use vstd::prelude::*;

pub mod laws;

verus! {

/// One control block: the payload together with the count of live handles
/// that currently share it.
struct Block<T> {
    value: T,
    ref_count: usize,
}

/// The heap of control blocks, modelled explicitly.
///
/// Each slot either holds a live control block or is free. A slot is
/// allocated by [`Shared::new`], shared by [`Shared::duplicate`], and freed
/// by the [`Shared::release`] that brings its count to zero. Freed slots
/// are reused by later allocations.
pub struct Heap<T> {
    slots: Vec<Option<Block<T>>>,
}

impl<T> View for Heap<T> {
    type V = Seq<Option<(T, nat)>>;

    /// The model of the heap: slot `i` holds `Some((v, c))` when a live
    /// control block with payload `v` and reference count `c` occupies it,
    /// and `None` when the slot is free.
    closed spec fn view(&self) -> Seq<Option<(T, nat)>> {
        self.slots@.map(|i: int, s: Option<Block<T>>| match s {
            Some(b) => Some((b.value, b.ref_count as nat)),
            None => None,
        })
    }
}

impl<T> Heap<T> {
    /// Slot `i` holds a live control block.
    pub open spec fn live(self, i: int) -> bool {
        0 <= i < self@.len() && self@[i] is Some
    }

    /// The payload of the live block in slot `i`.
    pub open spec fn value_at(self, i: int) -> T
        recommends
            self.live(i),
    {
        (self@[i]->0).0
    }

    /// The reference count of the live block in slot `i`.
    pub open spec fn count_at(self, i: int) -> nat
        recommends
            self.live(i),
    {
        (self@[i]->0).1
    }

    /// Well-formedness: every live block is held by at least one handle.
    /// Established by [`Heap::new`] and preserved by every operation.
    pub open spec fn wf(self) -> bool {
        forall|i: int| #[trigger] self.live(i) ==> self.count_at(i) >= 1
    }

    /// A fresh heap with no control blocks.
    pub fn new() -> (heap: Heap<T>)
        ensures
            heap@ == Seq::<Option<(T, nat)>>::empty(),
            heap.wf(),
    {
        Heap { slots: Vec::new() }
    }

    /// The number of live control blocks: allocations not yet freed. A
    /// heap on which every handle has been released reports zero — no
    /// block leaks and none is freed early.
    pub fn live_blocks(&self) -> (n: usize)
        ensures
            n == live_blocks_of(self@),
    {
        let mut n: usize = 0;
        let mut i: usize = 0;
        while i < self.slots.len()
            invariant
                i <= self.slots@.len(),
                n <= i,
                n == live_blocks_of(self@.take(i as int)),
            decreases self.slots@.len() - i,
        {
            if self.slots[i].is_some() {
                n = n + 1;
            }
            proof {
                assert(self@.take(i + 1).drop_last() =~= self@.take(i as int));
                assert(self@.take(i + 1).last() == self@[i as int]);
            }
            i += 1;
        }
        proof {
            assert(self@.take(self.slots@.len() as int) =~= self@);
        }
        n
    }
}

/// How many entries of `s` hold a live control block.
pub open spec fn live_blocks_of<T>(s: Seq<Option<(T, nat)>>) -> nat
    decreases s.len(),
{
    if s.len() == 0 {
        0
    } else {
        live_blocks_of(s.drop_last()) + (if s.last() is Some {
            1nat
        } else {
            0nat
        })
    }
}

/// A lightweight handle to a control block on a [`Heap`].
///
/// A handle owns one unit of the share of its block's reference count.
/// Handles cannot be copied or cloned; the only way to widen sharing is
/// [`Shared::duplicate`], which raises the count, and the only way to end a
/// handle's life is [`Shared::release`], which consumes it and lowers the
/// count. Together with the private constructor this makes the counting
/// protocol unskippable: no handle can be forged, duplicated silently, or
/// released twice.
pub struct Shared<T> {
    index: usize,
    marker: core::marker::PhantomData<T>,
}

impl<T> Shared<T> {
    /// The index of the control block this handle refers to. Two handles
    /// with equal `id` address the very same block.
    pub closed spec fn id(self) -> int {
        self.index as int
    }

    /// Place `value` in a fresh control block with reference count 1 and
    /// return the first handle to it. The block goes into a free slot when
    /// one exists, and into newly allocated space at the end of the heap
    /// otherwise; no other slot is touched.
    pub fn new(heap: &mut Heap<T>, value: T) -> (handle: Shared<T>)
        ensures
            handle.id() <= old(heap)@.len(),
            !old(heap).live(handle.id()),
            final(heap)@ == (if handle.id() < old(heap)@.len() {
                old(heap)@.update(handle.id(), Some((value, 1nat)))
            } else {
                old(heap)@.push(Some((value, 1nat)))
            }),
            final(heap).live(handle.id()),
            final(heap).value_at(handle.id()) == value,
            final(heap).count_at(handle.id()) == 1,
            old(heap).wf() ==> final(heap).wf(),
    {
        let mut i: usize = 0;
        while i < heap.slots.len()
            invariant
                *heap == *old(heap),
                i <= heap.slots@.len(),
            decreases heap.slots@.len() - i,
        {
            if heap.slots[i].is_none() {
                proof {
                    assert(!heap.live(i as int));
                }
                heap.slots[i] = Some(Block { value, ref_count: 1 });
                let handle = Shared { index: i, marker: core::marker::PhantomData };
                proof {
                    assert(heap@ =~= old(heap)@.update(handle.id(), Some((value, 1nat))));
                    if old(heap).wf() {
                        assert forall|j: int| #[trigger] heap.live(j) implies heap.count_at(j) >= 1 by {
                            if j != handle.id() {
                                assert(old(heap).live(j));
                            }
                        }
                    }
                }
                return handle;
            }
            i += 1;
        }
        heap.slots.push(Some(Block { value, ref_count: 1 }));
        let handle = Shared { index: heap.slots.len() - 1, marker: core::marker::PhantomData };
        proof {
            assert(heap@ =~= old(heap)@.push(Some((value, 1nat))));
            if old(heap).wf() {
                assert forall|j: int| #[trigger] heap.live(j) implies heap.count_at(j) >= 1 by {
                    if j != handle.id() {
                        assert(old(heap).live(j));
                    }
                }
            }
        }
        handle
    }

    /// Read access to the payload of this handle's block. A handle's mere
    /// existence proves the block is live, which is what the precondition
    /// records; no run-time check is needed.
    pub fn borrow<'a>(&self, heap: &'a Heap<T>) -> (r: &'a T)
        requires
            heap.live(self.id()),
        ensures
            *r == heap.value_at(self.id()),
    {
        match &heap.slots[self.index] {
            Some(block) => &block.value,
            None => vstd::pervasive::unreached(),
        }
    }

    /// A new handle to the same control block: the count rises by one and
    /// nothing else on the heap changes. The payload is not copied — both
    /// handles address the very same block, so a later write through either
    /// is seen through the other.
    pub fn duplicate(&self, heap: &mut Heap<T>) -> (handle: Shared<T>)
        requires
            old(heap).live(self.id()),
            old(heap).count_at(self.id()) < usize::MAX,
        ensures
            handle.id() == self.id(),
            final(heap)@ == old(heap)@.update(
                self.id(),
                Some((old(heap).value_at(self.id()), old(heap).count_at(self.id()) + 1)),
            ),
            old(heap).wf() ==> final(heap).wf(),
    {
        match &mut heap.slots[self.index] {
            Some(block) => {
                block.ref_count = block.ref_count + 1;
            }
            None => vstd::pervasive::unreached(),
        }
        proof {
            assert(heap@ =~= old(heap)@.update(
                self.id(),
                Some((old(heap).value_at(self.id()), old(heap).count_at(self.id()) + 1)),
            ));
            if old(heap).wf() {
                assert forall|j: int| #[trigger] heap.live(j) implies heap.count_at(j) >= 1 by {
                    if j != self.id() {
                        assert(old(heap).live(j));
                    }
                }
            }
        }
        Shared { index: self.index, marker: core::marker::PhantomData }
    }

    /// Exclusive access to the payload of this handle's block, for
    /// mutation in place. Exclusivity is only over this borrow of the
    /// heap: other handles to the same block remain live, and the written
    /// value is immediately visible through every one of them. That
    /// sharing-through-mutation is deliberate and part of the contract:
    /// the heap afterwards differs from the heap before in exactly this
    /// block's payload, which becomes whatever the caller leaves behind
    /// the returned reference.
    pub fn borrow_mut<'a>(&self, heap: &'a mut Heap<T>) -> (r: &'a mut T)
        requires
            old(heap).live(self.id()),
        ensures
            *r == old(heap).value_at(self.id()),
            final(heap)@ == old(heap)@.update(
                self.id(),
                Some((*final(r), old(heap).count_at(self.id()))),
            ),
    {
        match &mut heap.slots[self.index] {
            Some(block) => &mut block.value,
            None => vstd::pervasive::unreached(),
        }
    }

    /// End this handle's life. The handle is consumed and the count falls
    /// by one. When this was the last handle the block is freed and the
    /// payload is handed back to the caller, so that its teardown runs
    /// exactly once, after the last release and never before; otherwise
    /// the block stays, untouched, for the remaining handles and `None`
    /// comes back.
    pub fn release(self, heap: &mut Heap<T>) -> (payload: Option<T>)
        requires
            old(heap).live(self.id()),
        ensures
            ({
                let c = old(heap).count_at(self.id());
                let v = old(heap).value_at(self.id());
                if c <= 1 {
                    payload == Some(v) && final(heap)@ == old(heap)@.update(
                        self.id(),
                        None::<(T, nat)>,
                    )
                } else {
                    payload is None && final(heap)@ == old(heap)@.update(
                        self.id(),
                        Some((v, (c - 1) as nat)),
                    )
                }
            }),
            old(heap).wf() ==> final(heap).wf(),
    {
        let slot = &mut heap.slots[self.index];
        let block = slot.take().unwrap();
        let payload = if block.ref_count <= 1 {
            Some(block.value)
        } else {
            *slot = Some(Block { value: block.value, ref_count: block.ref_count - 1 });
            None
        };
        proof {
            let c = old(heap).count_at(self.id());
            let v = old(heap).value_at(self.id());
            if c <= 1 {
                assert(heap@ =~= old(heap)@.update(self.id(), None::<(T, nat)>));
            } else {
                assert(heap@ =~= old(heap)@.update(self.id(), Some((v, (c - 1) as nat))));
            }
            if old(heap).wf() {
                assert forall|j: int| #[trigger] heap.live(j) implies heap.count_at(j) >= 1 by {
                    if j != self.id() {
                        assert(old(heap).live(j));
                    }
                }
            }
        }
        payload
    }
}

} // verus!
