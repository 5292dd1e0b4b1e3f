//! Laws of the shared-handle protocol, proved once and for all over the
//! heap model.
//!
//! Every operation on [`Heap`] and [`Shared`] pins the heap's view down
//! exactly, so each law below takes the transition an operation promises in
//! its `ensures` and states what follows for every payload, every handle
//! and every heap.

use vstd::prelude::*;

use crate::live_blocks_of;
use crate::Heap;
use crate::Shared;

verus! {

/// How an update changes the number of live blocks: replacing one entry
/// removes its own contribution and adds the new entry's.
proof fn lemma_live_blocks_update<T>(s: Seq<Option<(T, nat)>>, i: int, x: Option<(T, nat)>)
    requires
        0 <= i < s.len(),
    ensures
        live_blocks_of(s.update(i, x)) + (if s[i] is Some {
            1nat
        } else {
            0nat
        }) == live_blocks_of(s) + (if x is Some {
            1nat
        } else {
            0nat
        }),
    decreases s.len(),
{
    if i == s.len() - 1 {
        assert(s.update(i, x).drop_last() =~= s.drop_last());
    } else {
        assert(s.update(i, x).drop_last() =~= s.drop_last().update(i, x));
        lemma_live_blocks_update(s.drop_last(), i, x);
    }
}

/// Immediately after creation the new block holds exactly the value given:
/// for every value `v`, a handle fresh from `Shared::new` reads back `v`,
/// and it is the one and only handle to its block.
pub proof fn lemma_create_reads_back<T>(pre: Heap<T>, post: Heap<T>, h: Shared<T>, v: T)
    requires
        h.id() <= pre@.len(),
        post@ == (if h.id() < pre@.len() {
            pre@.update(h.id(), Some((v, 1nat)))
        } else {
            pre@.push(Some((v, 1nat)))
        }),
    ensures
        post.live(h.id()),
        post.value_at(h.id()) == v,
        post.count_at(h.id()) == 1,
{
}

/// Mutation is shared: after a write of `w` through one handle (the
/// transition `Shared::borrow_mut` promises for `a`), a read through any
/// handle of the same block — a duplicate made before or after the write —
/// observes `w`.
pub proof fn lemma_mutation_visible_through_every_handle<T>(
    pre: Heap<T>,
    post: Heap<T>,
    a: Shared<T>,
    b: Shared<T>,
    w: T,
)
    requires
        a.id() == b.id(),
        pre.live(a.id()),
        post@ == pre@.update(a.id(), Some((w, pre.count_at(a.id())))),
    ensures
        post.live(b.id()),
        post.value_at(b.id()) == w,
        pre.wf() ==> post.wf(),
{
    if pre.wf() {
        assert forall|j: int| #[trigger] post.live(j) implies post.count_at(j) >= 1 by {
            if j != a.id() {
                assert(pre.live(j));
            }
        }
    }
}

/// `Shared::duplicate` copies no payload: after the transition it promises,
/// the new handle and the old address one and the same block — they read
/// equal values, the count alone has risen, and no block anywhere else on
/// the heap was created or changed, so no second copy of the payload exists
/// that could later diverge.
pub proof fn lemma_duplicate_copies_no_payload<T>(
    pre: Heap<T>,
    post: Heap<T>,
    a: Shared<T>,
    b: Shared<T>,
)
    requires
        pre.live(a.id()),
        b.id() == a.id(),
        post@ == pre@.update(
            a.id(),
            Some((pre.value_at(a.id()), pre.count_at(a.id()) + 1)),
        ),
    ensures
        post.live(a.id()),
        post.live(b.id()),
        post.value_at(b.id()) == post.value_at(a.id()),
        post.value_at(a.id()) == pre.value_at(a.id()),
        post.count_at(a.id()) == pre.count_at(a.id()) + 1,
        post@.len() == pre@.len(),
        forall|j: int| 0 <= j < pre@.len() && j != a.id() ==> post@[j] == pre@[j],
{
}

/// Teardown happens exactly once, at the last release and never before:
/// under the transition `Shared::release` promises, the payload is handed
/// out if and only if the released handle was the block's last one; while
/// other handles remain, the block stays live with the payload untouched;
/// and no other block is disturbed.
pub proof fn lemma_teardown_exactly_at_last_release<T>(
    pre: Heap<T>,
    post: Heap<T>,
    h: Shared<T>,
    payload: Option<T>,
)
    requires
        pre.wf(),
        pre.live(h.id()),
        ({
            let c = pre.count_at(h.id());
            let v = pre.value_at(h.id());
            if c <= 1 {
                payload == Some(v) && post@ == pre@.update(h.id(), None::<(T, nat)>)
            } else {
                payload is None && post@ == pre@.update(h.id(), Some((v, (c - 1) as nat)))
            }
        }),
    ensures
        payload is Some <==> pre.count_at(h.id()) == 1,
        pre.count_at(h.id()) == 1 ==> payload == Some(pre.value_at(h.id())) && !post.live(h.id()),
        pre.count_at(h.id()) > 1 ==> post.live(h.id()) && post.value_at(h.id()) == pre.value_at(
            h.id(),
        ) && post.count_at(h.id()) == pre.count_at(h.id()) - 1,
        forall|j: int| 0 <= j < pre@.len() && j != h.id() ==> post@[j] == pre@[j],
{
    assert(pre.live(h.id()));
}

/// Round trip: `Shared::new` followed at once by `Shared::release` of the
/// only handle leaves no observable trace — the same blocks are live as
/// before, each with its old payload and count, and the number of live
/// blocks returns to what it was. In particular a round trip on a fresh
/// heap leaves it with no live block at all.
pub proof fn lemma_create_release_round_trip<T>(
    pre: Heap<T>,
    mid: Heap<T>,
    post: Heap<T>,
    h: Shared<T>,
    v: T,
)
    requires
        h.id() <= pre@.len(),
        !pre.live(h.id()),
        mid@ == (if h.id() < pre@.len() {
            pre@.update(h.id(), Some((v, 1nat)))
        } else {
            pre@.push(Some((v, 1nat)))
        }),
        post@ == mid@.update(h.id(), None::<(T, nat)>),
    ensures
        forall|j: int| #![trigger post.live(j)] #![trigger pre.live(j)] post.live(j) == pre.live(j),
        forall|j: int| #[trigger] post.live(j) ==> post.value_at(j) == pre.value_at(j)
            && post.count_at(j) == pre.count_at(j),
        live_blocks_of(post@) == live_blocks_of(pre@),
{
    if h.id() < pre@.len() {
        lemma_live_blocks_update(pre@, h.id(), Some((v, 1nat)));
        lemma_live_blocks_update(mid@, h.id(), None::<(T, nat)>);
    } else {
        assert(mid@.drop_last() =~= pre@);
        lemma_live_blocks_update(mid@, h.id(), None::<(T, nat)>);
        assert(post@.drop_last() =~= pre@);
        assert(post@.last() is None);
    }
    assert forall|j: int| #[trigger] post.live(j) implies post.value_at(j) == pre.value_at(j)
        && post.count_at(j) == pre.count_at(j) by {
        assert(j != h.id());
        assert(post@[j] == pre@[j]);
    }
}

} // verus!
