//! The scene flattener: turns the tree of nodes of one frame into the
//! ordered list of drawable primitives with their effective transforms.
//!
//! The traversal is breadth first from the frame's root nodes.  An invisible
//! node is skipped together with its whole subtree.  A visited node extends
//! the accumulated matrix by its own local transform and adds its own depth
//! to the accumulated depth; its leaf children are emitted immediately, its
//! node children are enqueued.  The emitted list is then stable-sorted by
//! combined depth, so equal depths keep their discovery order.
use vstd::prelude::*;

verus! {

use crate::interface::{Container, FrameDescription, Node, Object, Transform};
use crate::renderers::RenderingError;
use crate::transform::{
    compose_spec, mat_identity, mat_in_bounds, mat_mul, transform_wf, MatSpec, Transformation2D,
};

/// A primitive emitted by the traversal: the leaf object, the effective
/// transform of its parent node, and the combined depth it inherits.
pub struct Emission {
    pub object: Object,
    pub mat: MatSpec,
    pub z: int,
}

/// A pending node of the breadth-first traversal, with the transform and
/// combined depth accumulated above it.
pub struct QueueEntry {
    pub node: Node,
    pub mat: MatSpec,
    pub z: int,
}

/// The number of nodes in a subtree, counting the root; leaves count for
/// nothing.  This is the termination measure of the traversal.
pub open spec fn node_size(n: Node) -> nat
    decreases n,
{
    1 + containers_size(n.children@)
}

/// The total node count of a sequence of children.
pub open spec fn containers_size(s: Seq<Container>) -> nat
    decreases s,
{
    if s.len() == 0 {
        0
    } else {
        container_size(s[0]) + containers_size(s.subrange(1, s.len() as int))
    }
}

/// The node count of one child.
pub open spec fn container_size(c: Container) -> nat
    decreases c,
{
    match c {
        Container::Node(n) => node_size(n),
        Container::Leaf(_) => 0,
    }
}

/// The total node count of all pending subtrees of a queue.
pub open spec fn queue_size(q: Seq<QueueEntry>) -> nat
    decreases q,
{
    if q.len() == 0 {
        0
    } else {
        node_size(q[0].node) + queue_size(q.subrange(1, q.len() as int))
    }
}

/// The queue entry one child contributes: a node child becomes a pending
/// entry carrying the parent's effective transform and combined depth, a
/// leaf contributes none.
pub open spec fn one_entry(c: Container, m: MatSpec, z: int) -> Seq<QueueEntry> {
    match c {
        Container::Node(n) => seq![QueueEntry { node: n, mat: m, z }],
        Container::Leaf(_) => Seq::empty(),
    }
}

/// The emission one child contributes: a leaf child is emitted with the
/// parent's effective transform and combined depth, a node contributes
/// none here.
pub open spec fn one_emission(c: Container, m: MatSpec, z: int) -> Seq<Emission> {
    match c {
        Container::Leaf(o) => seq![Emission { object: o, mat: m, z }],
        Container::Node(_) => Seq::empty(),
    }
}

/// The queue entries that the node children of `s` contribute, in order,
/// all carrying the parent's effective transform and combined depth.
pub open spec fn child_entries(s: Seq<Container>, m: MatSpec, z: int) -> Seq<QueueEntry>
    decreases s.len(),
{
    if s.len() == 0 {
        Seq::empty()
    } else {
        one_entry(s[0], m, z) + child_entries(s.subrange(1, s.len() as int), m, z)
    }
}

/// The emissions that the leaf children of `s` contribute, in order.
pub open spec fn child_emissions(s: Seq<Container>, m: MatSpec, z: int) -> Seq<Emission>
    decreases s.len(),
{
    if s.len() == 0 {
        Seq::empty()
    } else {
        one_emission(s[0], m, z) + child_emissions(s.subrange(1, s.len() as int), m, z)
    }
}

/// Appending a child appends its queue-entry contribution.
pub proof fn lemma_child_entries_push(s: Seq<Container>, c: Container, m: MatSpec, z: int)
    ensures
        child_entries(s.push(c), m, z) == child_entries(s, m, z) + one_entry(c, m, z),
    decreases s.len(),
{
    if s.len() == 0 {
        assert(s.push(c)[0] == c);
        assert(s.push(c).subrange(1, 1) =~= s);
        assert(child_entries(s.push(c), m, z) =~= child_entries(s, m, z) + one_entry(c, m, z));
    } else {
        assert(s.push(c)[0] == s[0]);
        assert(s.push(c).subrange(1, s.len() as int + 1) =~= s.subrange(1, s.len() as int).push(c));
        lemma_child_entries_push(s.subrange(1, s.len() as int), c, m, z);
        assert(child_entries(s.push(c), m, z) =~= child_entries(s, m, z) + one_entry(c, m, z));
    }
}

/// Appending a child appends its emission contribution.
pub proof fn lemma_child_emissions_push(s: Seq<Container>, c: Container, m: MatSpec, z: int)
    ensures
        child_emissions(s.push(c), m, z) == child_emissions(s, m, z) + one_emission(c, m, z),
    decreases s.len(),
{
    if s.len() == 0 {
        assert(s.push(c)[0] == c);
        assert(s.push(c).subrange(1, 1) =~= s);
        assert(child_emissions(s.push(c), m, z) =~= child_emissions(s, m, z) + one_emission(c, m, z));
    } else {
        assert(s.push(c)[0] == s[0]);
        assert(s.push(c).subrange(1, s.len() as int + 1) =~= s.subrange(1, s.len() as int).push(c));
        lemma_child_emissions_push(s.subrange(1, s.len() as int), c, m, z);
        assert(child_emissions(s.push(c), m, z) =~= child_emissions(s, m, z) + one_emission(c, m, z));
    }
}

/// Concatenating queues adds their sizes.
pub proof fn lemma_queue_size_concat(a: Seq<QueueEntry>, b: Seq<QueueEntry>)
    ensures
        queue_size(a + b) == queue_size(a) + queue_size(b),
    decreases a.len(),
{
    if a.len() == 0 {
        assert(a + b =~= b);
    } else {
        let ab = a + b;
        assert(ab.subrange(1, ab.len() as int) =~= a.subrange(1, a.len() as int) + b);
        lemma_queue_size_concat(a.subrange(1, a.len() as int), b);
    }
}

/// The queue entries contributed by a node's children weigh exactly the
/// children's node count.
pub proof fn lemma_child_entries_size(s: Seq<Container>, m: MatSpec, z: int)
    ensures
        queue_size(child_entries(s, m, z)) == containers_size(s),
    decreases s.len(),
{
    if s.len() == 0 {
    } else {
        let rest_s = s.subrange(1, s.len() as int);
        lemma_child_entries_size(rest_s, m, z);
        match s[0] {
            Container::Node(n) => {
                let e = QueueEntry { node: n, mat: m, z };
                let whole = seq![e] + child_entries(rest_s, m, z);
                assert(one_entry(s[0], m, z) == seq![e]);
                assert(child_entries(s, m, z) == whole);
                assert(whole[0] == e);
                assert(whole.subrange(1, whole.len() as int) =~= child_entries(rest_s, m, z));
                assert(queue_size(whole) == node_size(n) + queue_size(child_entries(rest_s, m, z)));
                assert(containers_size(s) == container_size(s[0]) + containers_size(rest_s));
                assert(container_size(s[0]) == node_size(n));
            },
            Container::Leaf(_) => {
                assert(child_entries(s, m, z) == child_entries(rest_s, m, z));
                assert(containers_size(s) == container_size(s[0]) + containers_size(rest_s));
                assert(container_size(s[0]) == 0);
            },
        }
    }
}

/// The emissions of the breadth-first traversal whose pending queue is `q`,
/// in emission order.
pub open spec fn bfs_emits(q: Seq<QueueEntry>) -> Seq<Emission>
    decreases queue_size(q),
    via bfs_emits_decreases
{
    if q.len() == 0 {
        Seq::empty()
    } else {
        let e = q[0];
        let rest = q.subrange(1, q.len() as int);
        if !e.node.visible {
            bfs_emits(rest)
        } else {
            let m = mat_mul(e.mat, compose_spec(e.node.transform));
            let z = e.z + e.node.z;
            child_emissions(e.node.children@, m, z) + bfs_emits(
                rest + child_entries(e.node.children@, m, z),
            )
        }
    }
}

/// Whether the whole traversal of queue `q` stays within machine range:
/// every visited visible node has an admissible local transform, an
/// effective matrix whose entries fit, and a combined depth that fits.
pub open spec fn bfs_ok(q: Seq<QueueEntry>) -> bool
    decreases queue_size(q),
    via bfs_ok_decreases
{
    if q.len() == 0 {
        true
    } else {
        let e = q[0];
        let rest = q.subrange(1, q.len() as int);
        if !e.node.visible {
            bfs_ok(rest)
        } else {
            let m = mat_mul(e.mat, compose_spec(e.node.transform));
            let z = e.z + e.node.z;
            &&& transform_wf(e.node.transform)
            &&& mat_in_bounds(m)
            &&& i64::MIN <= z <= i64::MAX
            &&& bfs_ok(rest + child_entries(e.node.children@, m, z))
        }
    }
}

#[via_fn]
proof fn bfs_emits_decreases(q: Seq<QueueEntry>) {
    lemma_bfs_step_decreases(q);
}

#[via_fn]
proof fn bfs_ok_decreases(q: Seq<QueueEntry>) {
    lemma_bfs_step_decreases(q);
}

/// One step of the traversal strictly shrinks the pending node count: the
/// head node is consumed and its node children weigh one less than it.
proof fn lemma_bfs_step_decreases(q: Seq<QueueEntry>)
    ensures
        q.len() > 0 ==> {
            let e = q[0];
            let rest = q.subrange(1, q.len() as int);
            let m = mat_mul(e.mat, compose_spec(e.node.transform));
            let z = e.z + e.node.z;
            queue_size(rest) < queue_size(q) && queue_size(
                rest + child_entries(e.node.children@, m, z),
            ) < queue_size(q)
        },
{
    if q.len() > 0 {
        let e = q[0];
        let rest = q.subrange(1, q.len() as int);
        let m = mat_mul(e.mat, compose_spec(e.node.transform));
        let z = e.z + e.node.z;
        lemma_queue_size_concat(rest, child_entries(e.node.children@, m, z));
        lemma_child_entries_size(e.node.children@, m, z);
    }
}

/// The initial queue of a frame: every root node with the identity
/// transform and depth zero, in order.
pub open spec fn init_entries(frame: FrameDescription) -> Seq<QueueEntry> {
    frame.things@.map_values(|n: Node| QueueEntry { node: n, mat: mat_identity(), z: 0 })
}


/// Tag order of the stable sort: by combined depth, ties by emission index.
pub open spec fn key_le(a: (Emission, int), b: (Emission, int)) -> bool {
    a.0.z < b.0.z || (a.0.z == b.0.z && a.1 <= b.1)
}

/// Strict tag order: by combined depth, ties by emission index.
pub open spec fn key_lt(a: (Emission, int), b: (Emission, int)) -> bool {
    a.0.z < b.0.z || (a.0.z == b.0.z && a.1 < b.1)
}

/// Pairs each emission with its emission index, the tie breaker of the
/// stable sort.
pub open spec fn tagged(s: Seq<Emission>) -> Seq<(Emission, int)> {
    Seq::new(s.len(), |i: int| (s[i], i))
}

/// Whether the sequence is strictly ascending in the tag order.
pub open spec fn strictly_sorted(s: Seq<(Emission, int)>) -> bool {
    forall|i: int, j: int| 0 <= i < j < s.len() ==> key_lt(#[trigger] s[i], #[trigger] s[j])
}

/// Inserts a tagged emission after every element that does not exceed it.
pub open spec fn insert_sorted(s: Seq<(Emission, int)>, x: (Emission, int)) -> Seq<
    (Emission, int),
>
    decreases s.len(),
{
    if s.len() == 0 {
        seq![x]
    } else if key_le(s.last(), x) {
        s.push(x)
    } else {
        insert_sorted(s.drop_last(), x).push(s.last())
    }
}

/// Stable insertion sort of tagged emissions.
pub open spec fn sort_tagged(s: Seq<(Emission, int)>) -> Seq<(Emission, int)>
    decreases s.len(),
{
    if s.len() == 0 {
        Seq::empty()
    } else {
        insert_sorted(sort_tagged(s.drop_last()), s.last())
    }
}

/// The flattened scene of one frame: the emissions of the breadth-first
/// traversal, stable-sorted by combined depth, stripped to object and
/// effective transform.
pub open spec fn flatten_spec(frame: FrameDescription) -> Seq<(Object, MatSpec)> {
    sort_tagged(tagged(bfs_emits(init_entries(frame)))).map_values(
        |t: (Emission, int)| (t.0.object, t.0.mat),
    )
}

/// Inserting into a sorted run at the position found by scanning from the
/// right splices the element in place.
pub proof fn lemma_insert_sorted_at(s: Seq<(Emission, int)>, x: (Emission, int), j: int)
    requires
        0 <= j <= s.len(),
        forall|i: int| j <= i < s.len() ==> !key_le(#[trigger] s[i], x),
        j > 0 ==> key_le(s[j - 1], x),
    ensures
        insert_sorted(s, x) == s.subrange(0, j) + seq![x] + s.subrange(j, s.len() as int),
    decreases s.len(),
{
    if j == s.len() {
        if s.len() == 0 {
            assert(insert_sorted(s, x) =~= s.subrange(0, j) + seq![x] + s.subrange(
                j,
                s.len() as int,
            ));
        } else {
            assert(key_le(s.last(), x));
            assert(insert_sorted(s, x) =~= s.subrange(0, j) + seq![x] + s.subrange(
                j,
                s.len() as int,
            ));
        }
    } else {
        assert(!key_le(s[s.len() - 1], x));
        lemma_insert_sorted_at(s.drop_last(), x, j);
        assert(s.drop_last().subrange(0, j) =~= s.subrange(0, j));
        assert(s.drop_last().subrange(j, s.len() - 1) =~= s.subrange(j, s.len() - 1));
        assert(insert_sorted(s, x) =~= s.subrange(0, j) + seq![x] + s.subrange(j, s.len() as int));
    }
}

/// Inserting preserves the elements: the result holds exactly the old
/// elements and the new one.
pub proof fn lemma_insert_sorted_contains(s: Seq<(Emission, int)>, x: (Emission, int))
    ensures
        forall|y: (Emission, int)|
            #[trigger] insert_sorted(s, x).contains(y) <==> (s.contains(y) || y == x),
    decreases s.len(),
{
    if s.len() == 0 {
        assert forall|y: (Emission, int)|
            #[trigger] insert_sorted(s, x).contains(y) <==> (s.contains(y) || y == x) by {
            if insert_sorted(s, x).contains(y) {
                let i = choose|i: int|
                    0 <= i < insert_sorted(s, x).len() && insert_sorted(s, x)[i] == y;
                assert(y == x);
            }
            if y == x {
                assert(insert_sorted(s, x)[0] == y);
            }
        }
    } else if key_le(s.last(), x) {
        assert forall|y: (Emission, int)|
            #[trigger] insert_sorted(s, x).contains(y) <==> (s.contains(y) || y == x) by {
            if insert_sorted(s, x).contains(y) {
                let i = choose|i: int| 0 <= i < s.push(x).len() && s.push(x)[i] == y;
                if i < s.len() {
                    assert(s[i] == y);
                } else {
                    assert(y == x);
                }
            }
            if s.contains(y) {
                let i = choose|i: int| 0 <= i < s.len() && s[i] == y;
                assert(s.push(x)[i] == y);
            }
            if y == x {
                assert(s.push(x)[s.len() as int] == y);
            }
        }
    } else {
        lemma_insert_sorted_contains(s.drop_last(), x);
        let r = insert_sorted(s.drop_last(), x);
        assert forall|y: (Emission, int)|
            #[trigger] insert_sorted(s, x).contains(y) <==> (s.contains(y) || y == x) by {
            if insert_sorted(s, x).contains(y) {
                let i = choose|i: int| 0 <= i < r.push(s.last()).len() && r.push(s.last())[i] == y;
                if i < r.len() {
                    assert(r[i] == y);
                    assert(insert_sorted(s.drop_last(), x).contains(y));
                    if s.drop_last().contains(y) {
                        let i0 = choose|i0: int|
                            0 <= i0 < s.drop_last().len() && s.drop_last()[i0] == y;
                        assert(s[i0] == y);
                    }
                } else {
                    assert(y == s.last());
                    assert(s[s.len() - 1] == y);
                }
            }
            if s.contains(y) {
                let i = choose|i: int| 0 <= i < s.len() && s[i] == y;
                if i < s.len() - 1 {
                    assert(s.drop_last()[i] == y);
                    assert(s.drop_last().contains(y));
                    assert(insert_sorted(s.drop_last(), x).contains(y));
                    let i1 = choose|i1: int| 0 <= i1 < r.len() && r[i1] == y;
                    assert(r.push(s.last())[i1] == y);
                } else {
                    assert(r.push(s.last())[r.len() as int] == y);
                }
            }
            if y == x {
                assert(insert_sorted(s.drop_last(), x).contains(y));
                let i1 = choose|i1: int| 0 <= i1 < r.len() && r[i1] == y;
                assert(r.push(s.last())[i1] == y);
            }
        }
    }
}

/// Inserting an element whose tag is fresh keeps the run strictly sorted.
pub proof fn lemma_insert_sorted_sorted(s: Seq<(Emission, int)>, x: (Emission, int))
    requires
        strictly_sorted(s),
        forall|i: int| 0 <= i < s.len() ==> (#[trigger] s[i]).1 != x.1,
    ensures
        strictly_sorted(insert_sorted(s, x)),
    decreases s.len(),
{
    if s.len() == 0 {
    } else if key_le(s.last(), x) {
        let r = s.push(x);
        assert forall|i: int, j: int| 0 <= i < j < r.len() implies key_lt(
            #[trigger] r[i],
            #[trigger] r[j],
        ) by {
            if j < s.len() {
                assert(key_lt(s[i], s[j]));
            } else {
                assert(r[j] == x);
                assert(r[i] == s[i]);
                if i < s.len() - 1 {
                    assert(key_lt(s[i], s[s.len() - 1]));
                }
                assert(key_le(s[s.len() - 1], x));
                assert(s[i].1 != x.1);
            }
        }
    } else {
        lemma_insert_sorted_sorted(s.drop_last(), x);
        lemma_insert_sorted_contains(s.drop_last(), x);
        let r0 = insert_sorted(s.drop_last(), x);
        let r = r0.push(s.last());
        assert forall|i: int, j: int| 0 <= i < j < r.len() implies key_lt(
            #[trigger] r[i],
            #[trigger] r[j],
        ) by {
            if j < r0.len() {
                assert(key_lt(r0[i], r0[j]));
            } else {
                assert(r[j] == s.last());
                assert(r[i] == r0[i]);
                assert(r0.contains(r0[i]));
                if s.drop_last().contains(r0[i]) {
                    let i0 = choose|i0: int|
                        0 <= i0 < s.drop_last().len() && s.drop_last()[i0] == r0[i];
                    assert(key_lt(s[i0], s[s.len() - 1]));
                } else {
                    assert(r0[i] == x);
                    assert(!key_le(s.last(), x));
                }
            }
        }
    }
}

/// The stable sort of a run with pairwise distinct tags is strictly sorted
/// and holds exactly the elements of its input.
pub proof fn lemma_sort_tagged_props(s: Seq<(Emission, int)>)
    requires
        forall|i: int, j: int|
            0 <= i < j < s.len() ==> (#[trigger] s[i]).1 != (#[trigger] s[j]).1,
    ensures
        strictly_sorted(sort_tagged(s)),
        forall|y: (Emission, int)| #[trigger] sort_tagged(s).contains(y) <==> s.contains(y),
    decreases s.len(),
{
    if s.len() == 0 {
        assert forall|y: (Emission, int)|
            #[trigger] sort_tagged(s).contains(y) <==> s.contains(y) by {
            if sort_tagged(s).contains(y) {
                let i = choose|i: int| 0 <= i < sort_tagged(s).len() && sort_tagged(s)[i] == y;
            }
            if s.contains(y) {
                let i = choose|i: int| 0 <= i < s.len() && s[i] == y;
            }
        }
    } else {
        let d = s.drop_last();
        lemma_sort_tagged_props(d);
        let r0 = sort_tagged(d);
        assert forall|i: int| 0 <= i < r0.len() implies (#[trigger] r0[i]).1 != s.last().1 by {
            assert(sort_tagged(d).contains(r0[i]));
            assert(d.contains(r0[i]));
            let i0 = choose|i0: int| 0 <= i0 < d.len() && d[i0] == r0[i];
            assert(s[i0] == r0[i]);
            assert(s[i0].1 != s[s.len() - 1].1);
        }
        lemma_insert_sorted_sorted(r0, s.last());
        lemma_insert_sorted_contains(r0, s.last());
        assert forall|y: (Emission, int)|
            #[trigger] sort_tagged(s).contains(y) <==> s.contains(y) by {
            if sort_tagged(s).contains(y) {
                assert(insert_sorted(r0, s.last()).contains(y));
                if sort_tagged(d).contains(y) {
                    assert(d.contains(y));
                    let i0 = choose|i0: int| 0 <= i0 < d.len() && d[i0] == y;
                    assert(s[i0] == y);
                } else {
                    assert(y == s.last());
                    assert(s[s.len() - 1] == y);
                }
            }
            if s.contains(y) {
                let i = choose|i: int| 0 <= i < s.len() && s[i] == y;
                if i < s.len() - 1 {
                    assert(d[i] == y);
                    assert(d.contains(y));
                    assert(sort_tagged(d).contains(y));
                    assert(insert_sorted(r0, s.last()).contains(y));
                } else {
                    assert(y == s.last());
                    assert(insert_sorted(r0, s.last()).contains(y));
                }
            }
        }
    }
}

/// Depth ordering of the flattened scene: the stable-sorted emissions of a
/// frame are non-decreasing in combined depth, and emissions of equal depth
/// keep their discovery order.
pub proof fn lemma_depth_ordering(frame: FrameDescription, i: int, j: int)
    requires
        0 <= i < j < sort_tagged(tagged(bfs_emits(init_entries(frame)))).len(),
    ensures
        sort_tagged(tagged(bfs_emits(init_entries(frame))))[i].0.z <= sort_tagged(
            tagged(bfs_emits(init_entries(frame))),
        )[j].0.z,
        sort_tagged(tagged(bfs_emits(init_entries(frame))))[i].0.z == sort_tagged(
            tagged(bfs_emits(init_entries(frame))),
        )[j].0.z ==> sort_tagged(tagged(bfs_emits(init_entries(frame))))[i].1 < sort_tagged(
            tagged(bfs_emits(init_entries(frame))),
        )[j].1,
{
    let t = tagged(bfs_emits(init_entries(frame)));
    lemma_sort_tagged_props(t);
    assert(key_lt(sort_tagged(t)[i], sort_tagged(t)[j]));
}

/// Visibility pruning: an invisible node awaiting traversal contributes
/// nothing at all, so removing it from the queue leaves the emissions
/// unchanged.
pub proof fn lemma_invisible_prunes(q: Seq<QueueEntry>, k: int)
    requires
        0 <= k < q.len(),
        !q[k].node.visible,
    ensures
        bfs_emits(q) == bfs_emits(q.remove(k)),
    decreases queue_size(q),
{
    let rest = q.subrange(1, q.len() as int);
    if k == 0 {
        assert(q.remove(0) =~= rest);
    } else {
        let e = q[0];
        assert(q.remove(k)[0] == q[0]);
        assert(q.remove(k).subrange(1, q.remove(k).len() as int) =~= rest.remove(k - 1));
        lemma_bfs_step_decreases(q);
        if !e.node.visible {
            assert(rest[k - 1] == q[k]);
            lemma_invisible_prunes(rest, k - 1);
        } else {
            let m = mat_mul(e.mat, compose_spec(e.node.transform));
            let z = e.z + e.node.z;
            let ch = child_entries(e.node.children@, m, z);
            assert((rest + ch)[k - 1] == q[k]);
            lemma_invisible_prunes(rest + ch, k - 1);
            assert((rest + ch).remove(k - 1) =~= rest.remove(k - 1) + ch);
        }
    }
}

/// Visibility pruning at the frame level: a frame whose root list drops an
/// invisible root flattens to exactly the same scene.
pub proof fn lemma_invisible_root_pruned(f1: FrameDescription, f2: FrameDescription, k: int)
    requires
        0 <= k < f1.things@.len(),
        !f1.things@[k].visible,
        f2.things@ == f1.things@.remove(k),
    ensures
        flatten_spec(f1) == flatten_spec(f2),
{
    assert(init_entries(f1).remove(k) =~= init_entries(f2));
    lemma_invisible_prunes(init_entries(f1), k);
}


/// The queue entry an executable queue element stands for.
pub open spec fn entry_view(e: (&Node, Transformation2D, i64)) -> QueueEntry {
    QueueEntry { node: *e.0, mat: e.1@, z: e.2 as int }
}

/// The queue the executable queue stands for.
pub open spec fn entries_view(q: Seq<(&Node, Transformation2D, i64)>) -> Seq<QueueEntry> {
    q.map_values(|e: (&Node, Transformation2D, i64)| entry_view(e))
}

/// The emission an executable emitted element stands for.
pub open spec fn item_emission(it: (&Object, Transformation2D, i64, usize)) -> Emission {
    Emission { object: *it.0, mat: it.1@, z: it.2 as int }
}

/// The tagged emission an executable emitted element stands for.
pub open spec fn item_view(it: (&Object, Transformation2D, i64, usize)) -> (Emission, int) {
    (item_emission(it), it.3 as int)
}

/// The emissions the executable emitted list stands for.
pub open spec fn emissions_view(s: Seq<(&Object, Transformation2D, i64, usize)>) -> Seq<
    Emission,
> {
    s.map_values(|it: (&Object, Transformation2D, i64, usize)| item_emission(it))
}

/// The tagged emissions the executable emitted list stands for.
pub open spec fn items_view(s: Seq<(&Object, Transformation2D, i64, usize)>) -> Seq<
    (Emission, int),
> {
    s.map_values(|it: (&Object, Transformation2D, i64, usize)| item_view(it))
}

/// The object/transform pairs the executable output stands for.
pub open spec fn pairs_view(s: Seq<(&Object, Transformation2D)>) -> Seq<(Object, MatSpec)> {
    s.map_values(|p: (&Object, Transformation2D)| (*p.0, p.1@))
}

/// The tag order, executably: first by combined depth, then by emission
/// index.
fn key_le_exec(az: i64, at: usize, bz: i64, bt: usize) -> (r: bool)
    ensures
        r == (az < bz || (az == bz && at <= bt)),
{
    az < bz || (az == bz && at <= bt)
}

/// Converts a frame description into the list of objects to render, each
/// with the transformation to apply to it, sorted from least to greatest
/// combined depth with ties in discovery order; nodes that have `visible`
/// set to false are pruned together with their subtrees.  Fails exactly
/// when some visited transform or depth leaves the fixed-point range.
pub fn frame_description_to_objects<'a>(frame: &'a FrameDescription) -> (r: Result<
    Vec<(&'a Object, Transformation2D)>,
    RenderingError,
>)
    ensures
        match r {
            Ok(v) => bfs_ok(init_entries(*frame)) && pairs_view(v@) == flatten_spec(*frame)
                && (forall|k: int|
                0 <= k < v@.len() ==> mat_in_bounds((#[trigger] v@[k]).1@)),
            Err(e) => e == RenderingError::NumericOverflow && !bfs_ok(init_entries(*frame)),
        },
{
    let ghost init_q = init_entries(*frame);
    proof {
        crate::transform::lemma_identity_composes();
    }
    let identity: Transformation2D = Transform::identity().to_transformation();
    let mut queue: Vec<(&'a Node, Transformation2D, i64)> = Vec::new();
    let mut i: usize = 0;
    while i < frame.things.len()
        invariant
            i <= frame.things@.len(),
            identity@ == mat_identity(),
            queue@.len() == i,
            forall|k: int|
                0 <= k < i ==> entry_view(#[trigger] queue@[k]) == init_entries(*frame)[k],
        decreases frame.things@.len() - i,
    {
        let node: &'a Node = &frame.things[i];
        queue.push((node, identity, 0i64));
        i = i + 1;
    }
    proof {
        assert(entries_view(queue@) =~= init_q);
        assert(entries_view(queue@).skip(0) =~= init_q);
    }
    let mut items: Vec<(&'a Object, Transformation2D, i64, usize)> = Vec::new();
    let mut head: usize = 0;
    while head < queue.len()
        invariant
            head <= queue@.len(),
            init_q == init_entries(*frame),
            forall|k: int|
                head <= k < queue@.len() ==> mat_in_bounds((#[trigger] queue@[k]).1@),
            bfs_ok(init_q) == bfs_ok(entries_view(queue@).skip(head as int)),
            bfs_emits(init_q) == emissions_view(items@) + bfs_emits(
                entries_view(queue@).skip(head as int),
            ),
            forall|k: int| 0 <= k < items@.len() ==> (#[trigger] items@[k]).3 == k,
            forall|k: int| 0 <= k < items@.len() ==> mat_in_bounds((#[trigger] items@[k]).1@),
        decreases queue_size(entries_view(queue@).skip(head as int)),
    {
        let ghost rem = entries_view(queue@).skip(head as int);
        let ghost e = rem[0];
        let (node, mat, z): (&'a Node, Transformation2D, i64) = queue[head];
        proof {
            assert(rem[0] == entries_view(queue@)[head as int]);
            assert(e == entry_view(queue@[head as int]));
            assert(rem.subrange(1, rem.len() as int) =~= entries_view(queue@).skip(
                head as int + 1,
            ));
            lemma_bfs_step_decreases(rem);
        }
        head = head + 1;
        let ghost rest0 = entries_view(queue@).skip(head as int);
        if node.visible {
            if !crate::transform::transform_wf_check(&node.transform) {
                proof {
                    assert(!bfs_ok(rem));
                }
                return Err(RenderingError::NumericOverflow);
            }
            let local: Transformation2D = node.transform.to_transformation();
            let m_new: Transformation2D = match mat.try_multiply(&local) {
                Some(m) => m,
                None => {
                    proof {
                        assert(!bfs_ok(rem));
                    }
                    return Err(RenderingError::NumericOverflow);
                },
            };
            let z_new: i64 = match z.checked_add(node.z) {
                Some(v) => v,
                None => {
                    proof {
                        assert(!bfs_ok(rem));
                    }
                    return Err(RenderingError::NumericOverflow);
                },
            };
            let ghost mm = mat_mul(e.mat, compose_spec(e.node.transform));
            let ghost zz = e.z + e.node.z;
            proof {
                assert(m_new@ == mm);
                assert(z_new as int == zz);
            }
            let ghost items0 = items@;
            let mut j: usize = 0;
            while j < node.children.len()
                invariant
                    j <= node.children@.len(),
                    m_new@ == mm,
                    z_new as int == zz,
                    mat_in_bounds(m_new@),
                    head <= queue@.len(),
                    forall|k: int|
                        head <= k < queue@.len() ==> mat_in_bounds((#[trigger] queue@[k]).1@),
                    entries_view(queue@).skip(head as int) == rest0 + child_entries(
                        node.children@.take(j as int),
                        mm,
                        zz,
                    ),
                    emissions_view(items@) == emissions_view(items0) + child_emissions(
                        node.children@.take(j as int),
                        mm,
                        zz,
                    ),
                    items0 == items@.take(items0.len() as int),
                    forall|k: int| 0 <= k < items@.len() ==> (#[trigger] items@[k]).3 == k,
                    forall|k: int|
                        0 <= k < items@.len() ==> mat_in_bounds((#[trigger] items@[k]).1@),
                decreases node.children@.len() - j,
            {
                let ghost q0 = queue@;
                let ghost it0 = items@;
                let child: &'a Container = &node.children[j];
                proof {
                    assert(node.children@.take(j as int + 1) =~= node.children@.take(
                        j as int,
                    ).push(node.children@[j as int]));
                    lemma_child_entries_push(node.children@.take(j as int), *child, mm, zz);
                    lemma_child_emissions_push(node.children@.take(j as int), *child, mm, zz);
                }
                match child {
                    Container::Node(n) => {
                        queue.push((n, m_new, z_new));
                        proof {
                            assert(entries_view(queue@) =~= entries_view(q0).push(
                                entry_view((n, m_new, z_new)),
                            ));
                            assert(entries_view(queue@).skip(head as int) =~= entries_view(
                                q0,
                            ).skip(head as int).push(entry_view((n, m_new, z_new))));
                            assert(entries_view(queue@).skip(head as int) =~= rest0
                                + child_entries(node.children@.take(j as int + 1), mm, zz));
                            assert(emissions_view(items@) =~= emissions_view(items0)
                                + child_emissions(node.children@.take(j as int + 1), mm, zz));
                        }
                    },
                    Container::Leaf(o) => {
                        let idx = items.len();
                        items.push((o, m_new, z_new, idx));
                        proof {
                            assert(emissions_view(items@) =~= emissions_view(it0).push(
                                item_emission((o, m_new, z_new, idx)),
                            ));
                            assert(emissions_view(items@) =~= emissions_view(items0)
                                + child_emissions(node.children@.take(j as int + 1), mm, zz));
                            assert(entries_view(queue@).skip(head as int) =~= rest0
                                + child_entries(node.children@.take(j as int + 1), mm, zz));
                            assert(items0 =~= items@.take(items0.len() as int));
                        }
                    },
                }
                j = j + 1;
            }
            proof {
                assert(node.children@.take(node.children@.len() as int) =~= node.children@);
                assert(e.node == *node);
                assert(e.node.children@ == node.children@);
                assert(bfs_emits(rem) == child_emissions(node.children@, mm, zz) + bfs_emits(
                    rest0 + child_entries(node.children@, mm, zz),
                ));
                assert(bfs_ok(rem) == bfs_ok(rest0 + child_entries(node.children@, mm, zz)));
                assert(emissions_view(items@) == emissions_view(items0) + child_emissions(
                    node.children@,
                    mm,
                    zz,
                ));
                assert(bfs_emits(init_q) == emissions_view(items@) + bfs_emits(
                    entries_view(queue@).skip(head as int),
                )) by {
                    assert(emissions_view(items0) + (child_emissions(node.children@, mm, zz)
                        + bfs_emits(rest0 + child_entries(node.children@, mm, zz)))
                        =~= (emissions_view(items0) + child_emissions(node.children@, mm, zz))
                        + bfs_emits(rest0 + child_entries(node.children@, mm, zz)));
                }
            }
        } else {
            proof {
                assert(bfs_emits(rem) == bfs_emits(rest0));
                assert(bfs_ok(rem) == bfs_ok(rest0));
            }
        }
    }
    proof {
        assert(entries_view(queue@).skip(head as int) =~= Seq::<QueueEntry>::empty());
        assert(bfs_emits(Seq::<QueueEntry>::empty()) =~= Seq::<Emission>::empty());
        assert(bfs_ok(init_q));
        assert(bfs_emits(init_q) =~= emissions_view(items@));
        assert(items_view(items@) =~= tagged(bfs_emits(init_q)));
    }
    let ghost tv = items_view(items@);
    let mut sorted: Vec<(&'a Object, Transformation2D, i64, usize)> = Vec::new();
    let mut k: usize = 0;
    while k < items.len()
        invariant
            k <= items@.len(),
            tv == items_view(items@),
            items_view(sorted@) == sort_tagged(tv.take(k as int)),
            sorted@.len() == k,
            forall|k3: int| 0 <= k3 < items@.len() ==> mat_in_bounds((#[trigger] items@[k3]).1@),
            forall|k3: int|
                0 <= k3 < sorted@.len() ==> mat_in_bounds((#[trigger] sorted@[k3]).1@),
        decreases items@.len() - k,
    {
        let x: (&'a Object, Transformation2D, i64, usize) = items[k];
        let mut j: usize = sorted.len();
        while j > 0 && !key_le_exec(sorted[j - 1].2, sorted[j - 1].3, x.2, x.3)
            invariant
                j <= sorted@.len(),
                tv == items_view(items@),
                k < items@.len(),
                x == items@[k as int],
                items_view(sorted@) == sort_tagged(tv.take(k as int)),
                sorted@.len() == sort_tagged(tv.take(k as int)).len(),
                forall|i2: int|
                    j <= i2 < sorted@.len() ==> !key_le(
                        item_view(#[trigger] sorted@[i2]),
                        item_view(x),
                    ),
            decreases j,
        {
            proof {
                assert(item_view(sorted@[j - 1]) == items_view(sorted@)[j - 1]);
            }
            j = j - 1;
        }
        let ghost s0 = sorted@;
        proof {
            assert(j > 0 ==> key_le(item_view(s0[j - 1]), item_view(x)));
            assert(forall|i2: int|
                j <= i2 < items_view(s0).len() ==> !key_le(
                    #[trigger] items_view(s0)[i2],
                    item_view(x),
                ));
            assert(j > 0 ==> key_le(items_view(s0)[j as int - 1], item_view(x)));
            lemma_insert_sorted_at(items_view(s0), item_view(x), j as int);
        }
        sorted.insert(j, x);
        proof {
            assert(sorted@ =~= s0.subrange(0, j as int) + seq![x] + s0.subrange(
                j as int,
                s0.len() as int,
            ));
            assert(items_view(sorted@) =~= items_view(s0).subrange(0, j as int) + seq![
                item_view(x)] + items_view(s0).subrange(j as int, items_view(s0).len() as int));
            assert(items_view(sorted@) == insert_sorted(items_view(s0), item_view(x)));
            assert(tv.take(k as int + 1).drop_last() =~= tv.take(k as int));
            assert(tv.take(k as int + 1).last() == item_view(x));
            assert(items_view(sorted@) == sort_tagged(tv.take(k as int + 1)));
            assert forall|k3: int| 0 <= k3 < sorted@.len() implies mat_in_bounds(
                (#[trigger] sorted@[k3]).1@,
            ) by {
                if k3 < j {
                    assert(sorted@[k3] == s0[k3]);
                } else if k3 == j {
                    assert(sorted@[k3] == x);
                } else {
                    assert(sorted@[k3] == s0[k3 - 1]);
                }
            }
        }
        k = k + 1;
    }
    proof {
        assert(tv.take(items@.len() as int) =~= tv);
        assert(items_view(sorted@) == sort_tagged(tagged(bfs_emits(init_q))));
    }
    let mut out: Vec<(&'a Object, Transformation2D)> = Vec::new();
    let mut k2: usize = 0;
    while k2 < sorted.len()
        invariant
            k2 <= sorted@.len(),
            out@.len() == k2,
            forall|i2: int|
                0 <= i2 < k2 ==> (#[trigger] out@[i2]).0 == sorted@[i2].0 && out@[i2].1
                    == sorted@[i2].1,
            forall|k3: int|
                0 <= k3 < sorted@.len() ==> mat_in_bounds((#[trigger] sorted@[k3]).1@),
        decreases sorted@.len() - k2,
    {
        let it: (&'a Object, Transformation2D, i64, usize) = sorted[k2];
        out.push((it.0, it.1));
        k2 = k2 + 1;
    }
    proof {
        assert(pairs_view(out@) =~= flatten_spec(*frame)) by {
            assert forall|i2: int| 0 <= i2 < out@.len() implies pairs_view(out@)[i2]
                == flatten_spec(*frame)[i2] by {
                assert(items_view(sorted@)[i2] == item_view(sorted@[i2]));
            }
            assert(pairs_view(out@).len() == flatten_spec(*frame).len());
        }
        assert forall|k3: int| 0 <= k3 < out@.len() implies mat_in_bounds(
            (#[trigger] out@[k3]).1@,
        ) by {
            assert(out@[k3].1 == sorted@[k3].1);
        }
    }
    Ok(out)
}

} // verus!
