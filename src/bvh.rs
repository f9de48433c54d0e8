use vstd::prelude::*;

verus! {

/// One child of a BVH node: a primitive, by its index in the primitive list,
/// or an inner node, by its index in the layout.
#[derive(Clone, Copy, PartialEq, Eq, Structural)]
pub enum BvhChild {
    Leaf(usize),
    Node(usize),
}

/// An inner BVH node over the primitives `[start, end)` of the list.
#[derive(Clone, Copy, PartialEq, Eq, Structural)]
pub struct BvhSpan {
    pub start: usize,
    pub end: usize,
    pub left: BvhChild,
    pub right: BvhChild,
}

/// Where a span of more than two primitives is cut in two.
pub open spec fn split_point(start: int, end: int) -> int {
    start + (end - start) / 2
}

/// Child `c` of a node stands for exactly the primitives `[start, end)`: a leaf
/// for a single primitive, or an earlier node of the layout over that range.
pub open spec fn child_over(nodes: Seq<BvhSpan>, k: int, c: BvhChild, start: int, end: int) -> bool {
    match c {
        BvhChild::Leaf(i) => end == start + 1 && i == start,
        BvhChild::Node(m) => 0 <= m < k && nodes[m as int].start == start && nodes[m as int].end == end,
    }
}

/// Node `k` follows the partition rule: one primitive is referenced twice, two
/// primitives are its two leaves, and a longer span is cut at its midpoint into
/// two inner nodes that come earlier in the layout.
pub open spec fn node_ok(nodes: Seq<BvhSpan>, k: int) -> bool {
    let nd = nodes[k];
    let len = nd.end - nd.start;
    &&& nd.start < nd.end
    &&& len == 1 ==> nd.left == BvhChild::Leaf(nd.start) && nd.right == BvhChild::Leaf(nd.start)
    &&& len == 2 ==> nd.left == BvhChild::Leaf(nd.start) && nd.right == BvhChild::Leaf(
        (nd.start + 1) as usize,
    )
    &&& len > 2 ==> (nd.left is Node) && (nd.right is Node) && child_over(
        nodes,
        k,
        nd.left,
        nd.start as int,
        split_point(nd.start as int, nd.end as int),
    ) && child_over(nodes, k, nd.right, split_point(nd.start as int, nd.end as int), nd.end as int)
}

/// Node `k` has node `m` as a child.
pub open spec fn is_parent(nodes: Seq<BvhSpan>, k: int, m: int) -> bool {
    ||| (nodes[k].left is Node && nodes[k].left->Node_0 == m)
    ||| (nodes[k].right is Node && nodes[k].right->Node_0 == m)
}

/// Node `m` is the child of exactly one node, and that node comes later.
pub open spec fn has_one_parent(nodes: Seq<BvhSpan>, m: int) -> bool {
    &&& exists|k: int| m < k < nodes.len() && #[trigger] is_parent(nodes, k, m)
    &&& forall|k1: int, k2: int|
        0 <= k1 < nodes.len() && 0 <= k2 < nodes.len() && #[trigger] is_parent(nodes, k1, m)
            && #[trigger] is_parent(nodes, k2, m) ==> k1 == k2
}

/// The inner children of node `k` lie at `lo` or later.
pub open spec fn children_from(nodes: Seq<BvhSpan>, k: int, lo: int) -> bool {
    &&& (match nodes[k].left {
        BvhChild::Node(m) => lo <= m,
        BvhChild::Leaf(_) => true,
    })
    &&& (match nodes[k].right {
        BvhChild::Node(m) => lo <= m,
        BvhChild::Leaf(_) => true,
    })
}

/// A BVH over `n` primitives: every node follows the partition rule, the last
/// node, the root, spans the whole list, and every other node is the child of
/// exactly one later node, so that all nodes form the one tree under the root.
pub open spec fn layout_ok(nodes: Seq<BvhSpan>, n: int) -> bool {
    &&& nodes.len() > 0
    &&& nodes.last().start == 0
    &&& nodes.last().end == n
    &&& forall|k: int| 0 <= k < nodes.len() ==> #[trigger] node_ok(nodes, k)
    &&& forall|m: int| 0 <= m < nodes.len() - 1 ==> #[trigger] has_one_parent(nodes, m)
}

/// A child comes before its parent.
proof fn lemma_parent_later(nodes: Seq<BvhSpan>, k: int, m: int)
    requires
        0 <= k < nodes.len(),
        0 <= m,
        node_ok(nodes, k),
        is_parent(nodes, k, m),
    ensures
        m < k,
{
}

/// Joining two subtrees built one after the other under a new root keeps one
/// parent per node and children inside the new part.
proof fn lemma_join(
    before: Seq<BvhSpan>,
    after_left: Seq<BvhSpan>,
    after_right: Seq<BvhSpan>,
    f: Seq<BvhSpan>,
)
    requires
        before.len() < after_left.len() < after_right.len(),
        f.len() == after_right.len() + 1,
        f.len() <= usize::MAX,
        after_left.subrange(0, before.len() as int) == before,
        after_right.subrange(0, after_left.len() as int) == after_left,
        f.subrange(0, after_right.len() as int) == after_right,
        f.last().left == BvhChild::Node((after_left.len() - 1) as usize),
        f.last().right == BvhChild::Node((after_right.len() - 1) as usize),
        forall|k: int| 0 <= k < f.len() ==> #[trigger] node_ok(f, k),
        forall|k: int| before.len() <= k < after_left.len() ==> #[trigger] children_from(after_left, k, before.len() as int),
        forall|m: int| before.len() <= m < after_left.len() - 1 ==> #[trigger] has_one_parent(after_left, m),
        forall|k: int| after_left.len() <= k < after_right.len() ==> #[trigger] children_from(after_right, k, after_left.len() as int),
        forall|m: int| after_left.len() <= m < after_right.len() - 1 ==> #[trigger] has_one_parent(after_right, m),
    ensures
        forall|k: int| before.len() <= k < f.len() ==> #[trigger] children_from(f, k, before.len() as int),
        forall|m: int| before.len() <= m < f.len() - 1 ==> #[trigger] has_one_parent(f, m),
{
    let o = before.len() as int;
    let a = after_left.len() as int;
    let b = after_right.len() as int;
    assert forall|k: int| 0 <= k < b implies #[trigger] f[k] == after_right[k] by {
        assert(f.subrange(0, b)[k] == f[k]);
    }
    assert forall|k: int| 0 <= k < a implies #[trigger] after_right[k] == after_left[k] by {
        assert(after_right.subrange(0, a)[k] == after_right[k]);
    }
    assert forall|k: int| o <= k < f.len() implies #[trigger] children_from(f, k, o) by {
        if k < a {
            assert(children_from(after_left, k, o));
            assert(f[k] == after_right[k]);
            assert(after_right[k] == after_left[k]);
        } else if k < b {
            assert(children_from(after_right, k, a));
            assert(f[k] == after_right[k]);
        }
    }
    assert forall|m: int| o <= m < f.len() - 1 implies #[trigger] has_one_parent(f, m) by {
        // Every parent of `m` in `f`, and where it must lie.
        assert forall|k: int| 0 <= k < f.len() && #[trigger] is_parent(f, k, m) implies (if m < a - 1 {
            k < a && is_parent(after_left, k, m)
        } else if m == a - 1 {
            k == b
        } else if m < b - 1 {
            a <= k < b && is_parent(after_right, k, m)
        } else {
            k == b
        }) by {
            lemma_parent_later(f, k, m);
            if k < b {
                assert(f[k] == after_right[k]);
                if k < a {
                    assert(after_right[k] == after_left[k]);
                } else {
                    assert(children_from(after_right, k, a));
                }
            }
        }
        if m < a - 1 {
            assert(has_one_parent(after_left, m));
            let w = choose|k: int| m < k < after_left.len() && #[trigger] is_parent(after_left, k, m);
            assert(f[w] == after_right[w]);
            assert(after_right[w] == after_left[w]);
            assert(is_parent(f, w, m));
        } else if m == a - 1 {
            assert(is_parent(f, b, m));
        } else if m < b - 1 {
            assert(has_one_parent(after_right, m));
            let w = choose|k: int| m < k < after_right.len() && #[trigger] is_parent(after_right, k, m);
            assert(f[w] == after_right[w]);
            assert(is_parent(f, w, m));
        } else {
            assert(is_parent(f, b, m));
        }
    }
}

/// Appends the nodes of the subtree over `[start, end)` in post-order (children
/// before their parent) and returns the index of its root.
fn build_span(nodes: &mut Vec<BvhSpan>, start: usize, end: usize) -> (r: usize)
    requires
        start < end,
        old(nodes)@.len() + 2 * (end - start) <= usize::MAX,
        forall|k: int| 0 <= k < old(nodes)@.len() ==> #[trigger] node_ok(old(nodes)@, k),
    ensures
        final(nodes)@.len() > old(nodes)@.len(),
        final(nodes)@.len() < old(nodes)@.len() + 2 * (end - start),
        r == final(nodes)@.len() - 1,
        final(nodes)@.subrange(0, old(nodes)@.len() as int) == old(nodes)@,
        final(nodes)@[r as int].start == start,
        final(nodes)@[r as int].end == end,
        forall|k: int| 0 <= k < final(nodes)@.len() ==> #[trigger] node_ok(final(nodes)@, k),
        forall|k: int|
            old(nodes)@.len() <= k < final(nodes)@.len() ==> #[trigger] children_from(final(nodes)@, k, old(nodes)@.len() as int),
        forall|m: int|
            old(nodes)@.len() <= m < final(nodes)@.len() - 1 ==> #[trigger] has_one_parent(final(nodes)@, m),
    decreases end - start,
{
    let span: usize = end - start;
    let ghost before = nodes@;
    if span == 1 {
        nodes.push(BvhSpan { start, end, left: BvhChild::Leaf(start), right: BvhChild::Leaf(start) });
        proof {
            assert(nodes@.subrange(0, before.len() as int) =~= before);
            lemma_push_keeps(before, nodes@);
        }
        nodes.len() - 1
    } else if span == 2 {
        nodes.push(
            BvhSpan { start, end, left: BvhChild::Leaf(start), right: BvhChild::Leaf(start + 1) },
        );
        proof {
            assert(nodes@.subrange(0, before.len() as int) =~= before);
            lemma_push_keeps(before, nodes@);
        }
        nodes.len() - 1
    } else {
        let mid: usize = start + span / 2;
        let l = build_span(nodes, start, mid);
        let ghost after_left = nodes@;
        let r = build_span(nodes, mid, end);
        let ghost after_right = nodes@;
        assert(after_right[l as int] == after_left[l as int]) by {
            assert(after_right.subrange(0, after_left.len() as int)[l as int] == after_right[l as int]);
        }
        nodes.push(BvhSpan { start, end, left: BvhChild::Node(l), right: BvhChild::Node(r) });
        proof {
            assert(nodes@.subrange(0, after_right.len() as int) =~= after_right);
            lemma_push_keeps(after_right, nodes@);
            assert(nodes@.subrange(0, before.len() as int) =~= before) by {
                assert(after_left.subrange(0, before.len() as int) == before);
                assert(after_right.subrange(0, after_left.len() as int) == after_left);
                assert(nodes@.subrange(0, after_right.len() as int) == after_right);
            }
            let k = nodes@.len() - 1;
            assert(nodes@[l as int] == after_right[l as int]);
            assert(nodes@[r as int] == after_right[r as int]);
            assert(node_ok(nodes@, k));
            lemma_join(before, after_left, after_right, nodes@);
        }
        nodes.len() - 1
    }
}

/// Appending a node keeps every earlier node's rule, since a node only looks at
/// itself and earlier nodes.
proof fn lemma_push_keeps(before: Seq<BvhSpan>, after: Seq<BvhSpan>)
    requires
        after.len() == before.len() + 1,
        after.subrange(0, before.len() as int) == before,
        forall|k: int| 0 <= k < before.len() ==> #[trigger] node_ok(before, k),
        node_ok(after, before.len() as int),
    ensures
        forall|k: int| 0 <= k < after.len() ==> #[trigger] node_ok(after, k),
{
    assert forall|k: int| 0 <= k < after.len() implies #[trigger] node_ok(after, k) by {
        if k < before.len() {
            assert(node_ok(before, k));
            assert forall|m: int| 0 <= m <= k implies after[m] == before[m] by {
                assert(after.subrange(0, before.len() as int)[m] == after[m]);
            }
        }
    }
}

/// The primitives that one child refers to, directly or through its subtree.
pub open spec fn child_leaves(nodes: Seq<BvhSpan>, k: int, c: BvhChild) -> Set<int>
    decreases k, 0int,
{
    match c {
        BvhChild::Leaf(i) => set![i as int],
        BvhChild::Node(m) => if 0 <= m < k {
            node_leaves(nodes, m as int)
        } else {
            Set::empty()
        },
    }
}

/// The primitives that the leaves under node `k` refer to.
pub open spec fn node_leaves(nodes: Seq<BvhSpan>, k: int) -> Set<int>
    decreases k, 1int,
{
    if 0 <= k < nodes.len() {
        child_leaves(nodes, k, nodes[k].left).union(child_leaves(nodes, k, nodes[k].right))
    } else {
        Set::empty()
    }
}

/// The primitives `[start, end)`.
pub open spec fn index_range(start: int, end: int) -> Set<int> {
    Set::new(|i: int| start <= i < end)
}

proof fn lemma_node_leaves(nodes: Seq<BvhSpan>, k: int)
    requires
        0 <= k < nodes.len(),
        forall|m: int| 0 <= m < nodes.len() ==> #[trigger] node_ok(nodes, m),
    ensures
        node_leaves(nodes, k) == index_range(nodes[k].start as int, nodes[k].end as int),
    decreases k,
{
    let nd = nodes[k];
    assert(node_ok(nodes, k));
    let len = nd.end - nd.start;
    if len == 1 {
        assert(node_leaves(nodes, k) =~= index_range(nd.start as int, nd.end as int));
    } else if len == 2 {
        assert(node_leaves(nodes, k) =~= index_range(nd.start as int, nd.end as int));
    } else {
        let mid = split_point(nd.start as int, nd.end as int);
        if let BvhChild::Node(a) = nd.left {
            if let BvhChild::Node(b) = nd.right {
                lemma_node_leaves(nodes, a as int);
                lemma_node_leaves(nodes, b as int);
                assert(child_leaves(nodes, k, nd.left) == node_leaves(nodes, a as int));
                assert(child_leaves(nodes, k, nd.right) == node_leaves(nodes, b as int));
                assert(node_leaves(nodes, k) =~= index_range(nd.start as int, nd.end as int));
            }
        }
    }
}

/// Every primitive of the list is reached from the root, and nothing else: the
/// leaves under the root refer to exactly the indices `0, 1, ..., n - 1`, so a
/// query through the BVH can see every primitive that a scan of the list sees.
pub proof fn layout_covers_every_primitive(nodes: Seq<BvhSpan>, n: int)
    requires
        layout_ok(nodes, n),
    ensures
        node_leaves(nodes, nodes.len() - 1) == index_range(0, n),
{
    lemma_node_leaves(nodes, nodes.len() - 1);
}

/// The node layout of the BVH over `n` primitives, children before parents and
/// the root last. After the caller has sorted each span of more than two
/// primitives along its node's axis, visiting the nodes from the root down,
/// the leaves refer to primitives by their place in the sorted list.
pub fn bvh_layout(n: usize) -> (r: Vec<BvhSpan>)
    requires
        0 < n,
        2 * n <= usize::MAX,
    ensures
        layout_ok(r@, n as int),
        r@.len() <= 2 * n,
{
    let mut nodes: Vec<BvhSpan> = Vec::new();
    build_span(&mut nodes, 0, n);
    nodes
}

} // verus!
