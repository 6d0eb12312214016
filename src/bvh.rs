//! Shape of the bounding-volume hierarchy.
//!
//! A hierarchy over `count` primitives splits the range of their positions
//! top-down: a range of one primitive becomes a node whose two children are
//! that primitive, a range of two a node over both, and a longer range a node
//! over two child nodes, split at its midpoint. The shape depends on `count`
//! alone; which primitive sits at each position is settled by sorting each
//! node's range along its longest axis before its children are visited, which
//! the preorder numbering below allows.
use vstd::prelude::*;

verus! {

/// One side of a node: a primitive, by its position in the sorted primitive
/// array, or another node, by its slot in the layout.
#[derive(Clone, Copy, Debug, PartialEq, Eq, Structural)]
pub enum BvhChild {
    Leaf(usize),
    Node(usize),
}

/// A node covering the primitive positions `start .. end`.
#[derive(Clone, Copy, Debug, PartialEq, Eq, Structural)]
pub struct BvhSpan {
    pub start: usize,
    pub end: usize,
    pub left: BvhChild,
    pub right: BvhChild,
}

/// Why a hierarchy cannot be built.
#[derive(Clone, Copy, Debug, PartialEq, Eq, Structural)]
pub enum SceneError {
    /// There are no primitives to build it over.
    EmptyScene,
}

/// Number of nodes in the hierarchy over `n` primitives.
pub open spec fn node_count(n: nat) -> nat
    decreases n,
{
    if n <= 2 {
        1
    } else {
        1 + node_count(n / 2) + node_count((n - n / 2) as nat)
    }
}

/// The nodes from slot `k` on hold, in preorder, the subtree over the
/// positions `start .. end`.
pub open spec fn span_at(nodes: Seq<BvhSpan>, k: int, start: int, end: int) -> bool
    decreases end - start,
{
    &&& 0 <= k < nodes.len()
    &&& start < end
    &&& nodes[k].start == start
    &&& nodes[k].end == end
    &&& if end - start == 1 {
        &&& nodes[k].left == BvhChild::Leaf(start as usize)
        &&& nodes[k].right == BvhChild::Leaf(start as usize)
    } else if end - start == 2 {
        &&& nodes[k].left == BvhChild::Leaf(start as usize)
        &&& nodes[k].right == BvhChild::Leaf((start + 1) as usize)
    } else {
        let mid = start + (end - start) / 2;
        let right_slot = k + 1 + node_count((mid - start) as nat);
        &&& nodes[k].left == BvhChild::Node((k + 1) as usize)
        &&& nodes[k].right == BvhChild::Node(right_slot as usize)
        &&& span_at(nodes, k + 1, start, mid)
        &&& span_at(nodes, right_slot, mid, end)
    }
}

proof fn lemma_node_count_bounds(n: nat)
    requires
        n >= 1,
    ensures
        1 <= node_count(n) <= 2 * n - 1,
    decreases n,
{
    if n > 2 {
        lemma_node_count_bounds(n / 2);
        lemma_node_count_bounds((n - n / 2) as nat);
    }
}

/// A subtree depends only on the slots it occupies.
proof fn lemma_span_frame(a: Seq<BvhSpan>, b: Seq<BvhSpan>, k: int, start: int, end: int)
    requires
        span_at(a, k, start, end),
        k + node_count((end - start) as nat) <= b.len(),
        forall|i: int| k <= i < k + node_count((end - start) as nat) ==> a[i] == b[i],
    ensures
        span_at(b, k, start, end),
    decreases end - start,
{
    lemma_node_count_bounds((end - start) as nat);
    if end - start > 2 {
        let mid = start + (end - start) / 2;
        let right_slot = k + 1 + node_count((mid - start) as nat);
        lemma_span_frame(a, b, k + 1, start, mid);
        lemma_span_frame(a, b, right_slot, mid, end);
    }
}

/// Some node of the subtree at slot `k` over `start .. end` has the primitive
/// at position `p` as a child.
proof fn lemma_span_reaches(nodes: Seq<BvhSpan>, k: int, start: int, end: int, p: int)
    requires
        span_at(nodes, k, start, end),
        start <= p < end,
    ensures
        exists|j: int|
            k <= j < k + node_count((end - start) as nat) && j < nodes.len() && #[trigger] has_leaf(
                nodes[j],
                p,
            ),
    decreases end - start,
{
    lemma_node_count_bounds((end - start) as nat);
    if end - start <= 2 {
        assert(has_leaf(nodes[k], p));
    } else {
        let mid = start + (end - start) / 2;
        let right_slot = k + 1 + node_count((mid - start) as nat);
        lemma_node_count_bounds((mid - start) as nat);
        lemma_node_count_bounds((end - mid) as nat);
        if p < mid {
            lemma_span_reaches(nodes, k + 1, start, mid, p);
        } else {
            lemma_span_reaches(nodes, right_slot, mid, end, p);
        }
    }
}

/// `node` has the primitive at position `p` as one of its two children.
pub open spec fn has_leaf(node: BvhSpan, p: int) -> bool {
    node.left == BvhChild::Leaf(p as usize) || node.right == BvhChild::Leaf(p as usize)
}

/// The shape of a hierarchy: node 0 is the root, and each node comes
/// before its children.
pub struct BvhLayout {
    pub count: usize,
    pub nodes: Vec<BvhSpan>,
}

impl BvhLayout {
    pub open spec fn wf(&self) -> bool {
        &&& self.count > 0
        &&& self.nodes@.len() == node_count(self.count as nat)
        &&& span_at(self.nodes@, 0, 0, self.count as int)
    }

    /// No primitive is left out of a hierarchy: each position is a child of
    /// some node.
    pub proof fn lemma_reaches_every_primitive(&self, p: int)
        requires
            self.wf(),
            0 <= p < self.count,
        ensures
            exists|k: int| 0 <= k < self.nodes@.len() && #[trigger] has_leaf(self.nodes@[k], p),
    {
        lemma_span_reaches(self.nodes@, 0, 0, self.count as int, p);
    }

    /// The hierarchy over `count` primitives; none can be built over no
    /// primitives.
    pub fn new(count: usize) -> (r: Result<BvhLayout, SceneError>)
        ensures
            count == 0 <==> r is Err,
            r matches Ok(layout) ==> layout.count == count && layout.wf(),
            r matches Err(e) ==> e == SceneError::EmptyScene,
    {
        if count == 0 {
            return Err(SceneError::EmptyScene);
        }
        let mut nodes: Vec<BvhSpan> = Vec::new();
        Self::new_interval(&mut nodes, 0, count);
        Ok(BvhLayout { count, nodes })
    }

    /// Appends, in preorder, the subtree over `start .. end`.
    fn new_interval(nodes: &mut Vec<BvhSpan>, start: usize, end: usize)
        requires
            start < end,
        ensures
            final(nodes)@.len() == old(nodes)@.len() + node_count((end - start) as nat),
            final(nodes)@.subrange(0, old(nodes)@.len() as int) == old(nodes)@,
            span_at(final(nodes)@, old(nodes)@.len() as int, start as int, end as int),
        decreases end - start,
    {
        let ghost before = nodes@;
        let k = nodes.len();
        let object_span = end - start;
        if object_span == 1 {
            nodes.push(BvhSpan { start, end, left: BvhChild::Leaf(start), right: BvhChild::Leaf(start) });
            assert(nodes@.subrange(0, k as int) =~= before);
        } else if object_span == 2 {
            nodes.push(BvhSpan { start, end, left: BvhChild::Leaf(start), right: BvhChild::Leaf(start + 1) });
            assert(nodes@.subrange(0, k as int) =~= before);
        } else {
            let mid = start + object_span / 2;
            let placeholder = BvhSpan { start, end, left: BvhChild::Leaf(start), right: BvhChild::Leaf(start) };
            nodes.push(placeholder);
            let left_slot = nodes.len();
            Self::new_interval(nodes, start, mid);
            let ghost after_left = nodes@;
            let right_slot = nodes.len();
            Self::new_interval(nodes, mid, end);
            let ghost after_right = nodes@;
            proof {
                lemma_node_count_bounds((mid - start) as nat);
                lemma_node_count_bounds((end - mid) as nat);
                assert(after_left.subrange(0, left_slot as int)[k as int] == placeholder);
                assert forall|i: int| left_slot <= i < right_slot implies after_left[i] == after_right[i] by {
                    assert(after_right.subrange(0, right_slot as int)[i] == after_left[i]);
                }
                lemma_span_frame(after_left, after_right, left_slot as int, start as int, mid as int);
            }
            nodes[k] = BvhSpan { start, end, left: BvhChild::Node(left_slot), right: BvhChild::Node(right_slot) };
            proof {
                lemma_span_frame(after_right, nodes@, left_slot as int, start as int, mid as int);
                lemma_span_frame(after_right, nodes@, right_slot as int, mid as int, end as int);
                assert(nodes@.subrange(0, k as int) =~= before) by {
                    assert forall|i: int| 0 <= i < k implies nodes@[i] == before[i] by {
                        assert(after_left.subrange(0, k as int + 1)[i] == before[i]);
                        assert(after_right.subrange(0, right_slot as int)[i] == after_left[i]);
                    }
                }
            }
        }
    }
}

} // verus!
