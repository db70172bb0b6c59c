//! Binary search trees used as workloads: one owning its children through
//! `Box`, one sharing subtrees through `Rc`. Both are modeled by the multiset
//! of their values and by the mathematical sum of those values.

use std::rc::Rc;

use vstd::multiset::Multiset;
use vstd::prelude::*;

verus! {

broadcast use vstd::multiset::group_multiset_axioms;

/// Whether `n` lies within the value range of `i64`.
pub open spec fn fits_i64(n: int) -> bool {
    i64::MIN <= n <= i64::MAX
}

/// A binary search tree node owning its children: smaller values go left,
/// all others right.
pub struct TreeNode {
    value: i64,
    left: Option<Box<TreeNode>>,
    right: Option<Box<TreeNode>>,
}

impl TreeNode {
    /// The multiset of values in an optional subtree.
    pub closed spec fn opt_values(node: Option<Box<TreeNode>>) -> Multiset<i64>
        decreases node,
    {
        match node {
            None => Multiset::empty(),
            Some(n) => n.values(),
        }
    }

    /// The multiset of values in the tree.
    pub closed spec fn values(self) -> Multiset<i64>
        decreases self,
    {
        Self::opt_values(self.left).add(Self::opt_values(self.right)).insert(self.value)
    }

    /// The mathematical sum of the values in an optional subtree.
    pub closed spec fn opt_total(node: Option<Box<TreeNode>>) -> int
        decreases node,
    {
        match node {
            None => 0,
            Some(n) => n.total(),
        }
    }

    /// The mathematical sum of the values in the tree.
    pub closed spec fn total(self) -> int
        decreases self,
    {
        self.value + Self::opt_total(self.left) + Self::opt_total(self.right)
    }

    /// Whether the optional subtree keeps the binary-search ordering.
    pub closed spec fn opt_ordered(node: Option<Box<TreeNode>>) -> bool
        decreases node,
    {
        match node {
            None => true,
            Some(n) => n.ordered(),
        }
    }

    /// The binary-search ordering: at every node, every value in its left
    /// subtree is smaller than the node's value, and every value in its right
    /// subtree is at least it.
    pub closed spec fn ordered(self) -> bool
        decreases self,
    {
        &&& (forall|v: i64| Self::opt_values(self.left).count(v) > 0 ==> v < self.value)
        &&& (forall|v: i64| Self::opt_values(self.right).count(v) > 0 ==> v >= self.value)
        &&& Self::opt_ordered(self.left)
        &&& Self::opt_ordered(self.right)
    }

    /// Whether summing an optional subtree stays within `i64` throughout.
    pub closed spec fn opt_sum_in_bounds(node: Option<Box<TreeNode>>) -> bool
        decreases node,
    {
        match node {
            None => true,
            Some(n) => n.sum_in_bounds(),
        }
    }

    /// Whether `sum` can run without any intermediate addition leaving the
    /// value range of `i64`: both subtrees sum within bounds, and so do the
    /// two additions that combine them with this node's value.
    pub closed spec fn sum_in_bounds(self) -> bool
        decreases self,
    {
        &&& Self::opt_sum_in_bounds(self.left)
        &&& Self::opt_sum_in_bounds(self.right)
        &&& fits_i64(self.value + Self::opt_total(self.left))
        &&& fits_i64(self.total())
    }

    /// A leaf holding `value`.
    pub fn new(value: i64) -> (s: Self)
        ensures
            s.values() == Multiset::<i64>::empty().insert(value),
            s.total() == value,
            s.ordered(),
            s.sum_in_bounds(),
    {
        let s = TreeNode { value, left: None, right: None };
        proof {
            assert(s.values() =~= Multiset::<i64>::empty().insert(value));
        }
        s
    }

    /// Inserts `value` into the optional subtree, creating a leaf at an empty
    /// position.
    fn insert_into_optional(node: &mut Option<Box<TreeNode>>, value: i64)
        ensures
            Self::opt_values(*final(node)) == Self::opt_values(*old(node)).insert(value),
            Self::opt_total(*final(node)) == Self::opt_total(*old(node)) + value,
            Self::opt_ordered(*old(node)) ==> Self::opt_ordered(*final(node)),
        decreases *old(node),
    {
        match node.take() {
            None => {
                *node = Some(Box::new(TreeNode::new(value)));
                proof {
                    assert(Self::opt_values(*node) =~= Self::opt_values(None).insert(value));
                }
            },
            Some(mut boxed) => {
                (&mut *boxed).insert(value);
                *node = Some(boxed);
            },
        }
    }

    /// Inserts `value`: to the left of this node when it is smaller than the
    /// node's value, to the right otherwise. The tree afterwards holds
    /// exactly the old values plus `value`, and the binary-search ordering is
    /// preserved.
    pub fn insert(&mut self, value: i64)
        ensures
            final(self).values() == old(self).values().insert(value),
            final(self).total() == old(self).total() + value,
            old(self).ordered() ==> final(self).ordered(),
        decreases *old(self),
    {
        if value < self.value {
            Self::insert_into_optional(&mut self.left, value);
            proof {
                if old(self).ordered() {
                    assert forall|v: i64| Self::opt_values(self.left).count(v) > 0 implies v
                        < self.value by {
                        assert(Self::opt_values(self.left).count(v) == Self::opt_values(
                            old(self).left,
                        ).count(v) + Multiset::singleton(value).count(v));
                    }
                }
            }
        } else {
            Self::insert_into_optional(&mut self.right, value);
            proof {
                if old(self).ordered() {
                    assert forall|v: i64| Self::opt_values(self.right).count(v) > 0 implies v
                        >= self.value by {
                        assert(Self::opt_values(self.right).count(v) == Self::opt_values(
                            old(self).right,
                        ).count(v) + Multiset::singleton(value).count(v));
                    }
                }
            }
        }
        proof {
            assert(self.values() =~= old(self).values().insert(value));
        }
    }

    /// The sum of the values in the optional subtree.
    fn sum_optional(node: &Option<Box<TreeNode>>) -> (r: i64)
        requires
            Self::opt_sum_in_bounds(*node),
        ensures
            r == Self::opt_total(*node),
        decreases *node,
    {
        match node {
            None => 0,
            Some(n) => n.sum(),
        }
    }

    /// The sum of all values in the tree.
    pub fn sum(&self) -> (r: i64)
        requires
            self.sum_in_bounds(),
        ensures
            r == self.total(),
        decreases *self,
    {
        let left_sum = Self::sum_optional(&self.left);
        let right_sum = Self::sum_optional(&self.right);
        self.value + left_sum + right_sum
    }

    /// The sum of an optional subtree is bounded by its node count times a
    /// bound on its values.
    proof fn lemma_opt_total_bounded(node: Option<Box<TreeNode>>, bound: int)
        requires
            0 <= bound,
            forall|v: i64| Self::opt_values(node).count(v) > 0 ==> -bound <= v <= bound,
        ensures
            -(Self::opt_values(node).len() * bound) <= Self::opt_total(node) <= Self::opt_values(
                node,
            ).len() * bound,
        decreases node,
    {
        match node {
            None => {
                assert(Self::opt_values(node).len() == 0);
            },
            Some(n) => {
                assert(Self::opt_values(node) == n.values());
                Self::lemma_total_bounded(*n, bound);
            },
        }
    }

    /// The sum of a tree is bounded by its node count times a bound on its
    /// values.
    proof fn lemma_total_bounded(t: TreeNode, bound: int)
        requires
            0 <= bound,
            forall|v: i64| t.values().count(v) > 0 ==> -bound <= v <= bound,
        ensures
            -(t.values().len() * bound) <= t.total() <= t.values().len() * bound,
        decreases t,
    {
        let lv = Self::opt_values(t.left);
        let rv = Self::opt_values(t.right);
        assert forall|v: i64| lv.count(v) > 0 implies -bound <= v <= bound by {
            assert(t.values().count(v) == lv.count(v) + rv.count(v) + Multiset::singleton(
                t.value,
            ).count(v));
        }
        assert forall|v: i64| rv.count(v) > 0 implies -bound <= v <= bound by {
            assert(t.values().count(v) == lv.count(v) + rv.count(v) + Multiset::singleton(
                t.value,
            ).count(v));
        }
        Self::lemma_opt_total_bounded(t.left, bound);
        Self::lemma_opt_total_bounded(t.right, bound);
        assert(t.values().count(t.value) == lv.count(t.value) + rv.count(t.value)
            + Multiset::singleton(t.value).count(t.value));
        let ll = lv.len() as int;
        let rl = rv.len() as int;
        assert(t.values().len() == 1 + ll + rl);
        assert((1 + ll + rl) * bound == bound + ll * bound + rl * bound) by (nonlinear_arith);
    }

    /// Values all within `[-bound, bound]`, for a node count small enough
    /// that their product fits in `i64`, keep every intermediate addition of
    /// `sum` within `i64`: such a tree can always be summed.
    pub proof fn lemma_bounded_sum_in_bounds(t: TreeNode, bound: int)
        requires
            0 <= bound,
            forall|v: i64| t.values().count(v) > 0 ==> -bound <= v <= bound,
            t.values().len() * bound <= i64::MAX,
        ensures
            t.sum_in_bounds(),
        decreases t,
    {
        let lv = Self::opt_values(t.left);
        let rv = Self::opt_values(t.right);
        assert forall|v: i64| lv.count(v) > 0 implies -bound <= v <= bound by {
            assert(t.values().count(v) == lv.count(v) + rv.count(v) + Multiset::singleton(
                t.value,
            ).count(v));
        }
        assert forall|v: i64| rv.count(v) > 0 implies -bound <= v <= bound by {
            assert(t.values().count(v) == lv.count(v) + rv.count(v) + Multiset::singleton(
                t.value,
            ).count(v));
        }
        let ll = lv.len() as int;
        let rl = rv.len() as int;
        let tlen = t.values().len() as int;
        assert(tlen == 1 + ll + rl);
        assert(tlen * bound == bound + ll * bound + rl * bound) by (nonlinear_arith)
            requires
                tlen == 1 + ll + rl,
        ;
        assert(0 <= ll * bound && 0 <= rl * bound) by (nonlinear_arith)
            requires
                0 <= ll,
                0 <= rl,
                0 <= bound,
        ;
        Self::lemma_opt_bounded_sum_in_bounds(t.left, bound);
        Self::lemma_opt_bounded_sum_in_bounds(t.right, bound);
        Self::lemma_opt_total_bounded(t.left, bound);
        assert(t.values().count(t.value) == lv.count(t.value) + rv.count(t.value)
            + Multiset::singleton(t.value).count(t.value));
        Self::lemma_total_bounded(t, bound);
    }

    /// The optional-subtree form of `lemma_bounded_sum_in_bounds`.
    proof fn lemma_opt_bounded_sum_in_bounds(node: Option<Box<TreeNode>>, bound: int)
        requires
            0 <= bound,
            forall|v: i64| Self::opt_values(node).count(v) > 0 ==> -bound <= v <= bound,
            Self::opt_values(node).len() * bound <= i64::MAX,
        ensures
            Self::opt_sum_in_bounds(node),
        decreases node,
    {
        match node {
            None => {
            },
            Some(n) => {
                assert(Self::opt_values(node) == n.values());
                Self::lemma_bounded_sum_in_bounds(*n, bound);
            },
        }
    }
}

/// Relies on std's `Rc::clone`: the returned handle points to the same
/// allocation, so it carries the same value as the one cloned.
#[verifier::external_body]
fn clone_rc(rc: &Rc<TreeNodeRefCell>) -> (r: Rc<TreeNodeRefCell>)
    ensures
        r == *rc,
{
    rc.clone()
}

/// A binary search tree node sharing its subtrees through `Rc`: an insertion
/// builds a fresh path down to the new leaf and shares every untouched
/// subtree with the tree it grew from.
pub struct TreeNodeRefCell {
    value: i64,
    left: Option<Rc<TreeNodeRefCell>>,
    right: Option<Rc<TreeNodeRefCell>>,
}

impl TreeNodeRefCell {
    /// The multiset of values in an optional shared subtree.
    pub closed spec fn opt_values(node: Option<Rc<TreeNodeRefCell>>) -> Multiset<i64>
        decreases node,
    {
        match node {
            None => Multiset::empty(),
            Some(n) => n.values(),
        }
    }

    /// The multiset of values in the tree.
    pub closed spec fn values(self) -> Multiset<i64>
        decreases self,
    {
        Self::opt_values(self.left).add(Self::opt_values(self.right)).insert(self.value)
    }

    /// The mathematical sum of the values in an optional shared subtree.
    pub closed spec fn opt_total(node: Option<Rc<TreeNodeRefCell>>) -> int
        decreases node,
    {
        match node {
            None => 0,
            Some(n) => n.total(),
        }
    }

    /// The mathematical sum of the values in the tree.
    pub closed spec fn total(self) -> int
        decreases self,
    {
        self.value + Self::opt_total(self.left) + Self::opt_total(self.right)
    }

    /// Whether the optional shared subtree keeps the binary-search ordering.
    pub closed spec fn opt_ordered(node: Option<Rc<TreeNodeRefCell>>) -> bool
        decreases node,
    {
        match node {
            None => true,
            Some(n) => n.ordered(),
        }
    }

    /// The binary-search ordering: at every node, every value in its left
    /// subtree is smaller than the node's value, and every value in its right
    /// subtree is at least it.
    pub closed spec fn ordered(self) -> bool
        decreases self,
    {
        &&& (forall|v: i64| Self::opt_values(self.left).count(v) > 0 ==> v < self.value)
        &&& (forall|v: i64| Self::opt_values(self.right).count(v) > 0 ==> v >= self.value)
        &&& Self::opt_ordered(self.left)
        &&& Self::opt_ordered(self.right)
    }

    /// Whether summing an optional shared subtree stays within `i64`.
    pub closed spec fn opt_sum_in_bounds(node: Option<Rc<TreeNodeRefCell>>) -> bool
        decreases node,
    {
        match node {
            None => true,
            Some(n) => n.sum_in_bounds(),
        }
    }

    /// Whether `sum` can run without any intermediate addition leaving the
    /// value range of `i64`.
    pub closed spec fn sum_in_bounds(self) -> bool
        decreases self,
    {
        &&& Self::opt_sum_in_bounds(self.left)
        &&& Self::opt_sum_in_bounds(self.right)
        &&& fits_i64(self.value + Self::opt_total(self.left))
        &&& fits_i64(self.total())
    }

    /// A shared leaf holding `value`.
    pub fn new(value: i64) -> (s: Rc<Self>)
        ensures
            s.values() == Multiset::<i64>::empty().insert(value),
            s.total() == value,
            s.ordered(),
            s.sum_in_bounds(),
    {
        let s = Rc::new(TreeNodeRefCell { value, left: None, right: None });
        proof {
            assert(s.values() =~= Multiset::<i64>::empty().insert(value));
        }
        s
    }

    /// Inserts `value` below `node`, returning the root of the grown subtree.
    fn insert_into_optional(node: &Option<Rc<TreeNodeRefCell>>, value: i64) -> (r: Rc<
        TreeNodeRefCell,
    >)
        ensures
            r.values() == Self::opt_values(*node).insert(value),
            r.total() == Self::opt_total(*node) + value,
            Self::opt_ordered(*node) ==> r.ordered(),
        decreases *node,
    {
        match node {
            None => Self::new(value),
            Some(n) => Self::insert(n, value),
        }
    }

    /// Inserts `value`: to the left of this node when it is smaller than the
    /// node's value, to the right otherwise. Returns the root of the grown
    /// tree, which holds exactly the old values plus `value`, keeps the
    /// binary-search ordering, and shares every untouched subtree with the
    /// old one.
    pub fn insert(self_rc: &Rc<Self>, value: i64) -> (r: Rc<Self>)
        ensures
            r.values() == self_rc.values().insert(value),
            r.total() == self_rc.total() + value,
            self_rc.ordered() ==> r.ordered(),
        decreases **self_rc,
    {
        let r = if value < self_rc.value {
            let grown = Self::insert_into_optional(&self_rc.left, value);
            let node = Rc::new(
                TreeNodeRefCell {
                    value: self_rc.value,
                    left: Some(grown),
                    right: match &self_rc.right {
                        Some(n) => Some(clone_rc(n)),
                        None => None,
                    },
                },
            );
            proof {
                let ghost pre = **self_rc;
                let ghost post = *node;
                if pre.ordered() {
                    assert(post.right == pre.right);
                    assert forall|v: i64| Self::opt_values(post.left).count(v) > 0 implies v
                        < post.value by {
                        assert(Self::opt_values(post.left).count(v) == Self::opt_values(
                            pre.left,
                        ).count(v) + Multiset::singleton(value).count(v));
                    }
                    assert(post.ordered());
                }
            }
            node
        } else {
            let grown = Self::insert_into_optional(&self_rc.right, value);
            let node = Rc::new(
                TreeNodeRefCell {
                    value: self_rc.value,
                    left: match &self_rc.left {
                        Some(n) => Some(clone_rc(n)),
                        None => None,
                    },
                    right: Some(grown),
                },
            );
            proof {
                let ghost pre = **self_rc;
                let ghost post = *node;
                if pre.ordered() {
                    assert(post.left == pre.left);
                    assert forall|v: i64| Self::opt_values(post.right).count(v) > 0 implies v
                        >= post.value by {
                        assert(Self::opt_values(post.right).count(v) == Self::opt_values(
                            pre.right,
                        ).count(v) + Multiset::singleton(value).count(v));
                    }
                    assert(post.ordered());
                }
            }
            node
        };
        proof {
            assert(r.values() =~= self_rc.values().insert(value));
        }
        r
    }

    /// The sum of the values in the optional shared subtree.
    fn sum_optional(node: &Option<Rc<TreeNodeRefCell>>) -> (r: i64)
        requires
            Self::opt_sum_in_bounds(*node),
        ensures
            r == Self::opt_total(*node),
        decreases *node,
    {
        match node {
            None => 0,
            Some(n) => Self::sum(n),
        }
    }

    /// The sum of all values in the tree.
    pub fn sum(self_rc: &Rc<Self>) -> (r: i64)
        requires
            self_rc.sum_in_bounds(),
        ensures
            r == self_rc.total(),
        decreases **self_rc,
    {
        let left_sum = Self::sum_optional(&self_rc.left);
        let right_sum = Self::sum_optional(&self_rc.right);
        self_rc.value + left_sum + right_sum
    }

    /// The sum of an optional shared subtree is bounded by its node count
    /// times a bound on its values.
    proof fn lemma_opt_total_bounded(node: &Option<Rc<TreeNodeRefCell>>, bound: int)
        requires
            0 <= bound,
            forall|v: i64| Self::opt_values(*node).count(v) > 0 ==> -bound <= v <= bound,
        ensures
            -(Self::opt_values(*node).len() * bound) <= Self::opt_total(*node) <= Self::opt_values(*node).len() * bound,
        decreases node,
    {
        match node {
            None => {
                assert(Self::opt_values(*node).len() == 0);
            },
            Some(n) => {
                assert(Self::opt_values(*node) == n.values());
                Self::lemma_total_bounded(&*n, bound);
            },
        }
    }

    /// The sum of a shared tree is bounded by its node count times a bound on
    /// its values.
    proof fn lemma_total_bounded(t: &TreeNodeRefCell, bound: int)
        requires
            0 <= bound,
            forall|v: i64| t.values().count(v) > 0 ==> -bound <= v <= bound,
        ensures
            -(t.values().len() * bound) <= t.total() <= t.values().len() * bound,
        decreases t,
    {
        let lv = Self::opt_values(t.left);
        let rv = Self::opt_values(t.right);
        assert forall|v: i64| lv.count(v) > 0 implies -bound <= v <= bound by {
            assert(t.values().count(v) == lv.count(v) + rv.count(v) + Multiset::singleton(
                t.value,
            ).count(v));
        }
        assert forall|v: i64| rv.count(v) > 0 implies -bound <= v <= bound by {
            assert(t.values().count(v) == lv.count(v) + rv.count(v) + Multiset::singleton(
                t.value,
            ).count(v));
        }
        Self::lemma_opt_total_bounded(&t.left, bound);
        Self::lemma_opt_total_bounded(&t.right, bound);
        assert(t.values().count(t.value) == lv.count(t.value) + rv.count(t.value)
            + Multiset::singleton(t.value).count(t.value));
        let ll = lv.len() as int;
        let rl = rv.len() as int;
        assert(t.values().len() == 1 + ll + rl);
        assert((1 + ll + rl) * bound == bound + ll * bound + rl * bound) by (nonlinear_arith);
    }

    /// Values all within `[-bound, bound]`, for a node count small enough
    /// that their product fits in `i64`, keep every intermediate addition of
    /// `sum` within `i64`: such a tree can always be summed.
    pub proof fn lemma_bounded_sum_in_bounds(t: &TreeNodeRefCell, bound: int)
        requires
            0 <= bound,
            forall|v: i64| t.values().count(v) > 0 ==> -bound <= v <= bound,
            t.values().len() * bound <= i64::MAX,
        ensures
            t.sum_in_bounds(),
        decreases t,
    {
        let lv = Self::opt_values(t.left);
        let rv = Self::opt_values(t.right);
        assert forall|v: i64| lv.count(v) > 0 implies -bound <= v <= bound by {
            assert(t.values().count(v) == lv.count(v) + rv.count(v) + Multiset::singleton(
                t.value,
            ).count(v));
        }
        assert forall|v: i64| rv.count(v) > 0 implies -bound <= v <= bound by {
            assert(t.values().count(v) == lv.count(v) + rv.count(v) + Multiset::singleton(
                t.value,
            ).count(v));
        }
        let ll = lv.len() as int;
        let rl = rv.len() as int;
        let tlen = t.values().len() as int;
        assert(tlen == 1 + ll + rl);
        assert(tlen * bound == bound + ll * bound + rl * bound) by (nonlinear_arith)
            requires
                tlen == 1 + ll + rl,
        ;
        assert(0 <= ll * bound && 0 <= rl * bound) by (nonlinear_arith)
            requires
                0 <= ll,
                0 <= rl,
                0 <= bound,
        ;
        Self::lemma_opt_bounded_sum_in_bounds(&t.left, bound);
        Self::lemma_opt_bounded_sum_in_bounds(&t.right, bound);
        Self::lemma_opt_total_bounded(&t.left, bound);
        assert(t.values().count(t.value) == lv.count(t.value) + rv.count(t.value)
            + Multiset::singleton(t.value).count(t.value));
        Self::lemma_total_bounded(t, bound);
    }

    /// The optional-subtree form of `lemma_bounded_sum_in_bounds`.
    proof fn lemma_opt_bounded_sum_in_bounds(node: &Option<Rc<TreeNodeRefCell>>, bound: int)
        requires
            0 <= bound,
            forall|v: i64| Self::opt_values(*node).count(v) > 0 ==> -bound <= v <= bound,
            Self::opt_values(*node).len() * bound <= i64::MAX,
        ensures
            Self::opt_sum_in_bounds(*node),
        decreases node,
    {
        match node {
            None => {
            },
            Some(n) => {
                assert(Self::opt_values(*node) == n.values());
                Self::lemma_bounded_sum_in_bounds(&*n, bound);
            },
        }
    }
}

} // verus!
