//! The tree of split panes.
use vstd::prelude::*;

verus! {

pub type PaneId = u64;

#[derive(Debug, Clone, Copy, PartialEq, Eq, Structural)]
pub enum SplitDirection {
    Vertical,
    Horizontal,
}

/// A pane, or a split of the space into two parts. The ratio `R` is what the
/// renderer measures the first part with.
#[derive(Debug)]
pub enum PaneNode<R> {
    Leaf(PaneId),
    Split { direction: SplitDirection, left: Box<PaneNode<R>>, right: Box<PaneNode<R>>, ratio: R },
}

/// One step of laying panes out: a pane takes the next free part of the space,
/// or a divider splits that part into two.
#[derive(Debug)]
pub enum LayoutStep<R> {
    Pane(PaneId),
    Divider { direction: SplitDirection, ratio: R, touches_focused: bool },
}

impl<R> PaneNode<R> {
    /// The panes from left to right and from top to bottom.
    pub open spec fn leaf_ids(self) -> Seq<PaneId>
        decreases self,
    {
        match self {
            PaneNode::Leaf(id) => seq![id],
            PaneNode::Split { left, right, .. } => left.leaf_ids() + right.leaf_ids(),
        }
    }

    pub open spec fn holds(self, id: PaneId) -> bool
        decreases self,
    {
        match self {
            PaneNode::Leaf(leaf) => leaf == id,
            PaneNode::Split { left, right, .. } => left.holds(id) || right.holds(id),
        }
    }

    /// The tree with the first pane `target` split, and `new` behind it.
    pub open spec fn with_split(
        self,
        target: PaneId,
        new: PaneId,
        direction: SplitDirection,
        ratio: R,
    ) -> PaneNode<R>
        decreases self,
    {
        match self {
            PaneNode::Leaf(id) => if id == target {
                PaneNode::Split {
                    direction,
                    left: Box::new(PaneNode::Leaf(target)),
                    right: Box::new(PaneNode::Leaf(new)),
                    ratio,
                }
            } else {
                self
            },
            PaneNode::Split { direction: kept, left, right, ratio: own } => if left.holds(target) {
                PaneNode::Split {
                    direction: kept,
                    left: Box::new(left.with_split(target, new, direction, ratio)),
                    right,
                    ratio: own,
                }
            } else {
                PaneNode::Split {
                    direction: kept,
                    left,
                    right: Box::new(right.with_split(target, new, direction, ratio)),
                    ratio: own,
                }
            },
        }
    }

    pub open spec fn is_leaf(self, id: PaneId) -> bool {
        self == PaneNode::<R>::Leaf(id)
    }

    /// A pane can be removed where it is one part of a split.
    pub open spec fn removable(self, target: PaneId) -> bool
        decreases self,
    {
        match self {
            PaneNode::Leaf(_) => false,
            PaneNode::Split { left, right, .. } => left.is_leaf(target) || right.is_leaf(target)
                || left.removable(target) || right.removable(target),
        }
    }

    /// The tree without a pane; the other part of its split takes its place.
    pub open spec fn without(self, target: PaneId) -> PaneNode<R>
        decreases self,
    {
        match self {
            PaneNode::Leaf(_) => self,
            PaneNode::Split { direction, left, right, ratio } => if left.is_leaf(target) {
                *right
            } else if right.is_leaf(target) {
                *left
            } else if left.removable(target) {
                PaneNode::Split {
                    direction,
                    left: Box::new(left.without(target)),
                    right,
                    ratio,
                }
            } else {
                PaneNode::Split {
                    direction,
                    left,
                    right: Box::new(right.without(target)),
                    ratio,
                }
            },
        }
    }

    /// The ratio of the split that a pane is directly part of, if the pane
    /// occurs on one side only all the way down.
    pub open spec fn parent_ratio(self, target: PaneId) -> Option<R>
        decreases self,
    {
        match self {
            PaneNode::Leaf(_) => None,
            PaneNode::Split { left, right, ratio, .. } => if left.holds(target) && !right.holds(
                target,
            ) {
                if left.is_leaf(target) { Some(ratio) } else { left.parent_ratio(target) }
            } else if right.holds(target) && !left.holds(target) {
                if right.is_leaf(target) { Some(ratio) } else { right.parent_ratio(target) }
            } else {
                None
            },
        }
    }

    /// The tree with another ratio of that split.
    pub open spec fn with_parent_ratio(self, target: PaneId, new: R) -> PaneNode<R>
        decreases self,
    {
        match self {
            PaneNode::Leaf(_) => self,
            PaneNode::Split { direction, left, right, ratio } => if left.holds(target)
                && !right.holds(target) {
                if left.is_leaf(target) {
                    PaneNode::Split { direction, left, right, ratio: new }
                } else {
                    PaneNode::Split {
                        direction,
                        left: Box::new(left.with_parent_ratio(target, new)),
                        right,
                        ratio,
                    }
                }
            } else if right.holds(target) && !left.holds(target) {
                if right.is_leaf(target) {
                    PaneNode::Split { direction, left, right, ratio: new }
                } else {
                    PaneNode::Split {
                        direction,
                        left,
                        right: Box::new(right.with_parent_ratio(target, new)),
                        ratio,
                    }
                }
            } else {
                self
            },
        }
    }

    /// The steps of laying the panes out.
    pub open spec fn steps(self, focused: PaneId) -> Seq<LayoutStep<R>>
        decreases self,
    {
        match self {
            PaneNode::Leaf(id) => seq![LayoutStep::Pane(id)],
            PaneNode::Split { direction, left, right, ratio } => seq![
                LayoutStep::Divider {
                    direction,
                    ratio,
                    touches_focused: left.holds(focused) || right.holds(focused),
                },
            ] + left.steps(focused) + right.steps(focused),
        }
    }

    /// Whether a pane is in the tree.
    pub fn contains(node: &PaneNode<R>, id: PaneId) -> (r: bool)
        ensures
            r == node.holds(id),
        decreases *node,
    {
        match node {
            PaneNode::Leaf(leaf) => *leaf == id,
            PaneNode::Split { left, right, .. } => {
                PaneNode::contains(left, id) || PaneNode::contains(right, id)
            },
        }
    }

    pub fn is_single_leaf(&self) -> (r: bool)
        ensures
            r == (self is Leaf),
    {
        match self {
            PaneNode::Leaf(_) => true,
            PaneNode::Split { .. } => false,
        }
    }

    fn is_leaf_of(&self, id: PaneId) -> (r: bool)
        ensures
            r == self.is_leaf(id),
    {
        match self {
            PaneNode::Leaf(leaf) => *leaf == id,
            PaneNode::Split { .. } => false,
        }
    }

    pub fn collect_leaf_ids(&self, out: &mut Vec<PaneId>)
        ensures
            final(out)@ == old(out)@ + self.leaf_ids(),
        decreases *self,
    {
        match self {
            PaneNode::Leaf(id) => {
                out.push(*id);
                proof {
                    assert(out@ =~= old(out)@ + self.leaf_ids());
                }
            },
            PaneNode::Split { left, right, .. } => {
                left.collect_leaf_ids(out);
                right.collect_leaf_ids(out);
                proof {
                    assert(out@ =~= old(out)@ + self.leaf_ids());
                }
            },
        }
    }

    /// Split the first pane `target_id`; it stays left or on top, and `new_id`
    /// comes behind it.
    pub fn split_leaf(
        &mut self,
        target_id: PaneId,
        new_id: PaneId,
        direction: SplitDirection,
        ratio: R,
    ) -> (r: bool)
        ensures
            r == old(self).holds(target_id),
            r ==> *final(self) == old(self).with_split(target_id, new_id, direction, ratio),
            !r ==> *final(self) == *old(self),
        decreases *old(self),
    {
        match self {
            PaneNode::Leaf(id) => {
                if *id != target_id {
                    return false;
                }
            },
            PaneNode::Split { left, right, .. } => {
                if PaneNode::contains(left, target_id) {
                    return left.split_leaf(target_id, new_id, direction, ratio);
                }
                return right.split_leaf(target_id, new_id, direction, ratio);
            },
        }
        *self = PaneNode::Split {
            direction,
            left: Box::new(PaneNode::Leaf(target_id)),
            right: Box::new(PaneNode::Leaf(new_id)),
            ratio,
        };
        true
    }

    /// Remove a pane; the other part of its split takes its place. The last
    /// pane stays.
    pub fn remove_leaf(&mut self, target_id: PaneId) -> (r: bool)
        ensures
            r == old(self).removable(target_id),
            r ==> *final(self) == old(self).without(target_id),
            !r ==> *final(self) == *old(self),
        decreases *old(self),
    {
        let mut taken: PaneNode<R> = PaneNode::Leaf(0);
        match self {
            PaneNode::Leaf(_) => {
                return false;
            },
            PaneNode::Split { left, right, .. } => {
                if left.is_leaf_of(target_id) {
                    core::mem::swap(&mut **right, &mut taken);
                } else if right.is_leaf_of(target_id) {
                    core::mem::swap(&mut **left, &mut taken);
                } else {
                    if left.remove_leaf(target_id) {
                        return true;
                    }
                    return right.remove_leaf(target_id);
                }
            },
        }
        *self = taken;
        true
    }
}

impl<R: Copy> PaneNode<R> {
    /// The ratio of the split that a pane is directly part of.
    pub fn ratio_of(&self, target_id: PaneId) -> (r: Option<R>)
        ensures
            r == self.parent_ratio(target_id),
        decreases *self,
    {
        match self {
            PaneNode::Leaf(_) => None,
            PaneNode::Split { left, right, ratio, .. } => {
                let left_has: bool = PaneNode::contains(left, target_id);
                let right_has: bool = PaneNode::contains(right, target_id);
                if left_has && !right_has {
                    if left.is_leaf_of(target_id) {
                        Some(*ratio)
                    } else {
                        left.ratio_of(target_id)
                    }
                } else if right_has && !left_has {
                    if right.is_leaf_of(target_id) {
                        Some(*ratio)
                    } else {
                        right.ratio_of(target_id)
                    }
                } else {
                    None
                }
            },
        }
    }

    /// Set the ratio of the split that a pane is directly part of.
    pub fn adjust_ratio(&mut self, target_id: PaneId, new_ratio: R) -> (r: bool)
        ensures
            r == (old(self).parent_ratio(target_id) is Some),
            *final(self) == old(self).with_parent_ratio(target_id, new_ratio),
        decreases *old(self),
    {
        match self {
            PaneNode::Leaf(_) => false,
            PaneNode::Split { left, right, ratio, .. } => {
                let left_has: bool = PaneNode::contains(left, target_id);
                let right_has: bool = PaneNode::contains(right, target_id);
                if left_has && !right_has {
                    if left.is_leaf_of(target_id) {
                        *ratio = new_ratio;
                        true
                    } else {
                        left.adjust_ratio(target_id, new_ratio)
                    }
                } else if right_has && !left_has {
                    if right.is_leaf_of(target_id) {
                        *ratio = new_ratio;
                        true
                    } else {
                        right.adjust_ratio(target_id, new_ratio)
                    }
                } else {
                    false
                }
            },
        }
    }

    /// The steps of laying the panes out: a divider comes before the panes on
    /// its two sides.
    pub fn layout_steps(&self, focused: PaneId, out: &mut Vec<LayoutStep<R>>)
        ensures
            final(out)@ == old(out)@ + self.steps(focused),
        decreases *self,
    {
        match self {
            PaneNode::Leaf(id) => {
                out.push(LayoutStep::Pane(*id));
                proof {
                    assert(out@ =~= old(out)@ + self.steps(focused));
                }
            },
            PaneNode::Split { direction, left, right, ratio } => {
                let touches_focused: bool = PaneNode::contains(left, focused)
                    || PaneNode::contains(right, focused);
                out.push(
                    LayoutStep::Divider {
                        direction: *direction,
                        ratio: *ratio,
                        touches_focused,
                    },
                );
                left.layout_steps(focused, out);
                right.layout_steps(focused, out);
                proof {
                    assert(out@ =~= old(out)@ + self.steps(focused));
                }
            },
        }
    }
}

/// A pane is in the tree exactly if it is one of its leaves.
pub proof fn law_leaves_are_held<R>(node: PaneNode<R>, id: PaneId)
    ensures
        node.holds(id) <==> node.leaf_ids().contains(id),
    decreases node,
{
    match node {
        PaneNode::Leaf(leaf) => {
            assert(node.leaf_ids()[0] == leaf);
        },
        PaneNode::Split { left, right, .. } => {
            law_leaves_are_held(*left, id);
            law_leaves_are_held(*right, id);
            let l = left.leaf_ids();
            let r = right.leaf_ids();
            if left.holds(id) {
                let i = choose|i: int| 0 <= i < l.len() && l[i] == id;
                assert((l + r)[i] == id);
            }
            if right.holds(id) {
                let i = choose|i: int| 0 <= i < r.len() && r[i] == id;
                assert((l + r)[l.len() + i] == id);
            }
            if node.leaf_ids().contains(id) {
                let i = choose|i: int| 0 <= i < (l + r).len() && (l + r)[i] == id;
                if i < l.len() {
                    assert(l[i] == id);
                } else {
                    assert(r[i - l.len()] == id);
                }
            }
        },
    }
}

/// Every pane can be removed but the only one.
pub proof fn law_every_pane_but_the_last_is_removable<R>(node: PaneNode<R>, target: PaneId)
    ensures
        node.removable(target) <==> node is Split && node.holds(target),
    decreases node,
{
    match node {
        PaneNode::Leaf(_) => {
            assert(!node.removable(target));
        },
        PaneNode::Split { left, right, .. } => {
            law_every_pane_but_the_last_is_removable(*left, target);
            law_every_pane_but_the_last_is_removable(*right, target);
            assert(left.holds(target) && *left is Leaf ==> left.is_leaf(target));
            assert(right.holds(target) && *right is Leaf ==> right.is_leaf(target));
        },
    }
}

/// A split puts the new pane directly behind the first pane `target` and moves
/// no other pane.
pub proof fn law_split_adds_one_pane<R>(
    node: PaneNode<R>,
    target: PaneId,
    new: PaneId,
    direction: SplitDirection,
    ratio: R,
) -> (at: int)
    requires
        node.holds(target),
    ensures
        0 <= at < node.leaf_ids().len(),
        node.leaf_ids()[at] == target,
        forall|i: int| 0 <= i < at ==> node.leaf_ids()[i] != target,
        node.with_split(target, new, direction, ratio).leaf_ids() == node.leaf_ids().insert(
            at + 1,
            new,
        ),
    decreases node,
{
    match node {
        PaneNode::Leaf(id) => {
            let left = PaneNode::<R>::Leaf(target);
            let right = PaneNode::<R>::Leaf(new);
            assert(node.with_split(target, new, direction, ratio).leaf_ids() =~= left.leaf_ids()
                + right.leaf_ids());
            assert(left.leaf_ids() + right.leaf_ids() =~= node.leaf_ids().insert(1, new));
            0
        },
        PaneNode::Split { left, right, .. } => {
            if left.holds(target) {
                let at = law_split_adds_one_pane(*left, target, new, direction, ratio);
                assert(left.leaf_ids().insert(at + 1, new) + right.leaf_ids()
                    =~= node.leaf_ids().insert(at + 1, new));
                at
            } else {
                let at = law_split_adds_one_pane(*right, target, new, direction, ratio);
                let before = left.leaf_ids().len() as int;
                law_leaves_are_held(*left, target);
                assert(left.leaf_ids() + right.leaf_ids().insert(at + 1, new)
                    =~= node.leaf_ids().insert(before + at + 1, new));
                assert forall|i: int| 0 <= i < before + at implies node.leaf_ids()[i] != target by {
                    if i < before {
                        assert(left.leaf_ids()[i] != target);
                    } else {
                        assert(node.leaf_ids()[i] == right.leaf_ids()[i - before]);
                    }
                }
                before + at
            }
        },
    }
}

/// Removing a pane that was just split off gives the tree back.
pub proof fn law_removing_undoes_splitting<R>(
    node: PaneNode<R>,
    target: PaneId,
    new: PaneId,
    direction: SplitDirection,
    ratio: R,
)
    requires
        node.holds(target),
        !node.holds(new),
    ensures
        node.with_split(target, new, direction, ratio).removable(new),
        node.with_split(target, new, direction, ratio).without(new) == node,
    decreases node,
{
    let grown = node.with_split(target, new, direction, ratio);
    assert(grown is Split);
    match node {
        PaneNode::Leaf(id) => {
            assert(PaneNode::<R>::Leaf(new).is_leaf(new));
            assert(!PaneNode::<R>::Leaf(target).is_leaf(new));
        },
        PaneNode::Split { left, right, .. } => {
            assert(!left.is_leaf(new) && !right.is_leaf(new)) by {
                assert(!left.holds(new) && !right.holds(new));
            }
            if left.holds(target) {
                law_removing_undoes_splitting(*left, target, new, direction, ratio);
                assert(left.with_split(target, new, direction, ratio) is Split);
            } else {
                law_removing_undoes_splitting(*right, target, new, direction, ratio);
                law_every_pane_but_the_last_is_removable(*left, new);
                assert(right.with_split(target, new, direction, ratio) is Split);
            }
        },
    }
}

/// Setting a ratio changes it, and no pane.
pub proof fn law_adjusting_moves_no_pane<R>(node: PaneNode<R>, target: PaneId, new: R)
    ensures
        node.with_parent_ratio(target, new).leaf_ids() == node.leaf_ids(),
        node.parent_ratio(target) is Some ==> node.with_parent_ratio(target, new).parent_ratio(
            target,
        ) == Some(new),
        forall|id: PaneId|
            #[trigger] node.with_parent_ratio(target, new).holds(id) == node.holds(id),
    decreases node,
{
    match node {
        PaneNode::Leaf(_) => {
            assert(node.with_parent_ratio(target, new) == node);
        },
        PaneNode::Split { left, right, .. } => {
            law_adjusting_moves_no_pane(*left, target, new);
            law_adjusting_moves_no_pane(*right, target, new);
            let changed = node.with_parent_ratio(target, new);
            assert forall|id: PaneId| #[trigger] changed.holds(id) == node.holds(id) by {
                assert(left.with_parent_ratio(target, new).holds(id) == left.holds(id));
                assert(right.with_parent_ratio(target, new).holds(id) == right.holds(id));
            }
        },
    }
}

} // verus!
