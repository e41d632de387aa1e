//! What splitting, removing and laying out panes does.
use crate::layout::tree::{
    law_every_pane_but_the_last_is_removable, law_leaves_are_held, LayoutStep, PaneId, PaneNode,
    SplitDirection,
};
use vstd::prelude::*;

verus! {

/// A split is made where the pane stands: the pane keeps the first part, the new
/// one gets the second, in the given direction and ratio. The splits around it
/// stay as they are.
pub proof fn law_splits<R>(
    node: PaneNode<R>,
    target: PaneId,
    new: PaneId,
    direction: SplitDirection,
    ratio: R,
)
    ensures
        ({
            let grown = node.with_split(target, new, direction, ratio);
            match node {
                PaneNode::Leaf(id) => id == target ==> match grown {
                    PaneNode::Split { direction: d, left, right, ratio: q } => d == direction && q
                        == ratio && *left == PaneNode::<R>::Leaf(target) && *right == PaneNode::<
                        R,
                    >::Leaf(new),
                    PaneNode::Leaf(_) => false,
                },
                PaneNode::Split { direction: kept, left, right, ratio: own } => match grown {
                    PaneNode::Split { direction: d, left: l, right: r, ratio: q } => {
                        &&& d == kept
                        &&& q == own
                        &&& left.leaf_ids().contains(target) ==> *r == *right && *l
                            == left.with_split(target, new, direction, ratio)
                        &&& !left.leaf_ids().contains(target) ==> *l == *left && *r
                            == right.with_split(target, new, direction, ratio)
                    },
                    PaneNode::Leaf(_) => false,
                },
            }
        }),
{
    if let PaneNode::Split { left, .. } = node {
        law_leaves_are_held(*left, target);
    }
}

/// A new pane can be found by its ratio, the one that its split was made with.
pub proof fn law_new_panes_have_their_ratio<R>(
    node: PaneNode<R>,
    target: PaneId,
    new: PaneId,
    direction: SplitDirection,
    ratio: R,
)
    requires
        node.holds(target),
        !node.holds(new),
    ensures
        node.with_split(target, new, direction, ratio).parent_ratio(new) == Some(ratio),
        node.with_split(target, new, direction, ratio).holds(new),
        forall|id: PaneId|
            id != new ==> #[trigger] node.with_split(target, new, direction, ratio).holds(id)
                == node.holds(id),
    decreases node,
{
    let grown = node.with_split(target, new, direction, ratio);
    match node {
        PaneNode::Leaf(_) => {
            let left = PaneNode::<R>::Leaf(target);
            let right = PaneNode::<R>::Leaf(new);
            assert(!left.holds(new) && right.holds(new) && right.is_leaf(new));
            assert forall|id: PaneId| id != new implies #[trigger] grown.holds(id) == node.holds(
                id,
            ) by {
                assert(left.holds(id) == (id == target));
                assert(!right.holds(id));
            }
        },
        PaneNode::Split { left, right, .. } => {
            if left.holds(target) {
                law_new_panes_have_their_ratio(*left, target, new, direction, ratio);
                let part = left.with_split(target, new, direction, ratio);
                assert(part is Split);
                assert forall|id: PaneId| id != new implies #[trigger] grown.holds(id)
                    == node.holds(id) by {
                    assert(part.holds(id) == left.holds(id));
                }
            } else {
                law_new_panes_have_their_ratio(*right, target, new, direction, ratio);
                let part = right.with_split(target, new, direction, ratio);
                assert(part is Split);
                assert forall|id: PaneId| id != new implies #[trigger] grown.holds(id)
                    == node.holds(id) by {
                    assert(part.holds(id) == right.holds(id));
                }
            }
        },
    }
}

/// Removing a pane takes it out of the order of the panes and leaves the others
/// in theirs.
pub proof fn law_removing_takes_one_pane<R>(node: PaneNode<R>, target: PaneId) -> (at: int)
    requires
        node is Split,
        node.holds(target),
    ensures
        0 <= at < node.leaf_ids().len(),
        node.leaf_ids()[at] == target,
        node.without(target).leaf_ids() == node.leaf_ids().remove(at),
    decreases node,
{
    law_every_pane_but_the_last_is_removable(node, target);
    match node {
        PaneNode::Leaf(_) => 0,
        PaneNode::Split { left, right, .. } => {
            let l = left.leaf_ids();
            let r = right.leaf_ids();
            law_every_pane_but_the_last_is_removable(*left, target);
            law_every_pane_but_the_last_is_removable(*right, target);
            if left.is_leaf(target) {
                assert(l =~= seq![target]);
                assert((l + r).remove(0) =~= r);
                0
            } else if right.is_leaf(target) {
                assert(r =~= seq![target]);
                let at = l.len() as int;
                assert((l + r).remove(at) =~= l);
                at
            } else if left.removable(target) {
                let at = law_removing_takes_one_pane(*left, target);
                assert((l + r).remove(at) =~= l.remove(at) + r);
                at
            } else {
                let at = law_removing_takes_one_pane(*right, target);
                assert((l + r).remove(l.len() + at) =~= l + r.remove(at));
                l.len() + at
            }
        },
    }
}

/// A removed pane leaves its place to the other part of its split, whole.
pub proof fn law_removed_panes_leave_their_place<R>(
    direction: SplitDirection,
    left: PaneNode<R>,
    right: PaneNode<R>,
    ratio: R,
    target: PaneId,
)
    ensures
        ({
            let node = PaneNode::Split {
                direction,
                left: Box::new(left),
                right: Box::new(right),
                ratio,
            };
            &&& left == PaneNode::<R>::Leaf(target) ==> node.without(target) == right
            &&& left != PaneNode::<R>::Leaf(target) && right == PaneNode::<R>::Leaf(target)
                ==> node.without(target) == left
            &&& left != PaneNode::<R>::Leaf(target) && right != PaneNode::<R>::Leaf(target)
                ==> match node.without(target) {
                PaneNode::Split { direction: d, left: l, right: r, ratio: q } => d == direction
                    && q == ratio && (*l == left || *r == right),
                PaneNode::Leaf(_) => false,
            }
        }),
{
}

/// The panes among the steps of a layout.
pub open spec fn panes_in<R>(steps: Seq<LayoutStep<R>>) -> Seq<PaneId>
    decreases steps.len(),
{
    if steps.len() == 0 {
        Seq::empty()
    } else {
        match steps.last() {
            LayoutStep::Pane(id) => panes_in(steps.drop_last()).push(id),
            LayoutStep::Divider { .. } => panes_in(steps.drop_last()),
        }
    }
}

proof fn lemma_panes_join<R>(one: Seq<LayoutStep<R>>, other: Seq<LayoutStep<R>>)
    ensures
        panes_in(one + other) == panes_in(one) + panes_in(other),
    decreases other.len(),
{
    if other.len() == 0 {
        assert(one + other =~= one);
        assert(panes_in(one) + panes_in(other) =~= panes_in(one));
    } else {
        lemma_panes_join(one, other.drop_last());
        assert((one + other).drop_last() =~= one + other.drop_last());
        assert((one + other).last() == other.last());
        assert(panes_in(one + other) =~= panes_in(one) + panes_in(other));
    }
}

/// A layout has every pane once, in the order of the panes, and one divider less
/// than panes. The first step of a split is its own divider, which stands out if
/// the focused pane is on one of its sides.
pub proof fn law_layouts<R>(node: PaneNode<R>, focused: PaneId)
    ensures
        ({
            let steps = node.steps(focused);
            &&& panes_in(steps) == node.leaf_ids()
            &&& steps.len() == 2 * node.leaf_ids().len() - 1
            &&& steps.len() > 0
            &&& match node {
                PaneNode::Leaf(id) => steps[0] == LayoutStep::<R>::Pane(id),
                PaneNode::Split { direction, left, right, ratio } => {
                    &&& steps[0] == LayoutStep::Divider {
                        direction,
                        ratio,
                        touches_focused: node.leaf_ids().contains(focused),
                    }
                    &&& steps.drop_first() == left.steps(focused) + right.steps(focused)
                },
            }
        }),
    decreases node,
{
    law_leaves_are_held(node, focused);
    match node {
        PaneNode::Leaf(id) => {
            let steps = node.steps(focused);
            assert(steps.drop_last() =~= Seq::<LayoutStep<R>>::empty());
            assert(panes_in(Seq::<LayoutStep<R>>::empty()) =~= Seq::<PaneId>::empty());
            assert(panes_in(steps) =~= node.leaf_ids());
        },
        PaneNode::Split { direction, left, right, ratio } => {
            law_layouts(*left, focused);
            law_layouts(*right, focused);
            let divider = seq![
                LayoutStep::Divider {
                    direction,
                    ratio,
                    touches_focused: left.holds(focused) || right.holds(focused),
                },
            ];
            let l = left.steps(focused);
            let r = right.steps(focused);
            lemma_panes_join(divider + l, r);
            lemma_panes_join(divider, l);
            assert(divider.drop_last() =~= Seq::<LayoutStep<R>>::empty());
            assert(panes_in(Seq::<LayoutStep<R>>::empty()) =~= Seq::<PaneId>::empty());
            assert(divider.last() is Divider);
            assert(panes_in(divider) =~= Seq::<PaneId>::empty());
            assert(panes_in(node.steps(focused)) =~= left.leaf_ids() + right.leaf_ids());
            assert(node.steps(focused).drop_first() =~= l + r);
        },
    }
}


/// A ratio is set on the split that a pane is directly part of, the innermost
/// one, and on no other. A pane that stands on both sides of a split, or on
/// none, changes nothing.
pub proof fn law_ratios<R>(
    direction: SplitDirection,
    left: PaneNode<R>,
    right: PaneNode<R>,
    ratio: R,
    target: PaneId,
    new: R,
)
    ensures
        ({
            let node = PaneNode::Split {
                direction,
                left: Box::new(left),
                right: Box::new(right),
                ratio,
            };
            let in_left = left.leaf_ids().contains(target);
            let in_right = right.leaf_ids().contains(target);
            let changed = node.with_parent_ratio(target, new);
            let here = PaneNode::<R>::Leaf(target);
            &&& in_left == in_right ==> changed == node && node.parent_ratio(target) is None
            &&& in_left && !in_right && left == here ==> node.parent_ratio(target) == Some(ratio)
                && changed == (PaneNode::Split {
                direction,
                left: Box::new(left),
                right: Box::new(right),
                ratio: new,
            })
            &&& in_right && !in_left && right == here ==> node.parent_ratio(target) == Some(ratio)
                && changed == (PaneNode::Split {
                direction,
                left: Box::new(left),
                right: Box::new(right),
                ratio: new,
            })
            &&& in_left && !in_right && left is Split ==> node.parent_ratio(target)
                == left.parent_ratio(target) && changed == (PaneNode::Split {
                direction,
                left: Box::new(left.with_parent_ratio(target, new)),
                right: Box::new(right),
                ratio,
            })
            &&& in_right && !in_left && right is Split ==> node.parent_ratio(target)
                == right.parent_ratio(target) && changed == (PaneNode::Split {
                direction,
                left: Box::new(left),
                right: Box::new(right.with_parent_ratio(target, new)),
                ratio,
            })
        }),
{
    law_leaves_are_held(left, target);
    law_leaves_are_held(right, target);
}

} // verus!
