//! The split-pane tree of a tab: leaves are panes (each with its terminal
//! session), inner nodes divide their area between two subtrees.

use vstd::prelude::*;

verus! {

/// Most panes a single tab may hold.
pub const MAX_LEAVES: usize = 9;

#[derive(Debug, Clone, Copy, PartialEq, Eq, Structural)]
pub enum SplitDirection {
    /// Side-by-side panes (vertical divider).
    Horizontal,
    /// Stacked panes (horizontal divider).
    Vertical,
}

/// A node of the split tree. `S` is the pane's session, `R` the position of a
/// divider as a fraction of its node's extent.
pub enum SplitNode<S, R> {
    /// Transient placeholder during tree restructuring.
    Pending,
    Leaf {
        session: S,
        /// When the pane's foreground command started (milliseconds on a monotonic clock).
        running_since: Option<u64>,
    },
    Split {
        direction: SplitDirection,
        ratio: R,
        first: Box<SplitNode<S, R>>,
        second: Box<SplitNode<S, R>>,
    },
}

impl<S, R> SplitNode<S, R> {
    /// The panes of the tree, left to right (top to bottom): each with its
    /// session and the start of its running command.
    pub open spec fn leaves(self) -> Seq<(S, Option<u64>)>
        decreases self,
    {
        match self {
            SplitNode::Pending => Seq::empty(),
            SplitNode::Leaf { session, running_since } => seq![(session, running_since)],
            SplitNode::Split { first, second, .. } => (*first).leaves() + (*second).leaves(),
        }
    }

    /// The dividers of the tree in pre-order (a node before its subtrees).
    pub open spec fn dividers(self) -> Seq<R>
        decreases self,
    {
        match self {
            SplitNode::Split { ratio, first, second, .. } => seq![ratio] + (*first).dividers()
                + (*second).dividers(),
            _ => Seq::empty(),
        }
    }

    /// Number of nodes; shrinks on every step into a subtree.
    pub open spec fn node_size(self) -> nat
        decreases self,
    {
        match self {
            SplitNode::Split { first, second, .. } => 1 + (*first).node_size() + (*second).node_size(),
            _ => 1,
        }
    }

    pub fn leaf(session: S) -> (r: Self)
        ensures
            r.leaves() == seq![(session, None::<u64>)],
            r.dividers() == Seq::<R>::empty(),
            r.wf(),
    {
        SplitNode::Leaf { session, running_since: None }
    }

    /// Number of panes.
    pub fn leaf_count(&self) -> (r: usize)
        requires
            self.leaves().len() <= usize::MAX,
        ensures
            r == self.leaves().len(),
        decreases self,
    {
        match self {
            SplitNode::Pending => 0,
            SplitNode::Leaf { .. } => 1,
            SplitNode::Split { first, second, .. } => first.leaf_count() + second.leaf_count(),
        }
    }

    /// Number of dividers.
    pub fn divider_count(&self) -> (r: usize)
        requires
            self.dividers().len() <= usize::MAX,
        ensures
            r == self.dividers().len(),
        decreases self,
    {
        match self {
            SplitNode::Split { first, second, .. } => 1 + first.divider_count()
                + second.divider_count(),
            _ => 0,
        }
    }

    /// The session of pane `leaf_id`.
    pub fn leaf_session(&self, leaf_id: usize) -> (r: Option<&S>)
        requires
            self.leaves().len() <= usize::MAX,
        ensures
            match r {
                Some(s) => leaf_id < self.leaves().len() && *s == self.leaves()[leaf_id as int].0,
                None => leaf_id >= self.leaves().len(),
            },
        decreases self,
    {
        match self {
            SplitNode::Leaf { session, .. } => if leaf_id == 0 {
                Some(session)
            } else {
                None
            },
            SplitNode::Split { first, second, .. } => {
                let first_count = first.leaf_count();
                if leaf_id < first_count {
                    first.leaf_session(leaf_id)
                } else {
                    second.leaf_session(leaf_id - first_count)
                }
            },
            SplitNode::Pending => None,
        }
    }

    /// The session of pane `leaf_id`, to change in place.
    pub fn leaf_session_mut(&mut self, leaf_id: usize) -> (r: Option<&mut S>)
        requires
            old(self).leaves().len() <= usize::MAX,
        ensures
            match r {
                Some(s) => leaf_id < old(self).leaves().len() && *s == old(self).leaves()[leaf_id as int].0
                    && final(self).leaves() == old(self).leaves().update(
                    leaf_id as int,
                    (*final(s), old(self).leaves()[leaf_id as int].1),
                ) && final(self).dividers() == old(self).dividers() && final(self).wf() == old(self).wf(),
                None => leaf_id >= old(self).leaves().len() && *final(self) == *old(self),
            },
        decreases old(self).node_size(),
    {
        match self {
            SplitNode::Leaf { session, .. } => {
                if leaf_id == 0 {
                    Some(session)
                } else {
                    None
                }
            },
            SplitNode::Split { first, second, .. } => {
                let first_count = first.leaf_count();
                if leaf_id < first_count {
                    first.leaf_session_mut(leaf_id)
                } else {
                    second.leaf_session_mut(leaf_id - first_count)
                }
            },
            SplitNode::Pending => None,
        }
    }

    /// When the command in pane `leaf_id` started, to change in place.
    pub fn leaf_running_since_mut(&mut self, leaf_id: usize) -> (r: Option<&mut Option<u64>>)
        requires
            old(self).leaves().len() <= usize::MAX,
        ensures
            match r {
                Some(t) => leaf_id < old(self).leaves().len() && *t == old(self).leaves()[leaf_id as int].1
                    && final(self).leaves() == old(self).leaves().update(
                    leaf_id as int,
                    (old(self).leaves()[leaf_id as int].0, *final(t)),
                ) && final(self).dividers() == old(self).dividers() && final(self).wf() == old(self).wf(),
                None => leaf_id >= old(self).leaves().len() && *final(self) == *old(self),
            },
        decreases old(self).node_size(),
    {
        match self {
            SplitNode::Leaf { running_since, .. } => {
                if leaf_id == 0 {
                    Some(running_since)
                } else {
                    None
                }
            },
            SplitNode::Split { first, second, .. } => {
                let first_count = first.leaf_count();
                if leaf_id < first_count {
                    first.leaf_running_since_mut(leaf_id)
                } else {
                    second.leaf_running_since_mut(leaf_id - first_count)
                }
            },
            SplitNode::Pending => None,
        }
    }

    /// When the command in pane `leaf_id` started running, if the pane exists.
    pub fn leaf_running_since(&self, leaf_id: usize) -> (r: Option<Option<u64>>)
        requires
            self.leaves().len() <= usize::MAX,
        ensures
            match r {
                Some(t) => leaf_id < self.leaves().len() && t == self.leaves()[leaf_id as int].1,
                None => leaf_id >= self.leaves().len(),
            },
        decreases self,
    {
        match self {
            SplitNode::Leaf { running_since, .. } => if leaf_id == 0 {
                Some(*running_since)
            } else {
                None
            },
            SplitNode::Split { first, second, .. } => {
                let first_count = first.leaf_count();
                if leaf_id < first_count {
                    first.leaf_running_since(leaf_id)
                } else {
                    second.leaf_running_since(leaf_id - first_count)
                }
            },
            SplitNode::Pending => None,
        }
    }

    /// Sets when the command in pane `leaf_id` started; `false` when there is no such pane.
    pub fn set_leaf_running_since(&mut self, leaf_id: usize, value: Option<u64>) -> (r: bool)
        requires
            old(self).leaves().len() <= usize::MAX,
        ensures
            r == (leaf_id < old(self).leaves().len()),
            r ==> final(self).leaves() == old(self).leaves().update(
                leaf_id as int,
                (old(self).leaves()[leaf_id as int].0, value),
            ),
            !r ==> final(self).leaves() == old(self).leaves(),
            final(self).dividers() == old(self).dividers(),
            final(self).wf() == old(self).wf(),
        decreases old(self).node_size(),
    {
        match self {
            SplitNode::Leaf { session, running_since } => {
                if leaf_id == 0 {
                    *running_since = value;
                    proof {
                        assert(self.leaves() =~= old(self).leaves().update(
                            0,
                            (old(self).leaves()[0].0, value),
                        ));
                    }
                    true
                } else {
                    false
                }
            },
            SplitNode::Split { first, second, .. } => {
                let first_count = first.leaf_count();
                if leaf_id < first_count {
                    let r = first.set_leaf_running_since(leaf_id, value);
                    proof {
                        assert(self.leaves() =~= old(self).leaves().update(
                            leaf_id as int,
                            (old(self).leaves()[leaf_id as int].0, value),
                        ));
                    }
                    r
                } else {
                    let r = second.set_leaf_running_since(leaf_id - first_count, value);
                    proof {
                        if r {
                            assert(self.leaves() =~= old(self).leaves().update(
                                leaf_id as int,
                                (old(self).leaves()[leaf_id as int].0, value),
                            ));
                        }
                    }
                    r
                }
            },
            SplitNode::Pending => false,
        }
    }
}


impl<S, R> SplitNode<S, R> {
    /// A tree without placeholders.
    pub open spec fn wf(self) -> bool
        decreases self,
    {
        match self {
            SplitNode::Pending => false,
            SplitNode::Leaf { .. } => true,
            SplitNode::Split { first, second, .. } => (*first).wf() && (*second).wf(),
        }
    }

    /// Number of dividers that come before pane `t` in pre-order.
    pub open spec fn dividers_before_leaf(self, t: int) -> int
        decreases self,
    {
        match self {
            SplitNode::Split { first, second, .. } => if t < (*first).leaves().len() {
                1 + (*first).dividers_before_leaf(t)
            } else {
                1 + (*first).dividers().len() + (*second).dividers_before_leaf(
                    t - (*first).leaves().len(),
                )
            },
            _ => 0,
        }
    }

    /// Pre-order position of the divider that disappears with pane `t`.
    pub open spec fn divider_of_leaf(self, t: int) -> int
        decreases self,
    {
        match self {
            SplitNode::Split { first, second, .. } => {
                let fc = (*first).leaves().len();
                if t < fc {
                    if fc == 1 {
                        0
                    } else {
                        1 + (*first).divider_of_leaf(t)
                    }
                } else if (*second).leaves().len() == 1 && t == fc {
                    0
                } else {
                    1 + (*first).dividers().len() + (*second).divider_of_leaf(t - fc)
                }
            },
            _ => 0,
        }
    }

    /// The tree after pane `t` is split: the pane becomes the first half of a
    /// new split node whose second half is a fresh pane for `s`.
    pub open spec fn split_tree(self, t: int, direction: SplitDirection, s: S, ratio: R) -> SplitNode<S, R>
        decreases self,
    {
        match self {
            SplitNode::Leaf { session, running_since } => if t == 0 {
                SplitNode::Split {
                    direction,
                    ratio,
                    first: Box::new(SplitNode::Leaf { session, running_since }),
                    second: Box::new(SplitNode::Leaf { session: s, running_since: None }),
                }
            } else {
                self
            },
            SplitNode::Split { direction: d, ratio: r, first, second } => {
                let fc = (*first).leaves().len();
                if t < fc {
                    SplitNode::Split {
                        direction: d,
                        ratio: r,
                        first: Box::new((*first).split_tree(t, direction, s, ratio)),
                        second,
                    }
                } else {
                    SplitNode::Split {
                        direction: d,
                        ratio: r,
                        first,
                        second: Box::new((*second).split_tree(t - fc, direction, s, ratio)),
                    }
                }
            },
            SplitNode::Pending => self,
        }
    }

    /// The tree after pane `t` is closed: the sibling subtree of the pane
    /// takes the place of their parent.
    pub open spec fn remove_tree(self, t: int) -> SplitNode<S, R>
        decreases self,
    {
        match self {
            SplitNode::Split { direction, ratio, first, second } => {
                let fc = (*first).leaves().len();
                if t < fc {
                    if fc == 1 && t == 0 {
                        *second
                    } else {
                        SplitNode::Split {
                            direction,
                            ratio,
                            first: Box::new((*first).remove_tree(t)),
                            second,
                        }
                    }
                } else if (*second).leaves().len() == 1 && t - fc == 0 {
                    *first
                } else {
                    SplitNode::Split {
                        direction,
                        ratio,
                        first,
                        second: Box::new((*second).remove_tree(t - fc)),
                    }
                }
            },
            _ => self,
        }
    }

    /// Bounds of `dividers_before_leaf`.
    pub proof fn lemma_before_bounds(self, t: int)
        ensures
            0 <= self.dividers_before_leaf(t) <= self.dividers().len(),
        decreases self,
    {
        match self {
            SplitNode::Split { first, second, .. } => {
                (*first).lemma_before_bounds(t);
                (*second).lemma_before_bounds(t - (*first).leaves().len());
            },
            _ => {},
        }
    }

    /// Bounds of `divider_of_leaf` for an existing pane of a tree with two or more panes.
    pub proof fn lemma_divider_of_leaf_bounds(self, t: int)
        requires
            self.wf(),
            0 <= t < self.leaves().len(),
            self.leaves().len() >= 2,
        ensures
            0 <= self.divider_of_leaf(t) < self.dividers().len(),
        decreases self,
    {
        self.lemma_wf_counts();
        match self {
            SplitNode::Split { first, second, .. } => {
                (*first).lemma_wf_counts();
                (*second).lemma_wf_counts();
                let fc = (*first).leaves().len();
                if t < fc {
                    if fc != 1 {
                        (*first).lemma_divider_of_leaf_bounds(t);
                    }
                } else if !((*second).leaves().len() == 1 && t == fc) {
                    (*second).lemma_divider_of_leaf_bounds(t - fc);
                }
            },
            _ => {},
        }
    }

    /// In a tree without placeholders every subtree has a pane, and there is one
    /// divider fewer than there are panes.
    pub proof fn lemma_wf_counts(self)
        requires
            self.wf(),
        ensures
            self.leaves().len() >= 1,
            self.dividers().len() + 1 == self.leaves().len(),
            (self is Split) ==> self.leaves().len() >= 2,
        decreases self,
    {
        match self {
            SplitNode::Split { first, second, .. } => {
                (*first).lemma_wf_counts();
                (*second).lemma_wf_counts();
            },
            _ => {},
        }
    }
}

#[verifier::rlimit(60)]
fn split_leaf_inner<S, R>(node: &mut SplitNode<S, R>, target: usize, direction: SplitDirection, new_session: S, ratio: R) -> (r: bool)
    requires
        old(node).leaves().len() <= usize::MAX,
    ensures
        r == (target < old(node).leaves().len()),
        r ==> final(node).leaves() == old(node).leaves().insert(target + 1, (new_session, None::<u64>)),
        r ==> final(node).dividers() == old(node).dividers().insert(
            old(node).dividers_before_leaf(target as int),
            ratio,
        ),
        r ==> (old(node).wf() ==> final(node).wf()),
        r ==> *final(node) == old(node).split_tree(target as int, direction, new_session, ratio),
        !r ==> *final(node) == *old(node),
    decreases old(node).node_size(),
{
    let mut cur: SplitNode<S, R> = SplitNode::Pending;
    std::mem::swap(&mut cur, node);
    match cur {
        SplitNode::Leaf { session, running_since } => {
            if target == 0 {
                let ghost before = seq![(session, running_since)];
                let a: SplitNode<S, R> = SplitNode::Leaf { session, running_since };
                let b: SplitNode<S, R> = SplitNode::Leaf { session: new_session, running_since: None };
                assert(a.leaves() == before);
                assert(b.leaves() == seq![(new_session, None::<u64>)]);
                assert(a.dividers() == Seq::<R>::empty());
                assert(b.dividers() == Seq::<R>::empty());
                assert(a.wf() && b.wf());
                *node = SplitNode::Split { direction, ratio, first: Box::new(a), second: Box::new(b) };
                assert(before.insert(1, (new_session, None::<u64>)) =~= seq![
                    (session, running_since),
                    (new_session, None::<u64>),
                ]);
                assert(node.leaves() =~= before.insert(1, (new_session, None::<u64>)));
                assert(node.dividers() =~= seq![ratio]);
                true
            } else {
                *node = SplitNode::Leaf { session, running_since };
                false
            }
        },
        SplitNode::Split { direction: d, ratio: rt, first, second } => {
            let fc = first.leaf_count();
            if target < fc {
                let mut f = *first;
                let ok = split_leaf_inner(&mut f, target, direction, new_session, ratio);
                let ghost fl = f.leaves();
                *node = SplitNode::Split { direction: d, ratio: rt, first: Box::new(f), second };
                proof {
                    if ok {
                        assert(node.leaves() =~= old(node).leaves().insert(
                            target + 1,
                            (new_session, None::<u64>),
                        ));
                        let fd = old(node)->first.dividers();
                        let sd = old(node)->second.dividers();
                        let k = old(node)->first.dividers_before_leaf(target as int);
                        old(node)->first.lemma_before_bounds(target as int);
                        assert((seq![rt] + fd + sd).insert(1 + k, ratio) =~= seq![rt] + fd.insert(k, ratio) + sd);
                        assert(node.dividers() =~= old(node).dividers().insert(
                            old(node).dividers_before_leaf(target as int),
                            ratio,
                        ));
                    }
                }
                ok
            } else {
                let mut sc = *second;
                let ok = split_leaf_inner(&mut sc, target - fc, direction, new_session, ratio);
                *node = SplitNode::Split { direction: d, ratio: rt, first, second: Box::new(sc) };
                proof {
                    if ok {
                        assert(node.leaves() =~= old(node).leaves().insert(
                            target + 1,
                            (new_session, None::<u64>),
                        ));
                        let fd = old(node)->first.dividers();
                        let sd = old(node)->second.dividers();
                        let k = old(node)->second.dividers_before_leaf(target - fc);
                        old(node)->second.lemma_before_bounds(target - fc);
                        assert((seq![rt] + fd + sd).insert(1 + fd.len() + k, ratio) =~= seq![rt] + fd + sd.insert(k, ratio));
                        assert(node.dividers() =~= old(node).dividers().insert(
                            old(node).dividers_before_leaf(target as int),
                            ratio,
                        ));
                    }
                }
                ok
            }
        },
        SplitNode::Pending => {
            *node = SplitNode::Pending;
            false
        },
    }
}

#[verifier::rlimit(50)]
fn remove_leaf_inner<S, R>(node: &mut SplitNode<S, R>, target: usize) -> (r: bool)
    requires
        old(node).leaves().len() <= usize::MAX,
        old(node).wf(),
    ensures
        r == (target < old(node).leaves().len() && old(node).leaves().len() >= 2),
        r ==> final(node).leaves() == old(node).leaves().remove(target as int),
        r ==> final(node).dividers() == old(node).dividers().remove(
            old(node).divider_of_leaf(target as int),
        ),
        final(node).wf(),
        r ==> *final(node) == old(node).remove_tree(target as int),
        !r ==> *final(node) == *old(node),
    decreases old(node).node_size(),
{
    proof {
        old(node).lemma_wf_counts();
    }
    let mut cur: SplitNode<S, R> = SplitNode::Pending;
    std::mem::swap(&mut cur, node);
    match cur {
        SplitNode::Split { direction, ratio, first, second } => {
            proof {
                (*first).lemma_wf_counts();
                (*second).lemma_wf_counts();
            }
            let fc = first.leaf_count();
            if target < fc {
                if fc == 1 && target == 0 {
                    proof {
                        assert((*first).dividers().len() == 0);
                        assert(old(node).leaves().remove(0) =~= (*second).leaves());
                        assert(old(node).dividers().remove(0) =~= (*second).dividers());
                    }
                    *node = *second;
                    return true;
                }
                let mut f = *first;
                let ok = remove_leaf_inner(&mut f, target);
                *node = SplitNode::Split { direction, ratio, first: Box::new(f), second };
                proof {
                    if ok {
                        assert(node.leaves() =~= old(node).leaves().remove(target as int));
                        let fd = old(node)->first.dividers();
                        let sd = old(node)->second.dividers();
                        let k = old(node)->first.divider_of_leaf(target as int);
                        old(node)->first.lemma_divider_of_leaf_bounds(target as int);
                        assert((seq![ratio] + fd + sd).remove(1 + k) =~= seq![ratio] + fd.remove(k) + sd);
                        assert(node.dividers() =~= old(node).dividers().remove(
                            old(node).divider_of_leaf(target as int),
                        ));
                    }
                }
                ok
            } else {
                let idx = target - fc;
                let sc_count = second.leaf_count();
                if sc_count == 1 && idx == 0 {
                    proof {
                        assert((*second).dividers().len() == 0);
                        assert(old(node).leaves().remove(target as int) =~= (*first).leaves());
                        assert(old(node).dividers().remove(0) =~= (*first).dividers());
                    }
                    *node = *first;
                    return true;
                }
                let mut sc = *second;
                let ok = remove_leaf_inner(&mut sc, idx);
                *node = SplitNode::Split { direction, ratio, first, second: Box::new(sc) };
                proof {
                    if ok {
                        assert(node.leaves() =~= old(node).leaves().remove(target as int));
                        let fd = old(node)->first.dividers();
                        let sd = old(node)->second.dividers();
                        let k = old(node)->second.divider_of_leaf(idx as int);
                        old(node)->second.lemma_divider_of_leaf_bounds(idx as int);
                        assert((seq![ratio] + fd + sd).remove(1 + fd.len() + k) =~= seq![ratio] + fd + sd.remove(k));
                        assert(node.dividers() =~= old(node).dividers().remove(
                            old(node).divider_of_leaf(target as int),
                        ));
                    }
                }
                ok
            }
        },
        SplitNode::Leaf { session, running_since } => {
            *node = SplitNode::Leaf { session, running_since };
            false
        },
        SplitNode::Pending => {
            *node = SplitNode::Pending;
            false
        },
    }
}


impl<S, R> SplitNode<S, R> {
    /// Splits pane `leaf_id` in two: the pane keeps its place and the new
    /// session becomes the pane right after it. Refused (`None`, tree
    /// unchanged) when the tab is full or there is no such pane; otherwise
    /// returns the pane count before the split.
    pub fn split_leaf(&mut self, leaf_id: usize, direction: SplitDirection, new_session: S, initial_ratio: R) -> (r: Option<usize>)
        requires
            old(self).leaves().len() <= usize::MAX,
        ensures
            r is Some <==> (old(self).leaves().len() < MAX_LEAVES && leaf_id < old(self).leaves().len()),
            r matches Some(id) ==> id == old(self).leaves().len() && final(self).leaves()
                == old(self).leaves().insert(leaf_id + 1, (new_session, None::<u64>))
                && final(self).dividers() == old(self).dividers().insert(
                old(self).dividers_before_leaf(leaf_id as int),
                initial_ratio,
            ) && (old(self).wf() ==> final(self).wf()) && *final(self) == old(self).split_tree(
                leaf_id as int,
                direction,
                new_session,
                initial_ratio,
            ),
            r is None ==> *final(self) == *old(self),
    {
        if self.leaf_count() >= MAX_LEAVES {
            return None;
        }
        let new_id = self.leaf_count();
        if split_leaf_inner(self, leaf_id, direction, new_session, initial_ratio) {
            Some(new_id)
        } else {
            None
        }
    }

    /// Removes pane `leaf_id`; its sibling subtree takes the place of their
    /// parent. Refused (`false`, tree unchanged) for the last pane or a pane
    /// that does not exist.
    pub fn remove_leaf(&mut self, leaf_id: usize) -> (r: bool)
        requires
            old(self).leaves().len() <= usize::MAX,
            old(self).wf(),
        ensures
            r == (old(self).leaves().len() >= 2 && leaf_id < old(self).leaves().len()),
            r ==> final(self).leaves() == old(self).leaves().remove(leaf_id as int)
                && final(self).dividers() == old(self).dividers().remove(
                old(self).divider_of_leaf(leaf_id as int),
            ),
            final(self).wf(),
            r ==> *final(self) == old(self).remove_tree(leaf_id as int),
            !r ==> *final(self) == *old(self),
    {
        if self.leaf_count() <= 1 {
            return false;
        }
        remove_leaf_inner(self, leaf_id)
    }

    /// The position of divider `divider_index` (pre-order).
    pub fn ratio_at_divider(&self, divider_index: usize) -> (r: Option<&R>)
        requires
            self.dividers().len() <= usize::MAX,
        ensures
            match r {
                Some(x) => divider_index < self.dividers().len() && *x == self.dividers()[divider_index as int],
                None => divider_index >= self.dividers().len(),
            },
        decreases self,
    {
        match self {
            SplitNode::Split { ratio, first, second, .. } => {
                if divider_index == 0 {
                    return Some(ratio);
                }
                let first_dividers = first.divider_count();
                if divider_index <= first_dividers {
                    first.ratio_at_divider(divider_index - 1)
                } else {
                    second.ratio_at_divider(divider_index - first_dividers - 1)
                }
            },
            _ => None,
        }
    }

    /// Moves divider `divider_index` (pre-order) to `ratio`; `false` when there is no such divider.
    pub fn set_ratio_at_divider(&mut self, divider_index: usize, ratio: R) -> (r: bool)
        requires
            old(self).dividers().len() <= usize::MAX,
        ensures
            r == (divider_index < old(self).dividers().len()),
            r ==> final(self).dividers() == old(self).dividers().update(divider_index as int, ratio),
            !r ==> final(self).dividers() == old(self).dividers(),
            final(self).leaves() == old(self).leaves(),
            final(self).wf() == old(self).wf(),
        decreases old(self).node_size(),
    {
        match self {
            SplitNode::Split { ratio: current, first, second, .. } => {
                if divider_index == 0 {
                    *current = ratio;
                    proof {
                        assert(self.dividers() =~= old(self).dividers().update(0, ratio));
                    }
                    return true;
                }
                let first_dividers = first.divider_count();
                if divider_index <= first_dividers {
                    let r = first.set_ratio_at_divider(divider_index - 1, ratio);
                    proof {
                        assert(self.dividers() =~= old(self).dividers().update(divider_index as int, ratio));
                    }
                    r
                } else {
                    let r = second.set_ratio_at_divider(divider_index - first_dividers - 1, ratio);
                    proof {
                        if r {
                            assert(self.dividers() =~= old(self).dividers().update(divider_index as int, ratio));
                        } else {
                            assert(self.dividers() =~= old(self).dividers());
                        }
                    }
                    r
                }
            },
            _ => false,
        }
    }
}

/// Closing the pane that a split has just created gives back the tree exactly
/// as it was before the split.
pub proof fn lemma_split_then_close<S, R>(tree: SplitNode<S, R>, leaf_id: int, direction: SplitDirection, new_session: S, ratio: R)
    requires
        tree.wf(),
        0 <= leaf_id < tree.leaves().len(),
    ensures
        tree.split_tree(leaf_id, direction, new_session, ratio).remove_tree(leaf_id + 1) == tree,
    decreases tree,
{
    tree.lemma_wf_counts();
    match tree {
        SplitNode::Split { direction: d, ratio: r, first, second } => {
            (*first).lemma_wf_counts();
            (*second).lemma_wf_counts();
            let fc = (*first).leaves().len();
            if leaf_id < fc {
                lemma_split_then_close(*first, leaf_id, direction, new_session, ratio);
                lemma_split_leaves(*first, leaf_id, direction, new_session, ratio);
            } else {
                lemma_split_then_close(*second, leaf_id - fc, direction, new_session, ratio);
                lemma_split_leaves(*second, leaf_id - fc, direction, new_session, ratio);
            }
        },
        _ => {},
    }
}

/// The panes after a split, as the spec tree has them.
pub proof fn lemma_split_leaves<S, R>(tree: SplitNode<S, R>, leaf_id: int, direction: SplitDirection, new_session: S, ratio: R)
    requires
        0 <= leaf_id < tree.leaves().len(),
    ensures
        tree.split_tree(leaf_id, direction, new_session, ratio).leaves() == tree.leaves().insert(
            leaf_id + 1,
            (new_session, None::<u64>),
        ),
    decreases tree,
{
    match tree {
        SplitNode::Split { direction: d, ratio: r, first, second } => {
            let fc = (*first).leaves().len();
            if leaf_id < fc {
                lemma_split_leaves(*first, leaf_id, direction, new_session, ratio);
            } else {
                lemma_split_leaves(*second, leaf_id - fc, direction, new_session, ratio);
            }
            assert(tree.split_tree(leaf_id, direction, new_session, ratio).leaves() =~= tree.leaves().insert(
                leaf_id + 1,
                (new_session, None::<u64>),
            ));
        },
        SplitNode::Leaf { session, running_since } => {
            let a: SplitNode<S, R> = SplitNode::Leaf { session, running_since };
            let b: SplitNode<S, R> = SplitNode::Leaf { session: new_session, running_since: None };
            assert(a.leaves() == seq![(session, running_since)]);
            assert(b.leaves() == seq![(new_session, None::<u64>)]);
            assert(tree.split_tree(leaf_id, direction, new_session, ratio).leaves() =~= tree.leaves().insert(
                leaf_id + 1,
                (new_session, None::<u64>),
            ));
        },
        _ => {},
    }
}

impl<S, R> SplitNode<S, R> {
    /// The direction and divider of the split node that holds pane `t` as
    /// one of its two halves, if the pane is not the whole tree.
    pub open spec fn pane_parent(self, t: int) -> Option<(SplitDirection, R)>
        decreases self,
    {
        match self {
            SplitNode::Split { direction, ratio, first, second } => {
                let fc = (*first).leaves().len();
                if t < fc {
                    if (*first) is Leaf {
                        Some((direction, ratio))
                    } else {
                        (*first).pane_parent(t)
                    }
                } else if (*second) is Leaf {
                    Some((direction, ratio))
                } else {
                    (*second).pane_parent(t - fc)
                }
            },
            _ => None,
        }
    }
}

/// Splitting pane `leaf_id` puts the pane and the new pane, one after the
/// other, side by side as the two halves of one split node, and that node
/// divides in exactly the requested direction, at the requested divider.
pub proof fn lemma_split_uses_requested_direction<S, R>(
    tree: SplitNode<S, R>,
    leaf_id: int,
    direction: SplitDirection,
    new_session: S,
    ratio: R,
)
    requires
        0 <= leaf_id < tree.leaves().len(),
    ensures
        ({
            let after = tree.split_tree(leaf_id, direction, new_session, ratio);
            &&& after.leaves()[leaf_id] == tree.leaves()[leaf_id]
            &&& after.leaves()[leaf_id + 1] == (new_session, None::<u64>)
            &&& after.pane_parent(leaf_id) == Some((direction, ratio))
            &&& after.pane_parent(leaf_id + 1) == Some((direction, ratio))
            &&& after !is Leaf
        }),
    decreases tree,
{
    lemma_split_leaves(tree, leaf_id, direction, new_session, ratio);
    match tree {
        SplitNode::Split { direction: d, ratio: r, first, second } => {
            let fc = (*first).leaves().len();
            if leaf_id < fc {
                lemma_split_uses_requested_direction(*first, leaf_id, direction, new_session, ratio);
                lemma_split_leaves(*first, leaf_id, direction, new_session, ratio);
            } else {
                lemma_split_uses_requested_direction(*second, leaf_id - fc, direction, new_session, ratio);
            }
        },
        SplitNode::Leaf { session, running_since } => {
            let a: SplitNode<S, R> = SplitNode::Leaf { session, running_since };
            let b: SplitNode<S, R> = SplitNode::Leaf { session: new_session, running_since: None };
            assert(a.leaves().len() == 1);
            assert(b.leaves().len() == 1);
        },
        _ => {},
    }
}

} // verus!
