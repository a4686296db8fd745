//! Pane layouts: a binary tree of splits over numbered panes, the screen
//! regions it assigns to each pane, and the operations that reshape it.

use vstd::prelude::*;
use vstd::string::*;
use crate::protocol::{LayoutPreset, PaneResizeDirection, SplitDirection};

verus! {

/// Cells between the two sides of a side-by-side split.
pub const HORIZONTAL_SEPARATOR_CELLS: usize = 3;

/// Rows between the two sides of a stacked split.
pub const VERTICAL_SEPARATOR_CELLS: usize = 1;

/// A terminal size in cells.
#[derive(Debug, Clone, Copy, PartialEq, Eq, Structural)]
pub struct PtySize {
    pub rows: u16,
    pub cols: u16,
}

#[derive(Debug, PartialEq, Eq)]
pub enum LayoutNode {
    Pane(usize),
    Split {
        direction: SplitDirection,
        first_weight: usize,
        second_weight: usize,
        first: Box<LayoutNode>,
        second: Box<LayoutNode>,
    },
}

impl Clone for LayoutNode {
    fn clone(&self) -> (r: Self)
        ensures
            r == *self,
        decreases self,
    {
        match self {
            LayoutNode::Pane(i) => LayoutNode::Pane(*i),
            LayoutNode::Split { direction, first_weight, second_weight, first, second } => {
                let f = (**first).clone();
                let s = (**second).clone();
                LayoutNode::Split {
                    direction: *direction,
                    first_weight: *first_weight,
                    second_weight: *second_weight,
                    first: Box::new(f),
                    second: Box::new(s),
                }
            },
        }
    }
}

/// The screen rectangle given to one pane: rows and columns are half-open
/// ranges.
#[derive(Debug, Clone, Copy, PartialEq, Eq, Structural)]
pub struct PaneRegion {
    pub pane: usize,
    pub row_start: usize,
    pub row_end: usize,
    pub col_start: usize,
    pub col_end: usize,
}

/// The panes of a layout, left to right (top to bottom).
pub open spec fn leaves(node: LayoutNode) -> Seq<usize>
    decreases node,
{
    match node {
        LayoutNode::Pane(i) => seq![i],
        LayoutNode::Split { first, second, .. } => leaves(*first) + leaves(*second),
    }
}

/// Whether `target` is one of the layout's panes.
pub open spec fn has_pane(node: LayoutNode, target: usize) -> bool
    decreases node,
{
    match node {
        LayoutNode::Pane(i) => i == target,
        LayoutNode::Split { first, second, .. } => has_pane(*first, target) || has_pane(
            *second,
            target,
        ),
    }
}

pub proof fn lemma_has_pane_leaves(node: LayoutNode, target: usize)
    ensures
        has_pane(node, target) == leaves(node).contains(target),
    decreases node,
{
    match node {
        LayoutNode::Pane(i) => {
            assert(seq![i][0] == i);
        },
        LayoutNode::Split { first, second, .. } => {
            lemma_has_pane_leaves(*first, target);
            lemma_has_pane_leaves(*second, target);
            vstd::seq_lib::lemma_seq_concat_contains_all_elements(
                leaves(*first),
                leaves(*second),
                target,
            );
        },
    }
}

/// `x * y`, or the largest `usize` when that overflows.
pub open spec fn saturating_mul(x: nat, y: nat) -> nat {
    if x * y > usize::MAX {
        usize::MAX as nat
    } else {
        x * y
    }
}

/// How a span `[start, end)` is shared between the two sides of a split:
/// a separator of `separator` cells when there is room for it and one cell
/// on each side, the rest split in proportion to the weights, each side
/// keeping at least one cell when two are available.
pub open spec fn split_extent_spec(
    start: nat,
    end: nat,
    separator: nat,
    first_weight: nat,
    second_weight: nat,
) -> ((nat, nat), (nat, nat)) {
    let total: nat = if end > start {
        (end - start) as nat
    } else {
        0
    };
    if total <= 1 {
        ((start, start), (start, end))
    } else {
        let gap: nat = if total >= separator + 2 {
            separator
        } else {
            0
        };
        let content: nat = (total - gap) as nat;
        let sum = first_weight + second_weight;
        let weight_total: nat = if sum > usize::MAX {
            usize::MAX as nat
        } else if sum == 0 {
            1
        } else {
            sum
        };
        let raw: nat = saturating_mul(content, first_weight) / weight_total;
        let first: nat = if content >= 2 {
            if raw < 1 {
                1
            } else if raw > content - 1 {
                (content - 1) as nat
            } else {
                raw
            }
        } else {
            raw
        };
        let second: nat = (content - first) as nat;
        ((start, start + first), ((end - second) as nat, end))
    }
}

/// The weighted share of a span is never more than the span.
proof fn lemma_share_at_most(content: nat, first_weight: nat, second_weight: nat)
    requires
        content <= usize::MAX,
    ensures
        ({
            let sum = first_weight + second_weight;
            let weight_total: nat = if sum > usize::MAX {
                usize::MAX as nat
            } else if sum == 0 {
                1
            } else {
                sum
            };
            saturating_mul(content, first_weight) / weight_total <= content
        }),
{
    let sum = first_weight + second_weight;
    if sum > usize::MAX {
        let p = saturating_mul(content, first_weight);
        assert(p <= usize::MAX);
        if content == 0 {
            assert(content * first_weight == 0) by (nonlinear_arith)
                requires
                    content == 0,
            ;
        } else {
            assert(p / (usize::MAX as nat) <= 1) by (nonlinear_arith)
                requires
                    p <= usize::MAX,
            ;
        }
    } else if sum == 0 {
        assert(first_weight == 0);
        assert(content * first_weight == 0) by (nonlinear_arith)
            requires
                first_weight == 0,
        ;
    } else {
        assert(content * first_weight <= content * sum) by (nonlinear_arith)
            requires
                first_weight <= sum,
        ;
        assert((content * sum) / sum == content) by (nonlinear_arith)
            requires
                sum > 0,
        ;
        let p = saturating_mul(content, first_weight);
        assert(p <= content * first_weight);
        assert(p / sum <= (content * sum) / sum) by (nonlinear_arith)
            requires
                p <= content * sum,
                sum > 0,
        ;
    }
}

/// Splits the span `[start, end)` between the two sides of a split.
pub fn split_extent_weighted(
    start: usize,
    end: usize,
    separator: usize,
    first_weight: usize,
    second_weight: usize,
) -> (r: ((usize, usize), (usize, usize)))
    requires
        separator + 2 <= usize::MAX,
    ensures
        ({
            let s = split_extent_spec(
                start as nat,
                end as nat,
                separator as nat,
                first_weight as nat,
                second_weight as nat,
            );
            r.0.0 == s.0.0 && r.0.1 == s.0.1 && r.1.0 == s.1.0 && r.1.1 == s.1.1
        }),
{
    let total = end.saturating_sub(start);
    if total <= 1 {
        return ((start, start), (start, end));
    }
    let gap = if total >= separator + 2 {
        separator
    } else {
        0
    };
    let content = total - gap;
    let weight_total = if first_weight > usize::MAX - second_weight {
        usize::MAX
    } else if first_weight + second_weight == 0 {
        1
    } else {
        first_weight + second_weight
    };
    let product = if first_weight != 0 && content > usize::MAX / first_weight {
        proof {
            assert(content * first_weight > usize::MAX) by (nonlinear_arith)
                requires
                    first_weight != 0,
                    content > usize::MAX / first_weight,
            ;
        }
        usize::MAX
    } else {
        proof {
            if first_weight != 0 {
                assert(content * first_weight <= usize::MAX) by (nonlinear_arith)
                    requires
                        first_weight != 0,
                        content <= usize::MAX / first_weight,
                ;
            }
        }
        content * first_weight
    };
    let mut first = product / weight_total;
    if content >= 2 {
        if first < 1 {
            first = 1;
        } else if first > content - 1 {
            first = content - 1;
        }
    } else {
        proof {
            lemma_share_at_most(content as nat, first_weight as nat, second_weight as nat);
        }
    }
    let second = content - first;
    ((start, start + first), (end - second, end))
}


/// The regions of a layout laid out over the given rows and columns, one
/// per pane, in pane order.
pub open spec fn regions_spec(
    node: LayoutNode,
    row_start: usize,
    row_end: usize,
    col_start: usize,
    col_end: usize,
) -> Seq<PaneRegion>
    decreases node,
{
    match node {
        LayoutNode::Pane(i) => seq![PaneRegion { pane: i, row_start, row_end, col_start, col_end }],
        LayoutNode::Split { direction, first_weight, second_weight, first, second } => {
            match direction {
                SplitDirection::Horizontal => {
                    let s = split_extent_spec(
                        col_start as nat,
                        col_end as nat,
                        HORIZONTAL_SEPARATOR_CELLS as nat,
                        first_weight as nat,
                        second_weight as nat,
                    );
                    regions_spec(*first, row_start, row_end, s.0.0 as usize, s.0.1 as usize)
                        + regions_spec(*second, row_start, row_end, s.1.0 as usize, s.1.1 as usize)
                },
                SplitDirection::Vertical => {
                    let s = split_extent_spec(
                        row_start as nat,
                        row_end as nat,
                        VERTICAL_SEPARATOR_CELLS as nat,
                        first_weight as nat,
                        second_weight as nat,
                    );
                    regions_spec(*first, s.0.0 as usize, s.0.1 as usize, col_start, col_end)
                        + regions_spec(*second, s.1.0 as usize, s.1.1 as usize, col_start, col_end)
                },
            }
        },
    }
}

fn collect_sized_layout_regions(
    layout: &LayoutNode,
    row_start: usize,
    row_end: usize,
    col_start: usize,
    col_end: usize,
    regions: &mut Vec<PaneRegion>,
)
    ensures
        final(regions)@ == old(regions)@ + regions_spec(
            *layout,
            row_start,
            row_end,
            col_start,
            col_end,
        ),
    decreases layout,
{
    match layout {
        LayoutNode::Pane(index) => {
            regions.push(PaneRegion { pane: *index, row_start, row_end, col_start, col_end });
        },
        LayoutNode::Split { direction, first_weight, second_weight, first, second } => {
            match direction {
                SplitDirection::Horizontal => {
                    let ((fs, fe), (ss, se)) = split_extent_weighted(
                        col_start,
                        col_end,
                        HORIZONTAL_SEPARATOR_CELLS,
                        *first_weight,
                        *second_weight,
                    );
                    let ghost mid = regions@;
                    collect_sized_layout_regions(first, row_start, row_end, fs, fe, regions);
                    collect_sized_layout_regions(second, row_start, row_end, ss, se, regions);
                    assert(regions@ =~= old(regions)@ + regions_spec(
                        *layout,
                        row_start,
                        row_end,
                        col_start,
                        col_end,
                    ));
                },
                SplitDirection::Vertical => {
                    let ((fs, fe), (ss, se)) = split_extent_weighted(
                        row_start,
                        row_end,
                        VERTICAL_SEPARATOR_CELLS,
                        *first_weight,
                        *second_weight,
                    );
                    collect_sized_layout_regions(first, fs, fe, col_start, col_end, regions);
                    collect_sized_layout_regions(second, ss, se, col_start, col_end, regions);
                    assert(regions@ =~= old(regions)@ + regions_spec(
                        *layout,
                        row_start,
                        row_end,
                        col_start,
                        col_end,
                    ));
                },
            }
        },
    }
}

/// The regions of a layout over a whole terminal.
pub open spec fn sized_regions(layout: LayoutNode, size: PtySize) -> Seq<PaneRegion> {
    regions_spec(layout, 0, size.rows as usize, 0, size.cols as usize)
}

/// The region of each pane when the layout fills a terminal of `size`.
pub fn layout_regions_for_size(layout: &LayoutNode, size: PtySize) -> (r: Vec<PaneRegion>)
    ensures
        r@ == sized_regions(*layout, size),
{
    let mut regions: Vec<PaneRegion> = Vec::new();
    collect_sized_layout_regions(layout, 0, size.rows as usize, 0, size.cols as usize, &mut regions);
    assert(regions@ =~= sized_regions(*layout, size));
    regions
}

/// The panes of the regions, in order.
pub open spec fn region_panes(regions: Seq<PaneRegion>) -> Seq<usize> {
    regions.map_values(|r: PaneRegion| r.pane)
}

/// A layout gives one region to each of its panes, in pane order.
pub proof fn law_regions_follow_panes(
    node: LayoutNode,
    row_start: usize,
    row_end: usize,
    col_start: usize,
    col_end: usize,
)
    ensures
        region_panes(regions_spec(node, row_start, row_end, col_start, col_end)) == leaves(node),
    decreases node,
{
    match node {
        LayoutNode::Pane(i) => {
            assert(region_panes(regions_spec(node, row_start, row_end, col_start, col_end))
                =~= seq![i]);
        },
        LayoutNode::Split { direction, first_weight, second_weight, first, second } => {
            match direction {
                SplitDirection::Horizontal => {
                    let s = split_extent_spec(
                        col_start as nat,
                        col_end as nat,
                        HORIZONTAL_SEPARATOR_CELLS as nat,
                        first_weight as nat,
                        second_weight as nat,
                    );
                    let a = regions_spec(*first, row_start, row_end, s.0.0 as usize, s.0.1 as usize);
                    let b = regions_spec(*second, row_start, row_end, s.1.0 as usize, s.1.1 as usize);
                    law_regions_follow_panes(*first, row_start, row_end, s.0.0 as usize, s.0.1 as usize);
                    law_regions_follow_panes(*second, row_start, row_end, s.1.0 as usize, s.1.1 as usize);
                    assert(region_panes(a + b) =~= region_panes(a) + region_panes(b));
                },
                SplitDirection::Vertical => {
                    let s = split_extent_spec(
                        row_start as nat,
                        row_end as nat,
                        VERTICAL_SEPARATOR_CELLS as nat,
                        first_weight as nat,
                        second_weight as nat,
                    );
                    let a = regions_spec(*first, s.0.0 as usize, s.0.1 as usize, col_start, col_end);
                    let b = regions_spec(*second, s.1.0 as usize, s.1.1 as usize, col_start, col_end);
                    law_regions_follow_panes(*first, s.0.0 as usize, s.0.1 as usize, col_start, col_end);
                    law_regions_follow_panes(*second, s.1.0 as usize, s.1.1 as usize, col_start, col_end);
                    assert(region_panes(a + b) =~= region_panes(a) + region_panes(b));
                },
            }
        },
    }
}

/// A split of the first pane numbered `target` (in pane order) into
/// `target` and `new_index`, side by side or stacked; `false` and the layout
/// unchanged when there is no such pane.
pub open spec fn split_spec(
    node: LayoutNode,
    target: usize,
    direction: SplitDirection,
    new_index: usize,
) -> (LayoutNode, bool)
    decreases node,
{
    match node {
        LayoutNode::Pane(i) => if i == target {
            (
                LayoutNode::Split {
                    direction,
                    first_weight: 1,
                    second_weight: 1,
                    first: Box::new(LayoutNode::Pane(target)),
                    second: Box::new(LayoutNode::Pane(new_index)),
                },
                true,
            )
        } else {
            (node, false)
        },
        LayoutNode::Split { direction: d, first_weight, second_weight, first, second } => {
            let (f, done) = split_spec(*first, target, direction, new_index);
            if done {
                (
                    LayoutNode::Split {
                        direction: d,
                        first_weight,
                        second_weight,
                        first: Box::new(f),
                        second,
                    },
                    true,
                )
            } else {
                let (s, done2) = split_spec(*second, target, direction, new_index);
                (
                    LayoutNode::Split {
                        direction: d,
                        first_weight,
                        second_weight,
                        first: Box::new(f),
                        second: Box::new(s),
                    },
                    done2,
                )
            }
        },
    }
}

fn split_node(node: LayoutNode, target: usize, direction: SplitDirection, new_index: usize) -> (r:
    (LayoutNode, bool))
    ensures
        r == split_spec(node, target, direction, new_index),
    decreases node,
{
    match node {
        LayoutNode::Pane(index) => {
            if index == target {
                (
                    LayoutNode::Split {
                        direction,
                        first_weight: 1,
                        second_weight: 1,
                        first: Box::new(LayoutNode::Pane(target)),
                        second: Box::new(LayoutNode::Pane(new_index)),
                    },
                    true,
                )
            } else {
                (LayoutNode::Pane(index), false)
            }
        },
        LayoutNode::Split { direction: d, first_weight, second_weight, first, second } => {
            let (f, done) = split_node(*first, target, direction, new_index);
            if done {
                (
                    LayoutNode::Split {
                        direction: d,
                        first_weight,
                        second_weight,
                        first: Box::new(f),
                        second,
                    },
                    true,
                )
            } else {
                let (s, done2) = split_node(*second, target, direction, new_index);
                (
                    LayoutNode::Split {
                        direction: d,
                        first_weight,
                        second_weight,
                        first: Box::new(f),
                        second: Box::new(s),
                    },
                    done2,
                )
            }
        },
    }
}

impl LayoutNode {
    /// Splits the first pane numbered `target` into `target` and
    /// `new_index`.
    pub fn split_pane(&mut self, target: usize, direction: SplitDirection, new_index: usize) -> (r:
        bool)
        ensures
            (*final(self), r) == split_spec(*old(self), target, direction, new_index),
    {
        let mut node = LayoutNode::Pane(0);
        std::mem::swap(&mut node, self);
        let (n, done) = split_node(node, target, direction, new_index);
        *self = n;
        done
    }
}


/// The panes of `s` after pane `removed` is taken out and every higher
/// number moves down by one.
pub open spec fn renumber(s: Seq<usize>, removed: usize) -> Seq<usize>
    decreases s.len(),
{
    if s.len() == 0 {
        s
    } else {
        let rest = renumber(s.drop_last(), removed);
        let x = s.last();
        if x == removed {
            rest
        } else if x > removed {
            rest.push((x - 1) as usize)
        } else {
            rest.push(x)
        }
    }
}

/// The layout after pane `removed` is taken out: a split that loses one
/// side is replaced by its other side, and higher pane numbers move down by
/// one; `false` when nothing of the layout is left.
pub open spec fn remove_spec(node: LayoutNode, removed: usize) -> (LayoutNode, bool)
    decreases node,
{
    match node {
        LayoutNode::Pane(i) => if i == removed {
            (node, false)
        } else if i > removed {
            (LayoutNode::Pane((i - 1) as usize), true)
        } else {
            (node, true)
        },
        LayoutNode::Split { direction, first_weight, second_weight, first, second } => {
            let (f, keep_first) = remove_spec(*first, removed);
            let (s, keep_second) = remove_spec(*second, removed);
            if keep_first && keep_second {
                (
                    LayoutNode::Split {
                        direction,
                        first_weight,
                        second_weight,
                        first: Box::new(f),
                        second: Box::new(s),
                    },
                    true,
                )
            } else if keep_first {
                (f, true)
            } else if keep_second {
                (s, true)
            } else {
                (
                    LayoutNode::Split {
                        direction,
                        first_weight,
                        second_weight,
                        first: Box::new(f),
                        second: Box::new(s),
                    },
                    false,
                )
            }
        },
    }
}

fn remove_node(node: LayoutNode, removed: usize) -> (r: (LayoutNode, bool))
    ensures
        r == remove_spec(node, removed),
    decreases node,
{
    match node {
        LayoutNode::Pane(index) => {
            if index == removed {
                (LayoutNode::Pane(index), false)
            } else if index > removed {
                (LayoutNode::Pane(index - 1), true)
            } else {
                (LayoutNode::Pane(index), true)
            }
        },
        LayoutNode::Split { direction, first_weight, second_weight, first, second } => {
            let (f, keep_first) = remove_node(*first, removed);
            let (s, keep_second) = remove_node(*second, removed);
            if keep_first && keep_second {
                (
                    LayoutNode::Split {
                        direction,
                        first_weight,
                        second_weight,
                        first: Box::new(f),
                        second: Box::new(s),
                    },
                    true,
                )
            } else if keep_first {
                (f, true)
            } else if keep_second {
                (s, true)
            } else {
                (
                    LayoutNode::Split {
                        direction,
                        first_weight,
                        second_weight,
                        first: Box::new(f),
                        second: Box::new(s),
                    },
                    false,
                )
            }
        },
    }
}

impl LayoutNode {
    /// Takes pane `removed` out of the layout; `false` when nothing is left.
    pub fn remove_pane(&mut self, removed: usize) -> (r: bool)
        ensures
            (*final(self), r) == remove_spec(*old(self), removed),
    {
        let mut node = LayoutNode::Pane(0);
        std::mem::swap(&mut node, self);
        let (n, keep) = remove_node(node, removed);
        *self = n;
        keep
    }

    /// Whether `target` is one of the layout's panes.
    pub fn contains_pane(&self, target: usize) -> (r: bool)
        ensures
            r == has_pane(*self, target),
        decreases self,
    {
        match self {
            LayoutNode::Pane(index) => *index == target,
            LayoutNode::Split { first, second, .. } => {
                first.contains_pane(target) || second.contains_pane(target)
            },
        }
    }
}

proof fn lemma_renumber_concat(a: Seq<usize>, b: Seq<usize>, removed: usize)
    ensures
        renumber(a + b, removed) == renumber(a, removed) + renumber(b, removed),
    decreases b.len(),
{
    if b.len() == 0 {
        assert(a + b =~= a);
        assert(renumber(a, removed) + renumber(b, removed) =~= renumber(a, removed));
    } else {
        lemma_renumber_concat(a, b.drop_last(), removed);
        assert((a + b).drop_last() =~= a + b.drop_last());
        assert((a + b).last() == b.last());
    }
}

proof fn lemma_renumber_all_removed(s: Seq<usize>, removed: usize)
    requires
        forall|i: int| 0 <= i < s.len() ==> s[i] == removed,
    ensures
        renumber(s, removed) == Seq::<usize>::empty(),
    decreases s.len(),
{
    if s.len() > 0 {
        lemma_renumber_all_removed(s.drop_last(), removed);
        assert(s.last() == s[s.len() - 1]);
    }
}

/// Removing a pane takes it out of the pane order and moves higher numbers
/// down by one; when nothing is left, every pane of the layout was the
/// removed one.
pub proof fn law_remove_pane_renumbers(node: LayoutNode, removed: usize)
    ensures
        remove_spec(node, removed).1 ==> leaves(remove_spec(node, removed).0) == renumber(
            leaves(node),
            removed,
        ),
        !remove_spec(node, removed).1 ==> forall|i: int|
            0 <= i < leaves(node).len() ==> leaves(node)[i] == removed,
    decreases node,
{
    match node {
        LayoutNode::Pane(i) => {
            let l = seq![i];
            assert(l.drop_last() =~= Seq::<usize>::empty());
            assert(renumber(Seq::<usize>::empty(), removed) == Seq::<usize>::empty());
            if i > removed {
                assert(renumber(l, removed) =~= seq![(i - 1) as usize]);
            } else if i < removed {
                assert(renumber(l, removed) =~= seq![i]);
            }
        },
        LayoutNode::Split { direction, first_weight, second_weight, first, second } => {
            law_remove_pane_renumbers(*first, removed);
            law_remove_pane_renumbers(*second, removed);
            let a = leaves(*first);
            let b = leaves(*second);
            lemma_renumber_concat(a, b, removed);
            let (f, kf) = remove_spec(*first, removed);
            let (s, ks) = remove_spec(*second, removed);
            if kf && !ks {
                lemma_renumber_all_removed(b, removed);
                assert(renumber(a, removed) + Seq::<usize>::empty() =~= renumber(a, removed));
            } else if !kf && ks {
                lemma_renumber_all_removed(a, removed);
                assert(Seq::<usize>::empty() + renumber(b, removed) =~= renumber(b, removed));
            } else if !kf && !ks {
                assert forall|i: int| 0 <= i < (a + b).len() implies (a + b)[i] == removed by {
                    if i < a.len() {
                        assert((a + b)[i] == a[i]);
                    } else {
                        assert((a + b)[i] == b[i - a.len()]);
                    }
                }
            }
        },
    }
}

/// `s` with the pane `x` placed right after the first `t`; `s` unchanged
/// when `t` does not occur.
pub open spec fn insert_after_first(s: Seq<usize>, t: usize, x: usize) -> Seq<usize>
    decreases s.len(),
{
    if s.len() == 0 {
        s
    } else if s[0] == t {
        seq![t, x] + s.drop_first()
    } else {
        seq![s[0]] + insert_after_first(s.drop_first(), t, x)
    }
}

proof fn lemma_insert_after_first_concat(a: Seq<usize>, b: Seq<usize>, t: usize, x: usize)
    ensures
        a.contains(t) ==> insert_after_first(a + b, t, x) == insert_after_first(a, t, x) + b,
        !a.contains(t) ==> insert_after_first(a + b, t, x) == a + insert_after_first(b, t, x),
        !a.contains(t) ==> insert_after_first(a, t, x) == a,
    decreases a.len(),
{
    if a.len() == 0 {
        assert(a + b =~= b);
    } else {
        assert((a + b).drop_first() =~= a.drop_first() + b);
        assert((a + b)[0] == a[0]);
        lemma_insert_after_first_concat(a.drop_first(), b, t, x);
        if a[0] == t {
            assert(seq![t, x] + (a.drop_first() + b) =~= seq![t, x] + a.drop_first() + b);
        } else {
            assert(a.contains(t) ==> a.drop_first().contains(t)) by {
                if a.contains(t) {
                    let k = choose|k: int| 0 <= k < a.len() && a[k] == t;
                    assert(a.drop_first()[k - 1] == t);
                }
            }
            assert(!a.contains(t) ==> !a.drop_first().contains(t)) by {
                if a.drop_first().contains(t) {
                    let k = choose|k: int| 0 <= k < a.drop_first().len() && a.drop_first()[k] == t;
                    assert(a[k + 1] == t);
                }
            }
            assert(seq![a[0]] + (insert_after_first(a.drop_first(), t, x) + b) =~= seq![a[0]]
                + insert_after_first(a.drop_first(), t, x) + b);
            assert(seq![a[0]] + (a.drop_first() + insert_after_first(b, t, x)) =~= a
                + insert_after_first(b, t, x));
            assert(seq![a[0]] + a.drop_first() =~= a);
        }
    }
}

/// Splitting a pane succeeds exactly when the pane is in the layout, and
/// puts the new pane right after it in pane order.
pub proof fn law_split_pane_inserts(
    node: LayoutNode,
    target: usize,
    direction: SplitDirection,
    new_index: usize,
)
    ensures
        split_spec(node, target, direction, new_index).1 == has_pane(node, target),
        leaves(split_spec(node, target, direction, new_index).0) == insert_after_first(
            leaves(node),
            target,
            new_index,
        ),
    decreases node,
{
    lemma_has_pane_leaves(node, target);
    match node {
        LayoutNode::Pane(i) => {
            let l = seq![i];
            assert(l.drop_first() =~= Seq::<usize>::empty());
            assert(insert_after_first(Seq::<usize>::empty(), target, new_index) =~= Seq::<
                usize,
            >::empty());
            if i == target {
                assert(seq![target, new_index] + Seq::<usize>::empty() =~= seq![target, new_index]);
                let sp = split_spec(node, target, direction, new_index).0;
                assert(leaves(LayoutNode::Pane(target)) =~= seq![target]);
                assert(leaves(LayoutNode::Pane(new_index)) =~= seq![new_index]);
                assert(leaves(sp) =~= seq![target] + seq![new_index]);
                assert(seq![target] + seq![new_index] =~= seq![target, new_index]);
            } else {
                assert(seq![i] + Seq::<usize>::empty() =~= seq![i]);
            }
        },
        LayoutNode::Split { first, second, .. } => {
            law_split_pane_inserts(*first, target, direction, new_index);
            law_split_pane_inserts(*second, target, direction, new_index);
            lemma_has_pane_leaves(*first, target);
            lemma_has_pane_leaves(*second, target);
            lemma_insert_after_first_concat(leaves(*first), leaves(*second), target, new_index);
        },
    }
}


/// Why a layout change was refused.
#[derive(Debug, Clone, Copy, PartialEq, Eq, Structural)]
pub enum LayoutError {
    /// A resize by zero cells.
    NotPositive,
    /// No split on the requested side of the pane.
    MissingAdjacentPane,
    /// The pane is not in the layout.
    MissingPane,
    /// A pane would be left without a cell.
    TooSmall,
}

/// The message for each refusal.
pub open spec fn layout_error_text(e: LayoutError) -> Seq<char> {
    match e {
        LayoutError::NotPositive => "resize amount must be a positive integer"@,
        LayoutError::MissingAdjacentPane => "missing adjacent pane"@,
        LayoutError::MissingPane => "missing pane"@,
        LayoutError::TooSmall => "resize would exceed minimum pane size"@,
    }
}

impl LayoutError {
    /// The message shown for this refusal.
    pub fn message(&self) -> (r: String)
        ensures
            r@ == layout_error_text(*self),
    {
        match self {
            LayoutError::NotPositive => String::from_str("resize amount must be a positive integer"),
            LayoutError::MissingAdjacentPane => String::from_str("missing adjacent pane"),
            LayoutError::MissingPane => String::from_str("missing pane"),
            LayoutError::TooSmall => String::from_str("resize would exceed minimum pane size"),
        }
    }
}

/// The separator width of a split direction.
pub open spec fn separator_spec(direction: SplitDirection) -> usize {
    match direction {
        SplitDirection::Horizontal => HORIZONTAL_SEPARATOR_CELLS,
        SplitDirection::Vertical => VERTICAL_SEPARATOR_CELLS,
    }
}

fn separator_for_direction(direction: SplitDirection) -> (r: usize)
    ensures
        r == separator_spec(direction),
{
    match direction {
        SplitDirection::Horizontal => HORIZONTAL_SEPARATOR_CELLS,
        SplitDirection::Vertical => VERTICAL_SEPARATOR_CELLS,
    }
}

/// A split's first side can grow by pushing the divider right (side by
/// side) or down (stacked).
pub open spec fn can_resize_from_first(split: SplitDirection, resize: PaneResizeDirection) -> bool {
    (split == SplitDirection::Horizontal && resize == PaneResizeDirection::Right) || (split
        == SplitDirection::Vertical && resize == PaneResizeDirection::Down)
}

/// A split's second side can grow by pushing the divider left or up.
pub open spec fn can_resize_from_second(
    split: SplitDirection,
    resize: PaneResizeDirection,
) -> bool {
    (split == SplitDirection::Horizontal && resize == PaneResizeDirection::Left) || (split
        == SplitDirection::Vertical && resize == PaneResizeDirection::Up)
}

fn split_can_resize_from_first(split: SplitDirection, resize: PaneResizeDirection) -> (r: bool)
    ensures
        r == can_resize_from_first(split, resize),
{
    match (split, resize) {
        (SplitDirection::Horizontal, PaneResizeDirection::Right) => true,
        (SplitDirection::Vertical, PaneResizeDirection::Down) => true,
        _ => false,
    }
}

fn split_can_resize_from_second(split: SplitDirection, resize: PaneResizeDirection) -> (r: bool)
    ensures
        r == can_resize_from_second(split, resize),
{
    match (split, resize) {
        (SplitDirection::Horizontal, PaneResizeDirection::Left) => true,
        (SplitDirection::Vertical, PaneResizeDirection::Up) => true,
        _ => false,
    }
}

/// The new weights of a split whose sides measure `first_size` and
/// `second_size` cells after moving the divider by `amount` cells towards
/// the side that does not grow; `None` when a side would be left empty.
pub open spec fn resize_weights_spec(
    first_size: nat,
    second_size: nat,
    amount: nat,
    grow_first: bool,
) -> Option<(nat, nat)> {
    if grow_first {
        if second_size < amount || second_size - amount < 1 || first_size + amount < 1 {
            None
        } else {
            Some((first_size + amount, (second_size - amount) as nat))
        }
    } else {
        if first_size < amount || first_size - amount < 1 || second_size + amount < 1 {
            None
        } else {
            Some(((first_size - amount) as nat, second_size + amount))
        }
    }
}

fn resize_split_weights(first_size: usize, second_size: usize, amount: usize, grow_first: bool) -> (r:
    Option<(usize, usize)>)
    requires
        first_size + second_size <= usize::MAX,
    ensures
        match resize_weights_spec(first_size as nat, second_size as nat, amount as nat, grow_first) {
            Some((a, b)) => r == Some((a as usize, b as usize)),
            None => r is None,
        },
{
    let (new_first, new_second) = if grow_first {
        if second_size < amount {
            return None;
        }
        (first_size + amount, second_size - amount)
    } else {
        if first_size < amount {
            return None;
        }
        (first_size - amount, second_size + amount)
    };
    if new_first < 1 || new_second < 1 {
        return None;
    }
    Some((new_first, new_second))
}

/// The two sides of a split laid over the given rows and columns:
/// `(rows, cols)` of the first side, then of the second.
pub open spec fn split_sides(
    direction: SplitDirection,
    first_weight: usize,
    second_weight: usize,
    row_start: usize,
    row_end: usize,
    col_start: usize,
    col_end: usize,
) -> ((usize, usize, usize, usize), (usize, usize, usize, usize)) {
    match direction {
        SplitDirection::Horizontal => {
            let s = split_extent_spec(
                col_start as nat,
                col_end as nat,
                HORIZONTAL_SEPARATOR_CELLS as nat,
                first_weight as nat,
                second_weight as nat,
            );
            (
                (row_start, row_end, s.0.0 as usize, s.0.1 as usize),
                (row_start, row_end, s.1.0 as usize, s.1.1 as usize),
            )
        },
        SplitDirection::Vertical => {
            let s = split_extent_spec(
                row_start as nat,
                row_end as nat,
                VERTICAL_SEPARATOR_CELLS as nat,
                first_weight as nat,
                second_weight as nat,
            );
            (
                (s.0.0 as usize, s.0.1 as usize, col_start, col_end),
                (s.1.0 as usize, s.1.1 as usize, col_start, col_end),
            )
        },
    }
}

/// The cells along the split's direction of a side `(rows, cols)`.
pub open spec fn side_extent(direction: SplitDirection, side: (usize, usize, usize, usize)) -> nat {
    match direction {
        SplitDirection::Horizontal => if side.3 >= side.2 {
            (side.3 - side.2) as nat
        } else {
            0
        },
        SplitDirection::Vertical => if side.1 >= side.0 {
            (side.1 - side.0) as nat
        } else {
            0
        },
    }
}

/// Moving the divider next to pane `target` by `amount` cells in
/// `resize`'s direction, in a layout laid over the given rows and columns:
/// the nearest enclosing split whose divider lies on that side of the pane
/// takes the sizes of its sides as new weights, the grown side gaining
/// `amount` cells and the other losing them.
pub open spec fn resize_spec(
    node: LayoutNode,
    target: usize,
    resize: PaneResizeDirection,
    amount: usize,
    row_start: usize,
    row_end: usize,
    col_start: usize,
    col_end: usize,
) -> Result<LayoutNode, LayoutError>
    decreases node,
{
    match node {
        LayoutNode::Pane(i) => if i == target {
            Err(LayoutError::MissingAdjacentPane)
        } else {
            Err(LayoutError::MissingPane)
        },
        LayoutNode::Split { direction, first_weight, second_weight, first, second } => {
            let sides = split_sides(
                direction,
                first_weight,
                second_weight,
                row_start,
                row_end,
                col_start,
                col_end,
            );
            let (a, b) = sides;
            let first_size = side_extent(direction, a);
            let second_size = side_extent(direction, b);
            if has_pane(*first, target) {
                match resize_spec(*first, target, resize, amount, a.0, a.1, a.2, a.3) {
                    Ok(f) => Ok(
                        LayoutNode::Split {
                            direction,
                            first_weight,
                            second_weight,
                            first: Box::new(f),
                            second,
                        },
                    ),
                    Err(LayoutError::MissingAdjacentPane) => if can_resize_from_first(
                        direction,
                        resize,
                    ) {
                        match resize_weights_spec(first_size, second_size, amount as nat, true) {
                            Some((w1, w2)) => Ok(
                                LayoutNode::Split {
                                    direction,
                                    first_weight: w1 as usize,
                                    second_weight: w2 as usize,
                                    first,
                                    second,
                                },
                            ),
                            None => Err(LayoutError::TooSmall),
                        }
                    } else {
                        Err(LayoutError::MissingAdjacentPane)
                    },
                    Err(e) => Err(e),
                }
            } else if has_pane(*second, target) {
                match resize_spec(*second, target, resize, amount, b.0, b.1, b.2, b.3) {
                    Ok(s) => Ok(
                        LayoutNode::Split {
                            direction,
                            first_weight,
                            second_weight,
                            first,
                            second: Box::new(s),
                        },
                    ),
                    Err(LayoutError::MissingAdjacentPane) => if can_resize_from_second(
                        direction,
                        resize,
                    ) {
                        match resize_weights_spec(first_size, second_size, amount as nat, false) {
                            Some((w1, w2)) => Ok(
                                LayoutNode::Split {
                                    direction,
                                    first_weight: w1 as usize,
                                    second_weight: w2 as usize,
                                    first,
                                    second,
                                },
                            ),
                            None => Err(LayoutError::TooSmall),
                        }
                    } else {
                        Err(LayoutError::MissingAdjacentPane)
                    },
                    Err(e) => Err(e),
                }
            } else {
                Err(LayoutError::MissingPane)
            }
        },
    }
}

/// A split keeps its span in order: the first side starts the span, the
/// second ends it, and neither overlaps the other.
proof fn lemma_split_extent_ordered(
    start: nat,
    end: nat,
    separator: nat,
    first_weight: nat,
    second_weight: nat,
)
    requires
        start <= end <= usize::MAX,
    ensures
        ({
            let s = split_extent_spec(start, end, separator, first_weight, second_weight);
            &&& s.0.0 == start
            &&& start <= s.0.1 <= s.1.0 <= end
            &&& s.1.1 == end
        }),
{
    let total = (end - start) as nat;
    if total > 1 {
        let gap: nat = if total >= separator + 2 {
            separator
        } else {
            0
        };
        let content: nat = (total - gap) as nat;
        lemma_share_at_most(content, first_weight, second_weight);
    }
}

fn resize_in_region(
    node: &LayoutNode,
    target: usize,
    resize: PaneResizeDirection,
    amount: usize,
    row_start: usize,
    row_end: usize,
    col_start: usize,
    col_end: usize,
) -> (r: Result<LayoutNode, LayoutError>)
    requires
        row_start <= row_end,
        col_start <= col_end,
    ensures
        r == resize_spec(*node, target, resize, amount, row_start, row_end, col_start, col_end),
    decreases node,
{
    match node {
        LayoutNode::Pane(index) => {
            if *index == target {
                Err(LayoutError::MissingAdjacentPane)
            } else {
                Err(LayoutError::MissingPane)
            }
        },
        LayoutNode::Split { direction, first_weight, second_weight, first, second } => {
            let separator = separator_for_direction(*direction);
            let (fr0, fr1, fc0, fc1, sr0, sr1, sc0, sc1) = match direction {
                SplitDirection::Horizontal => {
                    let ((fs, fe), (ss, se)) = split_extent_weighted(
                        col_start,
                        col_end,
                        separator,
                        *first_weight,
                        *second_weight,
                    );
                    proof {
                        lemma_split_extent_ordered(
                            col_start as nat,
                            col_end as nat,
                            separator as nat,
                            *first_weight as nat,
                            *second_weight as nat,
                        );
                    }
                    (row_start, row_end, fs, fe, row_start, row_end, ss, se)
                },
                SplitDirection::Vertical => {
                    let ((fs, fe), (ss, se)) = split_extent_weighted(
                        row_start,
                        row_end,
                        separator,
                        *first_weight,
                        *second_weight,
                    );
                    proof {
                        lemma_split_extent_ordered(
                            row_start as nat,
                            row_end as nat,
                            separator as nat,
                            *first_weight as nat,
                            *second_weight as nat,
                        );
                    }
                    (fs, fe, col_start, col_end, ss, se, col_start, col_end)
                },
            };
            let (first_size, second_size) = match direction {
                SplitDirection::Horizontal => (fc1 - fc0, sc1 - sc0),
                SplitDirection::Vertical => (fr1 - fr0, sr1 - sr0),
            };
            if first.contains_pane(target) {
                let sub = resize_in_region(first, target, resize, amount, fr0, fr1, fc0, fc1);
                match sub {
                    Ok(f) => Ok(
                        LayoutNode::Split {
                            direction: *direction,
                            first_weight: *first_weight,
                            second_weight: *second_weight,
                            first: Box::new(f),
                            second: Box::new((**second).clone()),
                        },
                    ),
                    Err(LayoutError::MissingAdjacentPane) => {
                        if split_can_resize_from_first(*direction, resize) {
                            match resize_split_weights(first_size, second_size, amount, true) {
                                Some((w1, w2)) => Ok(
                                    LayoutNode::Split {
                                        direction: *direction,
                                        first_weight: w1,
                                        second_weight: w2,
                                        first: Box::new((**first).clone()),
                                        second: Box::new((**second).clone()),
                                    },
                                ),
                                None => Err(LayoutError::TooSmall),
                            }
                        } else {
                            Err(LayoutError::MissingAdjacentPane)
                        }
                    },
                    Err(e) => Err(e),
                }
            } else if second.contains_pane(target) {
                let sub = resize_in_region(second, target, resize, amount, sr0, sr1, sc0, sc1);
                match sub {
                    Ok(s) => Ok(
                        LayoutNode::Split {
                            direction: *direction,
                            first_weight: *first_weight,
                            second_weight: *second_weight,
                            first: Box::new((**first).clone()),
                            second: Box::new(s),
                        },
                    ),
                    Err(LayoutError::MissingAdjacentPane) => {
                        if split_can_resize_from_second(*direction, resize) {
                            match resize_split_weights(first_size, second_size, amount, false) {
                                Some((w1, w2)) => Ok(
                                    LayoutNode::Split {
                                        direction: *direction,
                                        first_weight: w1,
                                        second_weight: w2,
                                        first: Box::new((**first).clone()),
                                        second: Box::new((**second).clone()),
                                    },
                                ),
                                None => Err(LayoutError::TooSmall),
                            }
                        } else {
                            Err(LayoutError::MissingAdjacentPane)
                        }
                    },
                    Err(e) => Err(e),
                }
            } else {
                Err(LayoutError::MissingPane)
            }
        },
    }
}

/// Whether every region has at least one row and one column.
pub open spec fn all_nonempty(regions: Seq<PaneRegion>) -> bool {
    forall|i: int|
        0 <= i < regions.len() ==> regions[i].row_start < regions[i].row_end && regions[i].col_start
            < regions[i].col_end
}

fn regions_nonempty(regions: &Vec<PaneRegion>) -> (r: bool)
    ensures
        r == all_nonempty(regions@),
{
    let mut i: usize = 0;
    while i < regions.len()
        invariant
            i <= regions.len(),
            forall|j: int|
                0 <= j < i ==> regions@[j].row_start < regions@[j].row_end && regions@[j].col_start
                    < regions@[j].col_end,
        decreases regions.len() - i,
    {
        let region = regions[i];
        if region.row_start >= region.row_end || region.col_start >= region.col_end {
            return false;
        }
        i = i + 1;
    }
    true
}

/// The layout after resizing pane `target` in a terminal of `size`, or why
/// it was refused.
pub open spec fn resize_pane_spec(
    node: LayoutNode,
    target: usize,
    resize: PaneResizeDirection,
    amount: usize,
    size: PtySize,
) -> Result<LayoutNode, LayoutError> {
    if amount == 0 {
        Err(LayoutError::NotPositive)
    } else {
        match resize_spec(node, target, resize, amount, 0, size.rows as usize, 0, size.cols as usize) {
            Ok(n) => if all_nonempty(sized_regions(n, size)) {
                Ok(n)
            } else {
                Err(LayoutError::TooSmall)
            },
            Err(e) => Err(e),
        }
    }
}

impl LayoutNode {
    /// Moves the divider next to pane `target` by `amount` cells; on a
    /// refusal the layout is left as it was.
    pub fn resize_pane(
        &mut self,
        target: usize,
        direction: PaneResizeDirection,
        amount: usize,
        size: PtySize,
    ) -> (r: Result<(), String>)
        ensures
            match resize_pane_spec(*old(self), target, direction, amount, size) {
                Ok(n) => r is Ok && *final(self) == n,
                Err(e) => *final(self) == *old(self) && (r matches Err(m) && m@ == layout_error_text(e)),
            },
    {
        if amount == 0 {
            return Err(LayoutError::NotPositive.message());
        }
        let resized = resize_in_region(
            self,
            target,
            direction,
            amount,
            0,
            size.rows as usize,
            0,
            size.cols as usize,
        );
        match resized {
            Ok(n) => {
                let regions = layout_regions_for_size(&n, size);
                if !regions_nonempty(&regions) {
                    return Err(LayoutError::TooSmall.message());
                }
                *self = n;
                Ok(())
            },
            Err(e) => Err(e.message()),
        }
    }
}


/// `x * y` for machine words, or the largest `usize` when that overflows.
fn saturating_mul_usize(x: usize, y: usize) -> (r: usize)
    ensures
        r == saturating_mul(x as nat, y as nat),
{
    if y != 0 && x > usize::MAX / y {
        proof {
            assert(x * y > usize::MAX) by (nonlinear_arith)
                requires
                    y != 0,
                    x > usize::MAX / y,
            ;
        }
        usize::MAX
    } else {
        proof {
            if y != 0 {
                assert(x * y <= usize::MAX) by (nonlinear_arith)
                    requires
                        y != 0,
                        x <= usize::MAX / y,
                ;
            } else {
                assert(x * y == 0) by (nonlinear_arith)
                    requires
                        y == 0,
                ;
            }
        }
        x * y
    }
}

/// The sum of a sequence of spans.
pub open spec fn span_sum(s: Seq<usize>) -> nat
    decreases s.len(),
{
    if s.len() == 0 {
        0
    } else {
        (span_sum(s.drop_last()) + s.last()) as nat
    }
}

proof fn lemma_span_sum_concat(a: Seq<usize>, b: Seq<usize>)
    ensures
        span_sum(a + b) == span_sum(a) + span_sum(b),
    decreases b.len(),
{
    if b.len() == 0 {
        assert(a + b =~= a);
    } else {
        lemma_span_sum_concat(a, b.drop_last());
        assert((a + b).drop_last() =~= a + b.drop_last());
    }
}

/// The cells taken by a run of sibling panes with the given spans and the
/// separators between them.
pub open spec fn subtree_span_spec(spans: Seq<usize>, separator: usize) -> nat {
    span_sum(spans) + saturating_mul(
        separator as nat,
        if spans.len() >= 1 {
            (spans.len() - 1) as nat
        } else {
            0
        },
    )
}

fn subtree_span(spans: &Vec<usize>, separator: usize) -> (r: usize)
    requires
        separator <= 3,
        span_sum(spans@) + 3 * spans.len() <= usize::MAX,
    ensures
        r == subtree_span_spec(spans@, separator),
{
    let mut total: usize = 0;
    let mut i: usize = 0;
    while i < spans.len()
        invariant
            i <= spans.len(),
            total == span_sum(spans@.take(i as int)),
            span_sum(spans@) + 3 * spans.len() <= usize::MAX,
        decreases spans.len() - i,
    {
        proof {
            assert(spans@.take(i + 1).drop_last() =~= spans@.take(i as int));
            lemma_span_sum_concat(spans@.take(i + 1), spans@.skip(i + 1));
            assert(spans@.take(i + 1) + spans@.skip(i + 1) =~= spans@);
        }
        total = total + spans[i];
        i = i + 1;
    }
    assert(spans@.take(i as int) =~= spans@);
    let gaps = if spans.len() >= 1 {
        spans.len() - 1
    } else {
        0
    };
    let sep_total = saturating_mul_usize(separator, gaps);
    proof {
        assert(separator * gaps <= 3 * spans.len()) by (nonlinear_arith)
            requires
                separator <= 3,
                gaps <= spans.len(),
        ;
    }
    total + sep_total
}

/// The span of the `i`-th of `count` even panes: `base` cells, one more
/// for each of the last `extra` panes.
pub open spec fn even_span(base: nat, count: nat, extra: nat) -> spec_fn(int) -> usize {
    |i: int| (base + if extra > 0 && i >= count - extra { 1nat } else { 0nat }) as usize
}

/// The spans of `count` equal sibling panes over `extent` cells with
/// `separator` cells between neighbours: the content left after the
/// separators (at least one cell per pane) is shared out evenly, the last
/// panes taking one extra cell each for the remainder.
pub open spec fn even_spans_spec(extent: nat, count: nat, separator: nat) -> Seq<usize> {
    if count == 0 {
        Seq::empty()
    } else {
        let total_separator = saturating_mul(separator, (count - 1) as nat);
        let left: nat = if extent >= total_separator {
            (extent - total_separator) as nat
        } else {
            0
        };
        let content: nat = if left >= count {
            left
        } else {
            count
        };
        let base = content / count;
        let extra = content % count;
        Seq::new(count, even_span(base, count, extra))
    }
}

proof fn lemma_even_spans_sum(base: nat, count: nat, extra: nat, k: nat)
    requires
        extra < count,
        k <= count,
        base + 1 <= usize::MAX,
    ensures
        span_sum(Seq::new(k, even_span(base, count, extra)))
            == base * k + (if k + extra > count { (k + extra - count) as nat } else { 0nat }),
    decreases k,
{
    let f = even_span(base, count, extra);
    if k == 0 {
        assert(base * k == 0) by (nonlinear_arith)
            requires
                k == 0,
        ;
        assert(Seq::new(k, f).len() == 0);
    } else {
        lemma_even_spans_sum(base, count, extra, (k - 1) as nat);
        assert(Seq::new(k, f).drop_last() =~= Seq::new((k - 1) as nat, f));
        assert(Seq::new(k, f).last() == f(k - 1));
        assert(span_sum(Seq::new(k, f)) == span_sum(Seq::new((k - 1) as nat, f)) + f(k - 1));
        if extra > 0 && k - 1 >= count - extra {
            assert(f(k - 1) == base + 1);
        } else {
            assert(f(k - 1) == base);
        }
        assert(base * k == base * (k - 1) + base) by (nonlinear_arith)
            requires
                k > 0,
        ;
    }
}

fn even_leaf_spans(extent: usize, count: usize, separator: usize) -> (r: Vec<usize>)
    requires
        extent <= u16::MAX,
        count <= usize::MAX / 8,
    ensures
        r@ == even_spans_spec(extent as nat, count as nat, separator as nat),
        span_sum(r@) <= extent + count,
{
    if count == 0 {
        let v: Vec<usize> = Vec::new();
        assert(v@ =~= even_spans_spec(extent as nat, count as nat, separator as nat));
        return v;
    }
    let total_separator = saturating_mul_usize(separator, count - 1);
    let left = extent.saturating_sub(total_separator);
    let content = if left >= count {
        left
    } else {
        count
    };
    let base = content / count;
    let extra = content % count;
    proof {
        assert(content == base * count + extra) by (nonlinear_arith)
            requires
                count > 0,
                base == content / count,
                extra == content % count,
        ;
        if extra > 0 {
            assert(base < usize::MAX) by (nonlinear_arith)
                requires
                    extra > 0,
                    extra < count,
                    content == base * count + extra,
                    content <= usize::MAX,
            ;
        }
    }
    let ghost f = even_span(base as nat, count as nat, extra as nat);
    let mut spans: Vec<usize> = Vec::new();
    let mut i: usize = 0;
    while i < count
        invariant
            i <= count,
            count > 0,
            extra < count,
            extra > 0 ==> base < usize::MAX,
            spans@ =~= Seq::new(i as nat, f),
            f == even_span(base as nat, count as nat, extra as nat),
        decreases count - i,
    {
        let bump: usize = if extra > 0 && i >= count - extra {
            1
        } else {
            0
        };
        spans.push(base + bump);
        i = i + 1;
    }
    proof {
        assert(base <= content) by (nonlinear_arith)
            requires
                count > 0,
                base == content / count,
        ;
        lemma_even_spans_sum(base as nat, count as nat, extra as nat, count as nat);
        assert(spans@ =~= Seq::new(count as nat, f));
        assert(content <= extent + count);
    }
    spans
}

/// The layout that lays `nodes` side by side (or stacked) with the given
/// spans, as a balanced tree of splits: the first half of the nodes on one
/// side, the rest on the other, each side weighted by the cells its panes
/// and separators take.
pub open spec fn build_sequence_spec(
    direction: SplitDirection,
    nodes: Seq<LayoutNode>,
    spans: Seq<usize>,
) -> LayoutNode
    decreases nodes.len(),
{
    if nodes.len() <= 1 {
        nodes[0]
    } else {
        let split = nodes.len() / 2;
        let first_spans = spans.take(split as int);
        let second_spans = spans.skip(split as int);
        let first_weight = subtree_span_spec(first_spans, separator_spec(direction));
        let second_weight = subtree_span_spec(second_spans, separator_spec(direction));
        LayoutNode::Split {
            direction,
            first_weight: if first_weight >= 1 { first_weight as usize } else { 1 },
            second_weight: if second_weight >= 1 { second_weight as usize } else { 1 },
            first: Box::new(build_sequence_spec(direction, nodes.take(split as int), first_spans)),
            second: Box::new(build_sequence_spec(direction, nodes.skip(split as int), second_spans)),
        }
    }
}

fn build_sequence_with_leaf_spans(
    direction: SplitDirection,
    nodes: Vec<LayoutNode>,
    spans: Vec<usize>,
) -> (r: LayoutNode)
    requires
        nodes.len() >= 1,
        nodes.len() == spans.len(),
        span_sum(spans@) + 3 * spans.len() <= usize::MAX,
    ensures
        r == build_sequence_spec(direction, nodes@, spans@),
    decreases nodes.len(),
{
    let mut nodes = nodes;
    if nodes.len() == 1 {
        return nodes.remove(0);
    }
    let ghost all_nodes = nodes@;
    let ghost all_spans = spans@;
    let split = nodes.len() / 2;
    let second_nodes = nodes.split_off(split);
    let mut first_spans = spans;
    let second_spans = first_spans.split_off(split);
    proof {
        assert(all_nodes.take(split as int) =~= nodes@);
        assert(all_nodes.skip(split as int) =~= second_nodes@);
        assert(all_spans.take(split as int) =~= first_spans@);
        assert(all_spans.skip(split as int) =~= second_spans@);
        assert(all_spans =~= first_spans@ + second_spans@);
        lemma_span_sum_concat(first_spans@, second_spans@);
    }
    let separator = separator_for_direction(direction);
    let first_weight = subtree_span(&first_spans, separator);
    let second_weight = subtree_span(&second_spans, separator);
    let first = build_sequence_with_leaf_spans(direction, nodes, first_spans);
    let second = build_sequence_with_leaf_spans(direction, second_nodes, second_spans);
    LayoutNode::Split {
        direction,
        first_weight: if first_weight >= 1 { first_weight } else { 1 },
        second_weight: if second_weight >= 1 { second_weight } else { 1 },
        first: Box::new(first),
        second: Box::new(second),
    }
}

/// The leaves of the given panes, in order.
pub open spec fn pane_nodes(panes: Seq<usize>) -> Seq<LayoutNode> {
    panes.map_values(|p: usize| LayoutNode::Pane(p))
}

/// The given panes side by side (or stacked), sharing `extent` cells
/// evenly.
pub open spec fn build_even_spec(panes: Seq<usize>, direction: SplitDirection, extent: nat) -> LayoutNode {
    build_sequence_spec(
        direction,
        pane_nodes(panes),
        even_spans_spec(extent, panes.len(), separator_spec(direction) as nat),
    )
}

fn build_even_layout(panes: &Vec<usize>, direction: SplitDirection, extent: usize) -> (r: LayoutNode)
    requires
        panes.len() >= 1,
        panes.len() <= usize::MAX / 8,
        extent <= u16::MAX,
    ensures
        r == build_even_spec(panes@, direction, extent as nat),
{
    let spans = even_leaf_spans(extent, panes.len(), separator_for_direction(direction));
    let mut nodes: Vec<LayoutNode> = Vec::new();
    let mut i: usize = 0;
    while i < panes.len()
        invariant
            i <= panes.len(),
            nodes@ =~= pane_nodes(panes@.take(i as int)),
        decreases panes.len() - i,
    {
        nodes.push(LayoutNode::Pane(panes[i]));
        i = i + 1;
    }
    assert(panes@.take(i as int) =~= panes@);
    build_sequence_with_leaf_spans(direction, nodes, spans)
}

/// The smallest number of columns, counting up from `c`, whose square
/// holds `count` panes.
pub open spec fn columns_from(c: nat, count: nat) -> nat
    decreases count - c,
{
    if c * c >= count || c >= count {
        c
    } else {
        columns_from(c + 1, count)
    }
}

/// The number of columns of a tiled layout of `count` panes: the smallest
/// whose square holds them all.
pub open spec fn tiled_columns_spec(count: nat) -> nat {
    columns_from(1, count)
}

fn tiled_column_count(count: usize) -> (r: usize)
    requires
        count <= usize::MAX / 8,
    ensures
        r == tiled_columns_spec(count as nat),
        r >= 1,
{
    let mut columns: usize = 1;
    loop
        invariant
            columns >= 1,
            (columns - 1) * (columns - 1) < count || columns == 1,
            count <= usize::MAX / 8,
            columns_from(columns as nat, count as nat) == columns_from(1, count as nat),
        ensures
            columns >= 1,
            columns * columns >= count,
            columns_from(columns as nat, count as nat) == columns_from(1, count as nat),
        decreases count - columns,
    {
        proof {
            assert(columns * columns <= usize::MAX) by (nonlinear_arith)
                requires
                    columns >= 1,
                    (columns - 1) * (columns - 1) < count || columns == 1,
                    count <= usize::MAX / 8,
            ;
        }
        if columns * columns >= count {
            break;
        }
        proof {
            assert(columns < count) by (nonlinear_arith)
                requires
                    columns >= 1,
                    columns * columns < count,
            ;
        }
        columns = columns + 1;
    }
    assert(columns_from(columns as nat, count as nat) == columns as nat);
    columns
}

/// The rows of a tiled layout: the panes cut into runs of `columns`, each
/// run side by side across `cols` cells.
pub open spec fn tiled_rows_spec(panes: Seq<usize>, columns: nat, cols: nat) -> Seq<LayoutNode>
    decreases panes.len(),
{
    if panes.len() == 0 || columns == 0 {
        Seq::empty()
    } else if panes.len() <= columns {
        seq![build_even_spec(panes, SplitDirection::Horizontal, cols)]
    } else {
        seq![build_even_spec(panes.take(columns as int), SplitDirection::Horizontal, cols)]
            + tiled_rows_spec(panes.skip(columns as int), columns, cols)
    }
}

/// A tiled layout: rows of at most as many panes as there are columns,
/// stacked evenly.
pub open spec fn build_tiled_spec(panes: Seq<usize>, size: PtySize) -> LayoutNode {
    if panes.len() <= 1 {
        LayoutNode::Pane(panes[0])
    } else {
        let rows = tiled_rows_spec(panes, tiled_columns_spec(panes.len()), size.cols as nat);
        build_sequence_spec(
            SplitDirection::Vertical,
            rows,
            even_spans_spec(size.rows as nat, rows.len(), VERTICAL_SEPARATOR_CELLS as nat),
        )
    }
}

fn sub_panes(v: &Vec<usize>, start: usize, end: usize) -> (r: Vec<usize>)
    requires
        start <= end <= v.len(),
    ensures
        r@ == v@.subrange(start as int, end as int),
{
    let mut out: Vec<usize> = Vec::new();
    let mut i = start;
    while i < end
        invariant
            start <= i <= end <= v.len(),
            out@ =~= v@.subrange(start as int, i as int),
        decreases end - i,
    {
        out.push(v[i]);
        i = i + 1;
    }
    out
}

proof fn lemma_tiled_rows_len(panes: Seq<usize>, columns: nat, cols: nat)
    requires
        columns >= 1,
    ensures
        tiled_rows_spec(panes, columns, cols).len() <= panes.len(),
        panes.len() >= 1 ==> tiled_rows_spec(panes, columns, cols).len() >= 1,
    decreases panes.len(),
{
    if panes.len() > columns {
        lemma_tiled_rows_len(panes.skip(columns as int), columns, cols);
    }
}

proof fn lemma_tiled_rows_step(panes: Seq<usize>, start: int, end: int, columns: nat, cols: nat)
    requires
        0 <= start < end <= panes.len(),
        columns >= 1,
        end == if panes.len() - start > columns {
            start + columns
        } else {
            panes.len() as int
        },
    ensures
        tiled_rows_spec(panes.skip(start), columns, cols) == seq![
            build_even_spec(panes.subrange(start, end), SplitDirection::Horizontal, cols),
        ] + tiled_rows_spec(panes.skip(end), columns, cols),
{
    let tail = panes.skip(start);
    if panes.len() - start > columns {
        assert(tail.take(columns as int) =~= panes.subrange(start, end));
        assert(tail.skip(columns as int) =~= panes.skip(end));
    } else {
        assert(tail =~= panes.subrange(start, end));
        assert(panes.skip(end) =~= Seq::<usize>::empty());
        assert(tiled_rows_spec(panes.skip(end), columns, cols) =~= Seq::<LayoutNode>::empty());
        let one = seq![build_even_spec(panes.subrange(start, end), SplitDirection::Horizontal, cols)];
        assert(one + Seq::<LayoutNode>::empty() =~= one);
    }
}

fn build_tiled_layout(panes: &Vec<usize>, size: PtySize) -> (r: LayoutNode)
    requires
        panes.len() >= 1,
        panes.len() <= usize::MAX / 8,
    ensures
        r == build_tiled_spec(panes@, size),
{
    if panes.len() <= 1 {
        return LayoutNode::Pane(panes[0]);
    }
    let columns = tiled_column_count(panes.len());
    let cols = size.cols as usize;
    let ghost total = tiled_rows_spec(panes@, columns as nat, cols as nat);
    let mut rows: Vec<LayoutNode> = Vec::new();
    let mut start: usize = 0;
    assert(panes@.skip(0) =~= panes@);
    assert(rows@ + total =~= total);
    while start < panes.len()
        invariant
            start <= panes.len() <= usize::MAX / 8,
            columns >= 1,
            cols <= u16::MAX,
            rows@ + tiled_rows_spec(panes@.skip(start as int), columns as nat, cols as nat) == total,
            total == tiled_rows_spec(panes@, columns as nat, cols as nat),
            rows.len() <= start,
        decreases panes.len() - start,
    {
        let rest = panes.len() - start;
        let end = if rest > columns {
            start + columns
        } else {
            panes.len()
        };
        let chunk = sub_panes(panes, start, end);
        let row = build_even_layout(&chunk, SplitDirection::Horizontal, cols);
        proof {
            lemma_tiled_rows_step(panes@, start as int, end as int, columns as nat, cols as nat);
            let later = tiled_rows_spec(panes@.skip(end as int), columns as nat, cols as nat);
            assert(rows@.push(row) + later =~= rows@ + (seq![row] + later));
        }
        rows.push(row);
        start = end;
    }
    proof {
        assert(panes@.skip(start as int) =~= Seq::<usize>::empty());
        assert(rows@ + Seq::<LayoutNode>::empty() =~= rows@);
        assert(rows@ == total);
        lemma_tiled_rows_len(panes@, columns as nat, cols as nat);
    }
    let spans = even_leaf_spans(size.rows as usize, rows.len(), VERTICAL_SEPARATOR_CELLS);
    build_sequence_with_leaf_spans(SplitDirection::Vertical, rows, spans)
}

/// Whether a pane is not `active`.
pub open spec fn other_than(active: usize) -> spec_fn(usize) -> bool {
    |p: usize| p != active
}

/// A main layout: the active pane on one side of a split in `direction`,
/// the other panes sharing the other side evenly across it.
pub open spec fn build_main_spec(
    panes: Seq<usize>,
    active: usize,
    direction: SplitDirection,
    size: PtySize,
) -> LayoutNode {
    if panes.len() <= 1 {
        LayoutNode::Pane(panes[0])
    } else {
        let secondary_direction = match direction {
            SplitDirection::Horizontal => SplitDirection::Vertical,
            SplitDirection::Vertical => SplitDirection::Horizontal,
        };
        let secondary_extent: nat = match secondary_direction {
            SplitDirection::Horizontal => size.cols as nat,
            SplitDirection::Vertical => size.rows as nat,
        };
        LayoutNode::Split {
            direction,
            first_weight: 1,
            second_weight: 1,
            first: Box::new(LayoutNode::Pane(active)),
            second: Box::new(
                build_even_spec(
                    panes.filter(other_than(active)),
                    secondary_direction,
                    secondary_extent,
                ),
            ),
        }
    }
}

fn build_main_layout(panes: &Vec<usize>, active: usize, direction: SplitDirection, size: PtySize) -> (r:
    LayoutNode)
    requires
        panes.len() >= 1,
        panes.len() <= usize::MAX / 8,
        panes.len() >= 2 ==> exists|i: int| 0 <= i < panes@.len() && panes@[i] != active,
    ensures
        r == build_main_spec(panes@, active, direction, size),
{
    if panes.len() <= 1 {
        return LayoutNode::Pane(panes[0]);
    }
    let ghost keep = other_than(active);
    let mut secondary: Vec<usize> = Vec::new();
    let mut i: usize = 0;
    while i < panes.len()
        invariant
            i <= panes.len(),
            secondary@ == panes@.take(i as int).filter(keep),
            keep == other_than(active),
        decreases panes.len() - i,
    {
        proof {
            assert(panes@.take(i + 1) =~= panes@.take(i as int).push(panes@[i as int]));
            panes@.take(i as int).lemma_filter_push(panes@[i as int], keep);
        }
        if panes[i] != active {
            secondary.push(panes[i]);
        }
        i = i + 1;
    }
    proof {
        assert(panes@.take(i as int) =~= panes@);
        let k = choose|k: int| 0 <= k < panes@.len() && panes@[k] != active;
        panes@.lemma_filter_contains(keep, k);
        panes@.lemma_filter_len(keep);
    }
    let secondary_direction = match direction {
        SplitDirection::Horizontal => SplitDirection::Vertical,
        SplitDirection::Vertical => SplitDirection::Horizontal,
    };
    let secondary_extent = match secondary_direction {
        SplitDirection::Horizontal => size.cols as usize,
        SplitDirection::Vertical => size.rows as usize,
    };
    let rest = build_even_layout(&secondary, secondary_direction, secondary_extent);
    LayoutNode::Split {
        direction,
        first_weight: 1,
        second_weight: 1,
        first: Box::new(LayoutNode::Pane(active)),
        second: Box::new(rest),
    }
}


/// The pane numbers `0..count`, in order.
pub open spec fn pane_range(count: nat) -> Seq<usize> {
    Seq::new(count, |i: int| i as usize)
}

/// The layout a preset gives `count` panes, `active` being the one in
/// focus, in a terminal of `size`.
pub open spec fn build_preset_spec(
    preset: LayoutPreset,
    count: nat,
    active: usize,
    size: PtySize,
) -> LayoutNode {
    let panes = pane_range(count);
    match preset {
        LayoutPreset::EvenHorizontal => build_even_spec(
            panes,
            SplitDirection::Horizontal,
            size.cols as nat,
        ),
        LayoutPreset::EvenVertical => build_even_spec(panes, SplitDirection::Vertical, size.rows as nat),
        LayoutPreset::Tiled => build_tiled_spec(panes, size),
        LayoutPreset::MainHorizontal => build_main_spec(panes, active, SplitDirection::Vertical, size),
        LayoutPreset::MainVertical => build_main_spec(panes, active, SplitDirection::Horizontal, size),
    }
}

fn build_preset_layout(preset: LayoutPreset, count: usize, active: usize, size: PtySize) -> (r:
    LayoutNode)
    requires
        1 <= count <= usize::MAX / 8,
        active < count,
    ensures
        r == build_preset_spec(preset, count as nat, active, size),
{
    let mut panes: Vec<usize> = Vec::new();
    let mut i: usize = 0;
    while i < count
        invariant
            i <= count,
            panes@ =~= pane_range(i as nat),
        decreases count - i,
    {
        panes.push(i);
        i = i + 1;
    }
    match preset {
        LayoutPreset::EvenHorizontal => build_even_layout(
            &panes,
            SplitDirection::Horizontal,
            size.cols as usize,
        ),
        LayoutPreset::EvenVertical => build_even_layout(
            &panes,
            SplitDirection::Vertical,
            size.rows as usize,
        ),
        LayoutPreset::Tiled => build_tiled_layout(&panes, size),
        LayoutPreset::MainHorizontal => {
            if count >= 2 {
                let other: usize = if active == 0 { 1 } else { 0 };
                assert(panes@[other as int] != active);
            }
            build_main_layout(&panes, active, SplitDirection::Vertical, size)
        },
        LayoutPreset::MainVertical => {
            if count >= 2 {
                let other: usize = if active == 0 { 1 } else { 0 };
                assert(panes@[other as int] != active);
            }
            build_main_layout(&panes, active, SplitDirection::Horizontal, size)
        },
    }
}

/// Whether `panes` numbers each of `0..count` exactly once.
pub open spec fn is_pane_permutation(panes: Seq<usize>, count: nat) -> bool {
    &&& panes.len() == count
    &&& forall|i: int| 0 <= i < panes.len() ==> panes[i] < count
    &&& forall|i: int, j: int| 0 <= i < j < panes.len() ==> panes[i] != panes[j]
}

fn regions_cover_panes(regions: &Vec<PaneRegion>, count: usize) -> (r: bool)
    ensures
        r == is_pane_permutation(region_panes(regions@), count as nat),
{
    let ghost p = region_panes(regions@);
    if regions.len() != count {
        return false;
    }
    let mut seen: Vec<bool> = vec![false; count];
    let mut i: usize = 0;
    while i < regions.len()
        invariant
            i <= regions.len() == count == seen.len(),
            p == region_panes(regions@),
            forall|k: int| 0 <= k < i ==> p[k] < count,
            forall|k: int, j: int| 0 <= k < j < i ==> p[k] != p[j],
            forall|q: int| 0 <= q < count ==> (seen@[q] <==> exists|k: int| 0 <= k < i && p[k] == q),
        decreases regions.len() - i,
    {
        let pane = regions[i].pane;
        assert(p[i as int] == pane);
        if pane >= count {
            return false;
        }
        if seen[pane] {
            let ghost k = choose|k: int| 0 <= k < i && p[k] == pane;
            assert(p[k] == p[i as int]);
            return false;
        }
        seen.set(pane, true);
        i = i + 1;
    }
    true
}

/// The layout after arranging `count` panes by a preset in a terminal of
/// `size`, or why it was refused: the focused pane must be one of them,
/// and every pane must keep at least one cell.
pub open spec fn apply_preset_spec(
    preset: LayoutPreset,
    count: usize,
    active: usize,
    size: PtySize,
) -> Result<LayoutNode, LayoutError> {
    if count == 0 || active >= count {
        Err(LayoutError::MissingPane)
    } else {
        let arranged = build_preset_spec(preset, count as nat, active, size);
        let regions = sized_regions(arranged, size);
        if is_pane_permutation(region_panes(regions), count as nat) && all_nonempty(regions) {
            Ok(arranged)
        } else {
            Err(LayoutError::TooSmall)
        }
    }
}

impl LayoutNode {
    /// Replaces the layout by a preset arrangement of `pane_count` panes;
    /// on a refusal the layout is left as it was.
    pub fn apply_preset(
        &mut self,
        preset: LayoutPreset,
        pane_count: usize,
        active_pane: usize,
        size: PtySize,
    ) -> (r: Result<(), String>)
        requires
            pane_count <= usize::MAX / 8,
        ensures
            match apply_preset_spec(preset, pane_count, active_pane, size) {
                Ok(n) => r is Ok && *final(self) == n,
                Err(e) => *final(self) == *old(self) && (r matches Err(m) && m@ == layout_error_text(e)),
            },
    {
        if pane_count == 0 {
            return Err(LayoutError::MissingPane.message());
        }
        if active_pane >= pane_count {
            return Err(LayoutError::MissingPane.message());
        }
        let arranged = build_preset_layout(preset, pane_count, active_pane, size);
        let regions = layout_regions_for_size(&arranged, size);
        if !regions_cover_panes(&regions, pane_count) || !regions_nonempty(&regions) {
            return Err(LayoutError::TooSmall.message());
        }
        *self = arranged;
        Ok(())
    }
}


/// Resizing never adds, drops or reorders panes: only split weights change.
#[verifier::rlimit(40)]
pub proof fn law_resize_keeps_panes(
    node: LayoutNode,
    target: usize,
    resize: PaneResizeDirection,
    amount: usize,
    row_start: usize,
    row_end: usize,
    col_start: usize,
    col_end: usize,
)
    ensures
        resize_spec(node, target, resize, amount, row_start, row_end, col_start, col_end) matches Ok(
            n,
        ) ==> leaves(n) == leaves(node),
    decreases node,
{
    match node {
        LayoutNode::Pane(_) => {},
        LayoutNode::Split { direction, first_weight, second_weight, first, second } => {
            let (a, b) = split_sides(
                direction,
                first_weight,
                second_weight,
                row_start,
                row_end,
                col_start,
                col_end,
            );
            if has_pane(*first, target) {
                law_resize_keeps_panes(*first, target, resize, amount, a.0, a.1, a.2, a.3);
            } else if has_pane(*second, target) {
                law_resize_keeps_panes(*second, target, resize, amount, b.0, b.1, b.2, b.3);
            }
        },
    }
}

/// The panes of a run of layouts, one after the other.
pub open spec fn leaves_of_all(nodes: Seq<LayoutNode>) -> Seq<usize>
    decreases nodes.len(),
{
    if nodes.len() == 0 {
        Seq::empty()
    } else {
        leaves_of_all(nodes.drop_last()) + leaves(nodes.last())
    }
}

proof fn lemma_leaves_of_all_concat(a: Seq<LayoutNode>, b: Seq<LayoutNode>)
    ensures
        leaves_of_all(a + b) == leaves_of_all(a) + leaves_of_all(b),
    decreases b.len(),
{
    if b.len() == 0 {
        assert(a + b =~= a);
        assert(leaves_of_all(a) + Seq::<usize>::empty() =~= leaves_of_all(a));
    } else {
        lemma_leaves_of_all_concat(a, b.drop_last());
        assert((a + b).drop_last() =~= a + b.drop_last());
        assert((a + b).last() == b.last());
        assert(leaves_of_all(a) + leaves_of_all(b.drop_last()) + leaves(b.last()) =~= leaves_of_all(a)
            + (leaves_of_all(b.drop_last()) + leaves(b.last())));
    }
}

proof fn lemma_build_sequence_leaves(
    direction: SplitDirection,
    nodes: Seq<LayoutNode>,
    spans: Seq<usize>,
)
    requires
        nodes.len() >= 1,
    ensures
        leaves(build_sequence_spec(direction, nodes, spans)) == leaves_of_all(nodes),
    decreases nodes.len(),
{
    if nodes.len() == 1 {
        assert(nodes.drop_last() =~= Seq::<LayoutNode>::empty());
        assert(leaves_of_all(Seq::<LayoutNode>::empty()) =~= Seq::<usize>::empty());
        assert(nodes.last() == nodes[0]);
        assert(Seq::<usize>::empty() + leaves(nodes[0]) =~= leaves(nodes[0]));
    } else {
        let split = nodes.len() / 2;
        lemma_build_sequence_leaves(direction, nodes.take(split as int), spans.take(split as int));
        lemma_build_sequence_leaves(direction, nodes.skip(split as int), spans.skip(split as int));
        lemma_leaves_of_all_concat(nodes.take(split as int), nodes.skip(split as int));
        assert(nodes.take(split as int) + nodes.skip(split as int) =~= nodes);
        let r = build_sequence_spec(direction, nodes, spans);
        let f = build_sequence_spec(direction, nodes.take(split as int), spans.take(split as int));
        let g = build_sequence_spec(direction, nodes.skip(split as int), spans.skip(split as int));
        assert(leaves(r) == leaves(f) + leaves(g));
    }
}

proof fn lemma_pane_nodes_leaves(panes: Seq<usize>)
    ensures
        leaves_of_all(pane_nodes(panes)) == panes,
    decreases panes.len(),
{
    if panes.len() > 0 {
        lemma_pane_nodes_leaves(panes.drop_last());
        assert(pane_nodes(panes).drop_last() =~= pane_nodes(panes.drop_last()));
        assert(leaves(pane_nodes(panes).last()) =~= seq![panes.last()]);
        assert(panes.drop_last() + seq![panes.last()] =~= panes);
    }
}

/// An even arrangement keeps its panes in the order given.
pub proof fn law_even_layout_keeps_order(panes: Seq<usize>, direction: SplitDirection, extent: nat)
    requires
        panes.len() >= 1,
    ensures
        leaves(build_even_spec(panes, direction, extent)) == panes,
{
    let spans = even_spans_spec(extent, panes.len(), separator_spec(direction) as nat);
    lemma_build_sequence_leaves(direction, pane_nodes(panes), spans);
    lemma_pane_nodes_leaves(panes);
}

proof fn lemma_tiled_rows_leaves(panes: Seq<usize>, columns: nat, cols: nat)
    requires
        columns >= 1,
    ensures
        leaves_of_all(tiled_rows_spec(panes, columns, cols)) == panes,
    decreases panes.len(),
{
    if panes.len() == 0 {
        assert(leaves_of_all(Seq::<LayoutNode>::empty()) =~= panes);
    } else if panes.len() <= columns {
        let row = build_even_spec(panes, SplitDirection::Horizontal, cols);
        law_even_layout_keeps_order(panes, SplitDirection::Horizontal, cols);
        assert(tiled_rows_spec(panes, columns, cols) == seq![row]);
        assert(seq![row].drop_last() =~= Seq::<LayoutNode>::empty());
        assert(seq![row].last() == row);
        assert(leaves_of_all(Seq::<LayoutNode>::empty()) =~= Seq::<usize>::empty());
        assert(Seq::<usize>::empty() + leaves(row) =~= leaves(row));
    } else {
        let head = panes.take(columns as int);
        let row = build_even_spec(head, SplitDirection::Horizontal, cols);
        law_even_layout_keeps_order(head, SplitDirection::Horizontal, cols);
        lemma_tiled_rows_leaves(panes.skip(columns as int), columns, cols);
        lemma_leaves_of_all_concat(seq![row], tiled_rows_spec(panes.skip(columns as int), columns, cols));
        assert(tiled_rows_spec(panes, columns, cols) == seq![row] + tiled_rows_spec(panes.skip(columns as int), columns, cols));
        assert(seq![row].drop_last() =~= Seq::<LayoutNode>::empty());
        assert(seq![row].last() == row);
        assert(leaves_of_all(Seq::<LayoutNode>::empty()) =~= Seq::<usize>::empty());
        assert(Seq::<usize>::empty() + leaves(row) =~= leaves(row));
        assert(head + panes.skip(columns as int) =~= panes);
    }
}

/// The pane order a preset gives `count` panes: in number order, except
/// that a main layout puts the focused pane first.
pub open spec fn preset_order(preset: LayoutPreset, count: nat, active: usize) -> Seq<usize> {
    match preset {
        LayoutPreset::MainHorizontal | LayoutPreset::MainVertical => if count <= 1 {
            pane_range(count)
        } else {
            seq![active] + pane_range(count).filter(other_than(active))
        },
        _ => pane_range(count),
    }
}

/// Every preset arranges exactly the panes `0..count`: in number order, or
/// with the focused pane first for a main layout.
pub proof fn law_preset_pane_order(preset: LayoutPreset, count: nat, active: usize, size: PtySize)
    requires
        count >= 1,
    ensures
        leaves(build_preset_spec(preset, count, active, size)) == preset_order(preset, count, active),
{
    let panes = pane_range(count);
    match preset {
        LayoutPreset::EvenHorizontal => {
            law_even_layout_keeps_order(panes, SplitDirection::Horizontal, size.cols as nat);
        },
        LayoutPreset::EvenVertical => {
            law_even_layout_keeps_order(panes, SplitDirection::Vertical, size.rows as nat);
        },
        LayoutPreset::Tiled => {
            if count > 1 {
                let columns = tiled_columns_spec(count);
                assert(columns >= 1) by {
                    lemma_columns_from_at_least(1, count);
                }
                let rows = tiled_rows_spec(panes, columns, size.cols as nat);
                lemma_tiled_rows_leaves(panes, columns, size.cols as nat);
                lemma_tiled_rows_len(panes, columns, size.cols as nat);
                lemma_build_sequence_leaves(
                    SplitDirection::Vertical,
                    rows,
                    even_spans_spec(size.rows as nat, rows.len(), VERTICAL_SEPARATOR_CELLS as nat),
                );
            } else {
                assert(seq![panes[0]] =~= panes);
            }
        },
        LayoutPreset::MainHorizontal | LayoutPreset::MainVertical => {
            if count > 1 {
                let secondary = panes.filter(other_than(active));
                let other: int = if active == 0 { 1 } else { 0 };
                panes.lemma_filter_contains(other_than(active), other);
                let dir = if preset == LayoutPreset::MainHorizontal {
                    SplitDirection::Horizontal
                } else {
                    SplitDirection::Vertical
                };
                law_even_layout_keeps_order(secondary, dir, size.cols as nat);
                law_even_layout_keeps_order(secondary, dir, size.rows as nat);
                assert(leaves(LayoutNode::Pane(active)) =~= seq![active]);
            } else {
                assert(seq![panes[0]] =~= panes);
            }
        },
    }
}

proof fn lemma_columns_from_at_least(c: nat, count: nat)
    ensures
        columns_from(c, count) >= c,
    decreases count - c,
{
    if !(c * c >= count || c >= count) {
        lemma_columns_from_at_least(c + 1, count);
    }
}


/// Whether `share` cells of a `content`-cell span is the first side's
/// share of a split weighted `first_weight : second_weight`: its part of
/// the weight, rounded down, kept between one cell and all but one.
pub open spec fn weighted_share(share: nat, content: nat, first_weight: nat, second_weight: nat) -> bool {
    let sum = first_weight + second_weight;
    &&& 1 <= share
    &&& share + 1 <= content
    &&& (share > 1 ==> share * sum <= content * first_weight)
    &&& (share + 1 < content ==> content * first_weight < (share + 1) * sum)
}

/// Once the separator fits, the first side of a split gets its weighted
/// share of the rest of the span, and the second side what is left after
/// the separator.
proof fn lemma_split_weighted_share(start: nat, end: nat, separator: nat, first_weight: nat, second_weight: nat, share: nat)
    requires
        start + separator + 2 <= end,
        0 < first_weight + second_weight <= usize::MAX,
        ((end - start - separator) as nat) * first_weight <= usize::MAX,
        weighted_share(share, (end - start - separator) as nat, first_weight, second_weight),
    ensures
        split_extent_spec(start, end, separator, first_weight, second_weight) == ((start, start + share), (
        start + share + separator, end)),
{
    let content: nat = (end - start - separator) as nat;
    let sum: nat = first_weight + second_weight;
    let p: nat = content * first_weight;
    assert(saturating_mul(content, first_weight) == p);
    let raw: nat = p / sum;
    assert(raw * sum <= p && p < (raw + 1) * sum) by (nonlinear_arith)
        requires
            sum > 0,
            raw == p / sum,
    ;
    if share > 1 {
        assert(share < raw + 1) by (nonlinear_arith)
            requires
                share * sum <= p,
                p < (raw + 1) * sum,
                sum > 0,
        ;
    }
    if share + 1 < content {
        assert(raw < share + 1) by (nonlinear_arith)
            requires
                raw * sum <= p,
                p < (share + 1) * sum,
                sum > 0,
        ;
    }
}

/// A split across the rows gives its first side the top rows, in
/// proportion to its own weight (at least one row, and at least one left
/// for the second side), and its second side the rows below the one-row
/// separator.
pub proof fn law_vertical_split_follows_weights(
    first_weight: usize,
    second_weight: usize,
    first: LayoutNode,
    second: LayoutNode,
    row_start: usize,
    row_end: usize,
    col_start: usize,
    col_end: usize,
    boundary: usize,
)
    requires
        row_start + VERTICAL_SEPARATOR_CELLS + 2 <= row_end,
        0 < first_weight + second_weight <= usize::MAX,
        (row_end - row_start - VERTICAL_SEPARATOR_CELLS) * first_weight <= usize::MAX,
        row_start <= boundary,
        weighted_share(
            (boundary - row_start) as nat,
            (row_end - row_start - VERTICAL_SEPARATOR_CELLS) as nat,
            first_weight as nat,
            second_weight as nat,
        ),
    ensures
        regions_spec(
            LayoutNode::Split {
                direction: SplitDirection::Vertical,
                first_weight,
                second_weight,
                first: Box::new(first),
                second: Box::new(second),
            },
            row_start,
            row_end,
            col_start,
            col_end,
        ) == regions_spec(first, row_start, boundary, col_start, col_end) + regions_spec(
            second,
            (boundary + VERTICAL_SEPARATOR_CELLS) as usize,
            row_end,
            col_start,
            col_end,
        ),
{
    lemma_split_weighted_share(
        row_start as nat,
        row_end as nat,
        VERTICAL_SEPARATOR_CELLS as nat,
        first_weight as nat,
        second_weight as nat,
        (boundary - row_start) as nat,
    );
}

/// A split across the columns gives its first side the left columns, in
/// proportion to its own weight (at least one column, and at least one
/// left for the second side), and its second side the columns right of the
/// three-column separator.
pub proof fn law_horizontal_split_follows_weights(
    first_weight: usize,
    second_weight: usize,
    first: LayoutNode,
    second: LayoutNode,
    row_start: usize,
    row_end: usize,
    col_start: usize,
    col_end: usize,
    boundary: usize,
)
    requires
        col_start + HORIZONTAL_SEPARATOR_CELLS + 2 <= col_end,
        0 < first_weight + second_weight <= usize::MAX,
        (col_end - col_start - HORIZONTAL_SEPARATOR_CELLS) * first_weight <= usize::MAX,
        col_start <= boundary,
        weighted_share(
            (boundary - col_start) as nat,
            (col_end - col_start - HORIZONTAL_SEPARATOR_CELLS) as nat,
            first_weight as nat,
            second_weight as nat,
        ),
    ensures
        regions_spec(
            LayoutNode::Split {
                direction: SplitDirection::Horizontal,
                first_weight,
                second_weight,
                first: Box::new(first),
                second: Box::new(second),
            },
            row_start,
            row_end,
            col_start,
            col_end,
        ) == regions_spec(first, row_start, row_end, col_start, boundary) + regions_spec(
            second,
            row_start,
            row_end,
            (boundary + HORIZONTAL_SEPARATOR_CELLS) as usize,
            col_end,
        ),
{
    lemma_split_weighted_share(
        col_start as nat,
        col_end as nat,
        HORIZONTAL_SEPARATOR_CELLS as nat,
        first_weight as nat,
        second_weight as nat,
        (boundary - col_start) as nat,
    );
}

} // verus!
