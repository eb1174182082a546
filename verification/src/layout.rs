//! The dwindle layout engine: a binary split tree over windows, and the
//! geometry recomputation that subdivides a workspace's bounding rectangle
//! among its leaves.
//!
//! Each new window splits the space of the most recently added window's leaf,
//! which is always the rightmost leaf of the tree; the split axis alternates
//! with the depth of that leaf. Removal replaces the removed leaf's parent
//! split with the sibling subtree.

use vstd::prelude::*;

use crate::geometry::Rect;

verus! {

broadcast use vstd::seq_lib::group_seq_properties;

/// The axis along which a split node divides its rectangle: `Horizontal`
/// places the children side by side, `Vertical` stacks them.
#[derive(Clone, Copy, Debug, PartialEq, Eq, Structural)]
pub enum HorizontalOrVertical {
    Horizontal,
    Vertical,
}

/// Denominator of every split ratio: ratios are counted in thousandths.
pub const RATIO_DENOM: u32 = 1000;

/// The fraction of a split node's space given to its left child, in
/// thousandths, strictly between zero and one.
#[derive(Clone, Copy, Debug, PartialEq, Eq, Structural)]
pub struct Ratio {
    pub num: u32,
}

impl Ratio {
    pub open spec fn wf(self) -> bool {
        0 < self.num < RATIO_DENOM
    }

    /// An even split.
    pub fn half() -> (r: Ratio)
        ensures
            r.wf(),
            r.num == RATIO_DENOM / 2,
    {
        Ratio { num: RATIO_DENOM / 2 }
    }
}

/// The sequence of window handles with every occurrence of `id` removed,
/// order otherwise kept. Removal contracts are stated with this function.
pub open spec fn ids_without(s: Seq<u64>, id: u64) -> Seq<u64>
    decreases s.len(),
{
    if s.len() == 0 {
        Seq::empty()
    } else if s[0] == id {
        ids_without(s.skip(1), id)
    } else {
        seq![s[0]] + ids_without(s.skip(1), id)
    }
}

pub proof fn lemma_ids_without_single(w: u64, id: u64)
    ensures
        ids_without(seq![w], id) == if w == id {
            Seq::<u64>::empty()
        } else {
            seq![w]
        },
{
    assert(seq![w].skip(1) =~= Seq::<u64>::empty());
    assert(ids_without(Seq::<u64>::empty(), id) == Seq::<u64>::empty());
    if w != id {
        assert(ids_without(seq![w], id) == seq![w] + Seq::<u64>::empty());
        assert(seq![w] + Seq::<u64>::empty() =~= seq![w]);
    }
}

pub proof fn lemma_ids_without_add(a: Seq<u64>, b: Seq<u64>, id: u64)
    ensures
        ids_without(a + b, id) == ids_without(a, id) + ids_without(b, id),
    decreases a.len(),
{
    if a.len() == 0 {
        assert(a + b =~= b);
        assert(ids_without(a, id) + ids_without(b, id) =~= ids_without(b, id));
    } else {
        assert((a + b).skip(1) =~= a.skip(1) + b);
        lemma_ids_without_add(a.skip(1), b, id);
        assert((a + b)[0] == a[0]);
        if a[0] != id {
            assert(seq![a[0]] + (ids_without(a.skip(1), id) + ids_without(b, id)) =~= (seq![a[0]]
                + ids_without(a.skip(1), id)) + ids_without(b, id));
        }
    }
}

/// Removing a handle that does not occur changes nothing.
pub proof fn lemma_ids_without_noop(s: Seq<u64>, id: u64)
    requires
        !s.contains(id),
    ensures
        ids_without(s, id) == s,
    decreases s.len(),
{
    if s.len() > 0 {
        assert(s[0] != id);
        assert(!s.skip(1).contains(id)) by {
            if s.skip(1).contains(id) {
                let i = choose|i: int| 0 <= i < s.skip(1).len() && s.skip(1)[i] == id;
                assert(s[i + 1] == id);
            }
        }
        lemma_ids_without_noop(s.skip(1), id);
        assert(seq![s[0]] + s.skip(1) =~= s);
    }
}

/// Removal never keeps the removed handle, introduces no handle, and keeps a
/// duplicate-free sequence duplicate-free.
pub proof fn lemma_ids_without_props(s: Seq<u64>, id: u64)
    ensures
        !ids_without(s, id).contains(id),
        forall|x: u64| #[trigger] ids_without(s, id).contains(x) ==> s.contains(x),
        s.no_duplicates() ==> ids_without(s, id).no_duplicates(),
        ids_without(s, id).len() <= s.len(),
    decreases s.len(),
{
    if s.len() > 0 {
        let tail = s.skip(1);
        lemma_ids_without_props(tail, id);
        assert forall|x: u64| #[trigger] ids_without(s, id).contains(x) implies s.contains(x) by {
            if s[0] == id {
                assert(tail.contains(x));
                let i = choose|i: int| 0 <= i < tail.len() && tail[i] == x;
                assert(s[i + 1] == x);
            } else {
                if x == s[0] {
                    assert(s[0] == x);
                } else {
                    let t = ids_without(tail, id);
                    let j = choose|j: int|
                        0 <= j < ids_without(s, id).len() && ids_without(s, id)[j] == x;
                    assert(t[j - 1] == x);
                    assert(t.contains(x));
                    let i = choose|i: int| 0 <= i < tail.len() && tail[i] == x;
                    assert(s[i + 1] == x);
                }
            }
        }
        if s.no_duplicates() {
            assert(tail.no_duplicates());
            if s[0] != id {
                let out = seq![s[0]] + ids_without(tail, id);
                assert(!tail.contains(s[0])) by {
                    if tail.contains(s[0]) {
                        let i = choose|i: int| 0 <= i < tail.len() && tail[i] == s[0];
                        assert(s[i + 1] == s[0]);
                    }
                }
                assert forall|i: int, j: int|
                    0 <= i < out.len() && 0 <= j < out.len() && i != j implies out[i] != out[j] by {
                    if i > 0 && j > 0 {
                    } else {
                        let k = if i > 0 {
                            i
                        } else {
                            j
                        };
                        assert(out[k] == ids_without(tail, id)[k - 1]);
                        assert(ids_without(tail, id).contains(out[k]));
                    }
                }
            }
        }
    }
}

/// The layout tree: empty, a single window leaf, or a binary split.
pub enum Dwindle {
    Empty,
    Window(u64),
    Split { split: HorizontalOrVertical, ratio: Ratio, left: Box<Dwindle>, right: Box<Dwindle> },
}

impl Dwindle {
    /// The window ids at the leaves, in left-to-right order. Windows are
    /// appended at the rightmost leaf, so this order is insertion order.
    pub open spec fn leaves(self) -> Seq<u64>
        decreases self,
    {
        match self {
            Dwindle::Empty => Seq::empty(),
            Dwindle::Window(w) => seq![w],
            Dwindle::Split { left, right, .. } => left.leaves() + right.leaves(),
        }
    }

    /// Structural invariant: `Empty` appears only as the whole tree, never
    /// under a split, and every ratio is a proper fraction.
    pub open spec fn wf(self) -> bool
        decreases self,
    {
        match self {
            Dwindle::Empty => true,
            Dwindle::Window(_) => true,
            Dwindle::Split { ratio, left, right, .. } => {
                &&& ratio.wf()
                &&& !(*left is Empty)
                &&& !(*right is Empty)
                &&& left.wf()
                &&& right.wf()
            },
        }
    }

    /// A well-formed tree that is not `Empty` has at least one leaf.
    pub proof fn lemma_nonempty_has_leaves(self)
        requires
            self.wf(),
        ensures
            (self is Empty) <==> self.leaves().len() == 0,
        decreases self,
    {
        match self {
            Dwindle::Empty => {},
            Dwindle::Window(_) => {},
            Dwindle::Split { left, right, .. } => {
                left.lemma_nonempty_has_leaves();
                right.lemma_nonempty_has_leaves();
            },
        }
    }

    /// Whether the tree is `Empty`.
    pub fn is_empty(&self) -> (r: bool)
        ensures
            r == (*self is Empty),
    {
        match self {
            Dwindle::Empty => true,
            _ => false,
        }
    }

    /// New trees start empty.
    pub fn new() -> (r: Dwindle)
        ensures
            r is Empty,
            r.wf(),
            r.leaves() == Seq::<u64>::empty(),
    {
        Dwindle::Empty
    }

    /// Depth of the rightmost leaf: the leaf the next insertion splits.
    pub open spec fn right_depth(self) -> nat
        decreases self,
    {
        match self {
            Dwindle::Split { right, .. } => 1 + right.right_depth(),
            _ => 0,
        }
    }

    /// The axis the next insertion will split along: it alternates with the
    /// depth of the rightmost leaf, starting side by side.
    pub open spec fn spec_next_split(self) -> HorizontalOrVertical {
        if self.right_depth() % 2 == 0 {
            HorizontalOrVertical::Horizontal
        } else {
            HorizontalOrVertical::Vertical
        }
    }

    /// Computes the axis for the next insertion.
    pub fn next_split(&self) -> (r: HorizontalOrVertical)
        ensures
            r == self.spec_next_split(),
        decreases *self,
    {
        match self {
            Dwindle::Split { right, .. } => {
                match right.next_split() {
                    HorizontalOrVertical::Horizontal => HorizontalOrVertical::Vertical,
                    HorizontalOrVertical::Vertical => HorizontalOrVertical::Horizontal,
                }
            },
            _ => HorizontalOrVertical::Horizontal,
        }
    }

    /// Inserts `window` by splitting the rightmost leaf: an empty tree becomes
    /// a single leaf, a leaf becomes a split whose right child is the new
    /// window, and a split recurses into its right subtree. The new window
    /// always ends up last in leaf order.
    pub fn insert(self, window: u64, axis_hint: HorizontalOrVertical, ratio: Ratio) -> (r: Dwindle)
        requires
            self.wf(),
            ratio.wf(),
        ensures
            r.wf(),
            r.leaves() == self.leaves().push(window),
        decreases self,
    {
        match self {
            Dwindle::Empty => {
                let r = Dwindle::Window(window);
                assert(r.leaves() =~= Seq::<u64>::empty().push(window));
                r
            },
            Dwindle::Window(w) => {
                let r = Dwindle::Split {
                    split: axis_hint,
                    ratio,
                    left: Box::new(Dwindle::Window(w)),
                    right: Box::new(Dwindle::Window(window)),
                };
                proof {
                    reveal_with_fuel(Dwindle::leaves, 3);
                    reveal_with_fuel(Dwindle::wf, 3);
                    assert(r.leaves() =~= seq![w].push(window));
                }
                r
            },
            Dwindle::Split { split, ratio: r0, left, right } => {
                let ghost old_left = left.leaves();
                let ghost old_right = right.leaves();
                let new_right = (*right).insert(window, axis_hint, ratio);
                proof {
                    new_right.lemma_nonempty_has_leaves();
                }
                let r = Dwindle::Split { split, ratio: r0, left, right: Box::new(new_right) };
                proof {
                    reveal_with_fuel(Dwindle::leaves, 2);
                    reveal_with_fuel(Dwindle::wf, 2);
                    assert(r.leaves() =~= (old_left + old_right).push(window));
                }
                r
            },
        }
    }

    /// Removes every leaf holding `window`, collapsing each orphaned split
    /// into the sibling subtree. Removing a window that is not in the tree is
    /// a no-op; removing the sole window yields `Empty`.
    pub fn remove(self, window: u64) -> (r: Dwindle)
        requires
            self.wf(),
        ensures
            r.wf(),
            r.leaves() == ids_without(self.leaves(), window),
        decreases self,
    {
        match self {
            Dwindle::Empty => Dwindle::Empty,
            Dwindle::Window(w) => {
                proof {
                    lemma_ids_without_single(w, window);
                }
                if w == window {
                    Dwindle::Empty
                } else {
                    Dwindle::Window(w)
                }
            },
            Dwindle::Split { split, ratio, left, right } => {
                proof {
                    lemma_ids_without_add(left.leaves(), right.leaves(), window);
                }
                let ghost old_left = left.leaves();
                let ghost old_right = right.leaves();
                let l = (*left).remove(window);
                let r = (*right).remove(window);
                proof {
                    l.lemma_nonempty_has_leaves();
                    r.lemma_nonempty_has_leaves();
                }
                if l.is_empty() {
                    proof {
                        assert(l.leaves() + r.leaves() =~= r.leaves());
                    }
                    r
                } else if r.is_empty() {
                    proof {
                        assert(l.leaves() + r.leaves() =~= l.leaves());
                    }
                    l
                } else {
                    let out = Dwindle::Split { split, ratio, left: Box::new(l), right: Box::new(r) };
                    proof {
                        reveal_with_fuel(Dwindle::leaves, 2);
                        reveal_with_fuel(Dwindle::wf, 2);
                    }
                    out
                }
            },
        }
    }
}

/// Where a split puts its boundary: of `len` units the left child receives
/// `len * num / RATIO_DENOM`, rounded down. Rounding down on the left and
/// giving the remainder to the right is the one rounding rule used
/// everywhere, so the two halves always tile the parent exactly.
pub open spec fn spec_split_point(len: int, num: int) -> int {
    len * num / (RATIO_DENOM as int)
}

pub proof fn lemma_split_point_bounds(len: int, num: int)
    by (nonlinear_arith)
    requires
        0 <= len,
        0 < num < RATIO_DENOM as int,
    ensures
        0 <= spec_split_point(len, num) <= len,
{
}

/// The two rectangles a split node hands to its children: `Horizontal` cuts
/// the width at the split point, `Vertical` the height.
pub open spec fn spec_split_rect(r: Rect, axis: HorizontalOrVertical, ratio: Ratio) -> (Rect,
    Rect) {
    match axis {
        HorizontalOrVertical::Horizontal => {
            let wl = spec_split_point(r.w as int, ratio.num as int) as i32;
            (
                Rect { x: r.x, y: r.y, w: wl, h: r.h },
                Rect { x: (r.x + wl) as i32, y: r.y, w: (r.w - wl) as i32, h: r.h },
            )
        },
        HorizontalOrVertical::Vertical => {
            let hl = spec_split_point(r.h as int, ratio.num as int) as i32;
            (
                Rect { x: r.x, y: r.y, w: r.w, h: hl },
                Rect { x: r.x, y: (r.y + hl) as i32, w: r.w, h: (r.h - hl) as i32 },
            )
        },
    }
}

/// The two halves of a split are well formed, lie within the parent, do not
/// overlap, and account for the parent's whole area.
pub proof fn lemma_split_rect_props(r: Rect, axis: HorizontalOrVertical, ratio: Ratio)
    requires
        r.wf(),
        ratio.wf(),
    ensures
        spec_split_rect(r, axis, ratio).0.wf(),
        spec_split_rect(r, axis, ratio).1.wf(),
        spec_split_rect(r, axis, ratio).0.within(r),
        spec_split_rect(r, axis, ratio).1.within(r),
        spec_split_rect(r, axis, ratio).0.disjoint(spec_split_rect(r, axis, ratio).1),
        spec_split_rect(r, axis, ratio).0.area() + spec_split_rect(r, axis, ratio).1.area()
            == r.area(),
{
    lemma_split_point_bounds(r.w as int, ratio.num as int);
    lemma_split_point_bounds(r.h as int, ratio.num as int);
    let a = spec_split_rect(r, axis, ratio).0;
    let b = spec_split_rect(r, axis, ratio).1;
    match axis {
        HorizontalOrVertical::Horizontal => {
            assert(a.w + b.w == r.w && a.h == r.h && b.h == r.h);
            vstd::arithmetic::mul::lemma_mul_is_distributive_add_other_way(
                r.h as int,
                a.w as int,
                b.w as int,
            );
            assert((a.w + b.w) * r.h == a.w * r.h + b.w * r.h);
            assert(a.area() + b.area() == r.area());
        },
        HorizontalOrVertical::Vertical => {
            assert(a.h + b.h == r.h && a.w == r.w && b.w == r.w);
            vstd::arithmetic::mul::lemma_mul_is_distributive_add(
                r.w as int,
                a.h as int,
                b.h as int,
            );
            assert(r.w * (a.h + b.h) == r.w * a.h + r.w * b.h);
            assert(a.area() + b.area() == r.area());
        },
    }
}

/// Computes `spec_split_rect` on real coordinates.
pub fn split_rect(r: Rect, axis: HorizontalOrVertical, ratio: Ratio) -> (pair: (Rect, Rect))
    requires
        r.wf(),
        ratio.wf(),
    ensures
        pair == spec_split_rect(r, axis, ratio),
{
    proof {
        lemma_split_point_bounds(r.w as int, ratio.num as int);
        lemma_split_point_bounds(r.h as int, ratio.num as int);
    }
    match axis {
        HorizontalOrVertical::Horizontal => {
            let wl = (((r.w as u64) * (ratio.num as u64)) / (RATIO_DENOM as u64)) as i32;
            (
                Rect { x: r.x, y: r.y, w: wl, h: r.h },
                Rect { x: r.x + wl, y: r.y, w: r.w - wl, h: r.h },
            )
        },
        HorizontalOrVertical::Vertical => {
            let hl = (((r.h as u64) * (ratio.num as u64)) / (RATIO_DENOM as u64)) as i32;
            (
                Rect { x: r.x, y: r.y, w: r.w, h: hl },
                Rect { x: r.x, y: r.y + hl, w: r.w, h: r.h - hl },
            )
        },
    }
}

/// The rectangle each leaf window receives when the tree subdivides `r`:
/// pairs of window id and rectangle, in leaf order.
pub open spec fn spec_layout(t: Dwindle, r: Rect) -> Seq<(u64, Rect)>
    decreases t,
{
    match t {
        Dwindle::Empty => Seq::empty(),
        Dwindle::Window(w) => seq![(w, r)],
        Dwindle::Split { split, ratio, left, right } => spec_layout(
            *left,
            spec_split_rect(r, split, ratio).0,
        ) + spec_layout(*right, spec_split_rect(r, split, ratio).1),
    }
}

/// Total area of the assigned rectangles.
pub open spec fn rects_area_sum(s: Seq<(u64, Rect)>) -> int
    decreases s.len(),
{
    if s.len() == 0 {
        0
    } else {
        s[0].1.area() + rects_area_sum(s.skip(1))
    }
}

pub proof fn lemma_area_sum_add(a: Seq<(u64, Rect)>, b: Seq<(u64, Rect)>)
    ensures
        rects_area_sum(a + b) == rects_area_sum(a) + rects_area_sum(b),
    decreases a.len(),
{
    if a.len() == 0 {
        assert(a + b =~= b);
    } else {
        assert((a + b).skip(1) =~= a.skip(1) + b);
        lemma_area_sum_add(a.skip(1), b);
    }
}

impl Dwindle {
    /// Computes the rectangle of every leaf window within `r`.
    pub fn rects(&self, r: Rect) -> (out: Vec<(u64, Rect)>)
        requires
            self.wf(),
            r.wf(),
        ensures
            out@ == spec_layout(*self, r),
        decreases *self,
    {
        match self {
            Dwindle::Empty => {
                let out: Vec<(u64, Rect)> = Vec::new();
                assert(out@ =~= spec_layout(*self, r));
                out
            },
            Dwindle::Window(w) => {
                let mut out: Vec<(u64, Rect)> = Vec::new();
                out.push((*w, r));
                assert(out@ =~= spec_layout(*self, r));
                out
            },
            Dwindle::Split { split, ratio, left, right } => {
                let (ra, rb) = split_rect(r, *split, *ratio);
                proof {
                    lemma_split_rect_props(r, *split, *ratio);
                }
                let mut out = left.rects(ra);
                let mut vb = right.rects(rb);
                out.append(&mut vb);
                out
            },
        }
    }
}

/// Geometry tiling: after subdividing a rectangle `r`, the leaf rectangles
/// are the tree's leaves in order, each lies within `r`, no two overlap, and
/// together they account for exactly the area of `r`.
pub proof fn lemma_layout_tiles(t: Dwindle, r: Rect)
    requires
        t.wf(),
        r.wf(),
    ensures
        spec_layout(t, r).map_values(|p: (u64, Rect)| p.0) == t.leaves(),
        forall|i: int|
            0 <= i < spec_layout(t, r).len() ==> (#[trigger] spec_layout(t, r)[i]).1.wf()
                && spec_layout(t, r)[i].1.within(r),
        forall|i: int, j: int|
            #![trigger spec_layout(t, r)[i], spec_layout(t, r)[j]]
            0 <= i < spec_layout(t, r).len() && 0 <= j < spec_layout(t, r).len() && i != j
                ==> spec_layout(t, r)[i].1.disjoint(spec_layout(t, r)[j].1),
        !(t is Empty) ==> rects_area_sum(spec_layout(t, r)) == r.area(),
    decreases t,
{
    match t {
        Dwindle::Empty => {
            assert(spec_layout(t, r).map_values(|p: (u64, Rect)| p.0) =~= t.leaves());
        },
        Dwindle::Window(w) => {
            assert(spec_layout(t, r).map_values(|p: (u64, Rect)| p.0) =~= t.leaves());
            assert(spec_layout(t, r).skip(1) =~= Seq::<(u64, Rect)>::empty());
            assert(rects_area_sum(Seq::<(u64, Rect)>::empty()) == 0);
            assert(rects_area_sum(spec_layout(t, r)) == r.area());
        },
        Dwindle::Split { split, ratio, left, right } => {
            let a = spec_split_rect(r, split, ratio).0;
            let b = spec_split_rect(r, split, ratio).1;
            lemma_split_rect_props(r, split, ratio);
            lemma_layout_tiles(*left, a);
            lemma_layout_tiles(*right, b);
            let sl = spec_layout(*left, a);
            let sr = spec_layout(*right, b);
            let s = spec_layout(t, r);
            assert(s == sl + sr);
            assert(s.map_values(|p: (u64, Rect)| p.0) =~= t.leaves());
            assert forall|i: int| 0 <= i < s.len() implies (#[trigger] s[i]).1.wf()
                && s[i].1.within(r) by {
                if i < sl.len() {
                    crate::geometry::lemma_within_trans(sl[i].1, a, r);
                } else {
                    crate::geometry::lemma_within_trans(sr[i - sl.len()].1, b, r);
                }
            }
            assert forall|i: int, j: int|
                #![trigger s[i], s[j]]
                0 <= i < s.len() && 0 <= j < s.len() && i != j implies s[i].1.disjoint(
                s[j].1,
            ) by {
                if i < sl.len() && j < sl.len() {
                } else if i >= sl.len() && j >= sl.len() {
                } else if i < sl.len() {
                    crate::geometry::lemma_within_disjoint(s[i].1, s[j].1, a, b);
                } else {
                    crate::geometry::lemma_within_disjoint(s[j].1, s[i].1, a, b);
                }
            }
            lemma_area_sum_add(sl, sr);
            left.lemma_nonempty_has_leaves();
            right.lemma_nonempty_has_leaves();
            assert(rects_area_sum(sl) == a.area());
            assert(rects_area_sum(sr) == b.area());
            assert(rects_area_sum(s) == r.area());
        },
    }
}

/// Insert/remove inverse: a window inserted into the empty tree and then
/// removed leaves the tree empty again. The parameters stand for the results
/// of the two calls, constrained exactly as the contracts of `insert` and
/// `remove` describe them.
pub proof fn lemma_insert_remove_empty(inserted: Dwindle, removed: Dwindle, w: u64)
    requires
        inserted.leaves() == Dwindle::Empty.leaves().push(w),
        removed.wf(),
        removed.leaves() == ids_without(inserted.leaves(), w),
    ensures
        removed is Empty,
{
    assert(inserted.leaves() =~= seq![w]);
    lemma_ids_without_single(w, w);
    assert(removed.leaves().len() == 0);
    removed.lemma_nonempty_has_leaves();
}

} // verus!
