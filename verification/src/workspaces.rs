//! Workspaces: each owns an ordered window list, an output list, and one
//! dwindle layout tree. The window list and the tree's leaves are kept in
//! 1:1 correspondence, in the same order, by every operation here; geometry
//! is recomputed from the union of the attached outputs after every
//! membership change.

use vstd::prelude::*;

use crate::geometry::Rect;
use crate::layout::{
    ids_without, lemma_ids_without_add, lemma_ids_without_noop, lemma_ids_without_props,
    lemma_ids_without_single, lemma_layout_tiles, rects_area_sum, spec_layout, Dwindle, Ratio,
};

verus! {

broadcast use vstd::seq_lib::group_seq_properties;

/// A window as the layout engine sees it: the platform window handle (an
/// opaque id) and the rectangle the layout last assigned to it.
#[derive(Clone, Copy, Debug, PartialEq, Eq, Structural)]
pub struct StrataWindow {
    pub id: u64,
    pub rec: Rect,
}

/// An output attached to a workspace: an opaque handle id and the output's
/// geometry in logical coordinates, as the display layer reports it.
#[derive(Clone, Copy, Debug, PartialEq, Eq, Structural)]
pub struct Output {
    pub id: u64,
    pub geometry: Rect,
}

impl Output {
    /// Outputs sit in the non-negative quadrant of the logical plane, so
    /// unions of their geometries stay representable.
    pub open spec fn wf(self) -> bool {
        &&& self.geometry.wf()
        &&& self.geometry.x >= 0
        &&& self.geometry.y >= 0
    }
}

/// The smallest rectangle containing both arguments.
pub open spec fn rect_union(a: Rect, b: Rect) -> Rect {
    let x = if a.x <= b.x {
        a.x
    } else {
        b.x
    };
    let y = if a.y <= b.y {
        a.y
    } else {
        b.y
    };
    let xe = if a.x + a.w >= b.x + b.w {
        a.x + a.w
    } else {
        b.x + b.w
    };
    let ye = if a.y + a.h >= b.y + b.h {
        a.y + a.h
    } else {
        b.y + b.h
    };
    Rect { x, y, w: (xe - x) as i32, h: (ye - y) as i32 }
}

/// The bounding rectangle of a non-empty list of outputs: the union of their
/// geometries.
pub open spec fn spec_output_union(s: Seq<Output>) -> Rect
    decreases s.len(),
{
    if s.len() <= 1 {
        if s.len() == 1 {
            s[0].geometry
        } else {
            Rect { x: 0, y: 0, w: 0, h: 0 }
        }
    } else {
        rect_union(spec_output_union(s.drop_last()), s.last().geometry)
    }
}

/// The union of well-placed outputs is itself well formed and well placed.
pub proof fn lemma_output_union_wf(s: Seq<Output>)
    requires
        s.len() >= 1,
        forall|i: int| 0 <= i < s.len() ==> (#[trigger] s[i]).wf(),
    ensures
        spec_output_union(s).wf(),
        spec_output_union(s).x >= 0,
        spec_output_union(s).y >= 0,
    decreases s.len(),
{
    if s.len() > 1 {
        lemma_output_union_wf(s.drop_last());
    }
}

/// Computes the union of the outputs' geometries.
pub fn output_union(outputs: &Vec<Output>) -> (r: Rect)
    requires
        outputs@.len() >= 1,
        forall|i: int| 0 <= i < outputs@.len() ==> (#[trigger] outputs@[i]).wf(),
    ensures
        r == spec_output_union(outputs@),
        r.wf(),
        r.x >= 0,
        r.y >= 0,
{
    proof {
        lemma_output_union_wf(outputs@);
    }
    let mut acc = outputs[0].geometry;
    let mut i: usize = 1;
    assert(outputs@.take(1) =~= seq![outputs@[0]]);
    while i < outputs.len()
        invariant
            1 <= i <= outputs@.len(),
            forall|k: int| 0 <= k < outputs@.len() ==> (#[trigger] outputs@[k]).wf(),
            acc == spec_output_union(outputs@.take(i as int)),
            acc.wf(),
            acc.x >= 0,
            acc.y >= 0,
        decreases outputs@.len() - i,
    {
        let g = outputs[i].geometry;
        let x = if acc.x <= g.x {
            acc.x
        } else {
            g.x
        };
        let y = if acc.y <= g.y {
            acc.y
        } else {
            g.y
        };
        let ae = (acc.x as i64) + (acc.w as i64);
        let ge = (g.x as i64) + (g.w as i64);
        let xe = if ae >= ge {
            ae
        } else {
            ge
        };
        let af = (acc.y as i64) + (acc.h as i64);
        let gf = (g.y as i64) + (g.h as i64);
        let ye = if af >= gf {
            af
        } else {
            gf
        };
        acc = Rect { x, y, w: (xe - (x as i64)) as i32, h: (ye - (y as i64)) as i32 };
        proof {
            assert(outputs@.take(i + 1).drop_last() =~= outputs@.take(i as int));
            assert(outputs@.take(i + 1).last() == outputs@[i as int]);
        }
        i += 1;
    }
    proof {
        assert(outputs@.take(outputs@.len() as int) =~= outputs@);
    }
    acc
}

/// A workspace: its windows in insertion order, the outputs whose union it
/// tiles, and the layout tree that places the windows.
pub struct Workspace {
    pub windows: Vec<StrataWindow>,
    pub outputs: Vec<Output>,
    pub layout_tree: Dwindle,
}

impl Workspace {
    /// The window handles in list order.
    pub open spec fn window_ids(self) -> Seq<u64> {
        self.windows@.map_values(|w: StrataWindow| w.id)
    }

    /// The workspace invariant: the tree is well formed, its leaves are
    /// exactly the window list (same handles, same order), no handle appears
    /// twice, and every attached output is well placed.
    pub open spec fn wf(self) -> bool {
        &&& self.layout_tree.wf()
        &&& self.layout_tree.leaves() == self.window_ids()
        &&& self.window_ids().no_duplicates()
        &&& forall|i: int| 0 <= i < self.outputs@.len() ==> (#[trigger] self.outputs@[i]).wf()
    }

    /// The rectangles of the last geometry refresh: whenever the workspace
    /// has an output, every window holds the rectangle the layout assigns to
    /// it within the union of the outputs.
    pub open spec fn geometry_current(self) -> bool {
        self.outputs@.len() > 0 ==> {
            let rects = spec_layout(self.layout_tree, spec_output_union(self.outputs@));
            forall|i: int|
                0 <= i < self.windows@.len() ==> (#[trigger] self.windows@[i]).rec == rects[i].1
        }
    }

    /// A fresh workspace: no windows, no outputs, an empty tree.
    pub fn new() -> (r: Workspace)
        ensures
            r.wf(),
            r.windows@.len() == 0,
            r.outputs@.len() == 0,
            r.layout_tree is Empty,
    {
        let r = Workspace { windows: Vec::new(), outputs: Vec::new(), layout_tree: Dwindle::new() };
        proof {
            assert(r.window_ids() =~= Seq::<u64>::empty());
        }
        r
    }

    /// Recomputes every window's rectangle by subdividing the union of the
    /// attached outputs along the tree. With no output attached there is
    /// nothing to tile and nothing changes.
    pub fn refresh_geometry(&mut self)
        requires
            old(self).wf(),
        ensures
            final(self).wf(),
            final(self).layout_tree == old(self).layout_tree,
            final(self).outputs == old(self).outputs,
            final(self).window_ids() == old(self).window_ids(),
            final(self).windows@.len() == old(self).windows@.len(),
            final(self).geometry_current(),
    {
        if self.outputs.len() == 0 {
            return ;
        }
        let bounds = output_union(&self.outputs);
        let rects = self.layout_tree.rects(bounds);
        proof {
            lemma_layout_tiles(self.layout_tree, bounds);
            assert(spec_layout(self.layout_tree, bounds).map_values(|p: (u64, Rect)| p.0).len()
                == rects@.len());
        }
        let ghost orig = *self;
        let n = self.windows.len();
        let mut i: usize = 0;
        while i < n
            invariant
                n == self.windows@.len(),
                0 <= i <= n,
                rects@ == spec_layout(orig.layout_tree, bounds),
                rects@.len() == n,
                self.layout_tree == orig.layout_tree,
                self.outputs == orig.outputs,
                forall|j: int|
                    0 <= j < n ==> (#[trigger] self.windows@[j]).id == orig.windows@[j].id,
                forall|j: int| 0 <= j < i ==> (#[trigger] self.windows@[j]).rec == rects@[j].1,
            decreases n - i,
        {
            let id = self.windows[i].id;
            self.windows[i] = StrataWindow { id, rec: rects[i].1 };
            i += 1;
        }
        proof {
            assert(self.window_ids() =~= orig.window_ids());
        }
    }
}

impl Workspace {
    /// Removes `window_id` from the window list and the layout tree together
    /// and refreshes geometry. Returns the removed window (with the
    /// rectangle it held when removed), or `None` when the workspace does
    /// not contain it, in which case the membership is unchanged.
    pub fn remove_window(&mut self, window_id: u64) -> (r: Option<StrataWindow>)
        requires
            old(self).wf(),
        ensures
            final(self).wf(),
            final(self).outputs == old(self).outputs,
            final(self).window_ids() == ids_without(old(self).window_ids(), window_id),
            final(self).geometry_current(),
            (r is Some) <==> old(self).window_ids().contains(window_id),
            r is Some ==> r->0.id == window_id && old(self).windows@.contains(r->0),
    {
        let ghost orig = *self;
        let mut kept: Vec<StrataWindow> = Vec::new();
        let mut removed: Option<StrataWindow> = None;
        let n = self.windows.len();
        let mut i: usize = 0;
        proof {
            assert(orig.window_ids().take(0) =~= Seq::<u64>::empty());
            assert(kept@.map_values(|w: StrataWindow| w.id) =~= Seq::<u64>::empty());
        }
        while i < n
            invariant
                n == self.windows@.len(),
                0 <= i <= n,
                *self == orig,
                kept@.map_values(|w: StrataWindow| w.id) == ids_without(
                    orig.window_ids().take(i as int),
                    window_id,
                ),
                forall|j: int| 0 <= j < kept@.len() ==> orig.windows@.contains(#[trigger] kept@[j]),
                (removed is Some) <==> exists|j: int|
                    0 <= j < i && (#[trigger] orig.window_ids()[j]) == window_id,
                removed is Some ==> removed->0.id == window_id && orig.windows@.contains(
                    removed->0,
                ),
            decreases n - i,
        {
            let w = self.windows[i];
            let ghost ids_i = orig.window_ids().take(i as int);
            let ghost ids_i1 = orig.window_ids().take(i + 1);
            proof {
                assert(ids_i1 =~= ids_i + seq![orig.window_ids()[i as int]]);
                lemma_ids_without_add(ids_i, seq![orig.window_ids()[i as int]], window_id);
                lemma_ids_without_single(orig.window_ids()[i as int], window_id);
            }
            if w.id == window_id {
                removed = Some(w);
                proof {
                    assert(orig.window_ids()[i as int] == window_id);
                    assert(ids_without(ids_i, window_id) + Seq::<u64>::empty() =~= ids_without(
                        ids_i,
                        window_id,
                    ));
                    assert(kept@.map_values(|w: StrataWindow| w.id) == ids_without(
                        ids_i1,
                        window_id,
                    ));
                }
            } else {
                kept.push(w);
                proof {
                    assert(orig.window_ids()[i as int] == w.id);
                    assert(ids_without(ids_i, window_id) + seq![w.id] =~= ids_without(
                        ids_i,
                        window_id,
                    ).push(w.id));
                    assert(kept@.map_values(|w: StrataWindow| w.id) =~= ids_without(
                        ids_i,
                        window_id,
                    ).push(w.id));
                }
            }
            i += 1;
        }
        proof {
            assert(orig.window_ids().take(n as int) =~= orig.window_ids());
            lemma_ids_without_props(orig.window_ids(), window_id);
        }
        self.windows = kept;
        let mut tree = Dwindle::new();
        core::mem::swap(&mut tree, &mut self.layout_tree);
        self.layout_tree = tree.remove(window_id);
        proof {
            if removed is Some {
                let j = choose|j: int|
                    0 <= j < n && (#[trigger] orig.window_ids()[j]) == window_id;
                assert(orig.window_ids().contains(window_id));
            }
            if orig.window_ids().contains(window_id) {
                let j = choose|j: int|
                    0 <= j < orig.window_ids().len() && orig.window_ids()[j] == window_id;
            }
        }
        self.refresh_geometry();
        removed
    }

    /// Adds a window: if the workspace already holds a window with the same
    /// handle it is removed first, so handles never appear twice; the window
    /// is then appended to the list and inserted into the tree at the
    /// rightmost leaf with an even split, and geometry is refreshed.
    pub fn add_window(&mut self, window: StrataWindow)
        requires
            old(self).wf(),
        ensures
            final(self).wf(),
            final(self).outputs == old(self).outputs,
            final(self).window_ids() == ids_without(old(self).window_ids(), window.id).push(
                window.id,
            ),
            final(self).geometry_current(),
    {
        let _ = self.remove_window(window.id);
        let ghost mid = *self;
        self.windows.push(window);
        let axis = self.layout_tree.next_split();
        let mut tree = Dwindle::new();
        core::mem::swap(&mut tree, &mut self.layout_tree);
        self.layout_tree = tree.insert(window.id, axis, Ratio::half());
        proof {
            assert(self.window_ids() =~= mid.window_ids().push(window.id));
            assert(self.window_ids().no_duplicates()) by {
                lemma_ids_without_props(old(self).window_ids(), window.id);
                assert(forall|j: int|
                    0 <= j < mid.window_ids().len() ==> (#[trigger] mid.window_ids()[j])
                        != window.id) by {
                    assert(!ids_without(old(self).window_ids(), window.id).contains(window.id));
                }
            }
        }
        self.refresh_geometry();
    }

    /// Whether a window with this handle is in the workspace.
    pub fn contains_window(&self, window_id: u64) -> (r: bool)
        ensures
            r == self.window_ids().contains(window_id),
    {
        let n = self.windows.len();
        let mut i: usize = 0;
        while i < n
            invariant
                n == self.windows@.len(),
                0 <= i <= n,
                forall|j: int| 0 <= j < i ==> (#[trigger] self.window_ids()[j]) != window_id,
            decreases n - i,
        {
            if self.windows[i].id == window_id {
                assert(self.window_ids()[i as int] == window_id);
                return true;
            }
            i += 1;
        }
        false
    }

    /// Hit-tests the point against each window's rectangle in list order and
    /// returns the first hit: the window and the location it is drawn at.
    pub fn window_under(&self, px: i32, py: i32) -> (r: Option<StrataWindow>)
        ensures
            match r {
                Some(w) => exists|i: int|
                    {
                        &&& 0 <= i < self.windows@.len()
                        &&& (#[trigger] self.windows@[i]) == w
                        &&& w.rec.spec_contains(px as int, py as int)
                        &&& forall|j: int|
                            0 <= j < i ==> !(#[trigger] self.windows@[j]).rec.spec_contains(
                                px as int,
                                py as int,
                            )
                    },
                None => forall|i: int|
                    0 <= i < self.windows@.len() ==> !(#[trigger] self.windows@[i]).rec.spec_contains(
                        px as int,
                        py as int,
                    ),
            },
    {
        let n = self.windows.len();
        let mut i: usize = 0;
        while i < n
            invariant
                n == self.windows@.len(),
                0 <= i <= n,
                forall|j: int|
                    0 <= j < i ==> !(#[trigger] self.windows@[j]).rec.spec_contains(
                        px as int,
                        py as int,
                    ),
            decreases n - i,
        {
            let w = self.windows[i];
            if w.rec.contains(px, py) {
                return Some(w);
            }
            i += 1;
        }
        None
    }

    /// Attaches an output. Does not retile by itself; the driver refreshes
    /// geometry when an output arrives.
    pub fn add_output(&mut self, output: Output)
        requires
            old(self).wf(),
            output.wf(),
        ensures
            final(self).wf(),
            final(self).outputs@ == old(self).outputs@.push(output),
            final(self).windows == old(self).windows,
            final(self).layout_tree == old(self).layout_tree,
    {
        self.outputs.push(output);
    }

    /// Detaches every output with this handle.
    pub fn remove_output(&mut self, output_id: u64)
        requires
            old(self).wf(),
        ensures
            final(self).wf(),
            final(self).outputs@ == old(self).outputs@.filter(|o: Output| o.id != output_id),
            final(self).windows == old(self).windows,
            final(self).layout_tree == old(self).layout_tree,
    {
        broadcast use vstd::seq_lib::group_filter_ensures;

        let ghost orig = *self;
        let ghost po = |o: Output| o.id != output_id;
        let mut kept: Vec<Output> = Vec::new();
        let n = self.outputs.len();
        let mut i: usize = 0;
        proof {
            assert(orig.outputs@.take(0).filter(po) =~= Seq::<Output>::empty());
        }
        while i < n
            invariant
                n == self.outputs@.len(),
                0 <= i <= n,
                *self == orig,
                po == (|o: Output| o.id != output_id),
                kept@ == orig.outputs@.take(i as int).filter(po),
                forall|k: int| 0 <= k < orig.outputs@.len() ==> (#[trigger] orig.outputs@[k]).wf(),
                forall|j: int| 0 <= j < kept@.len() ==> (#[trigger] kept@[j]).wf(),
            decreases n - i,
        {
            let o = self.outputs[i];
            proof {
                assert(orig.outputs@.take(i + 1) =~= orig.outputs@.take(i as int) + seq![
                    orig.outputs@[i as int],
                ]);
                Seq::filter_distributes_over_add(
                    orig.outputs@.take(i as int),
                    seq![orig.outputs@[i as int]],
                    po,
                );
                reveal(Seq::filter);
                assert(seq![orig.outputs@[i as int]].drop_last() =~= Seq::<Output>::empty());
            }
            if o.id != output_id {
                kept.push(o);
            }
            i += 1;
        }
        proof {
            assert(orig.outputs@.take(n as int) =~= orig.outputs@);
        }
        self.outputs = kept;
    }

    /// The geometry of the output with this handle, if it is attached.
    pub fn output_geometry(&self, output_id: u64) -> (r: Option<Rect>)
        ensures
            match r {
                Some(g) => exists|i: int|
                    0 <= i < self.outputs@.len() && (#[trigger] self.outputs@[i]).id == output_id
                        && self.outputs@[i].geometry == g,
                None => forall|i: int|
                    0 <= i < self.outputs@.len() ==> (#[trigger] self.outputs@[i]).id != output_id,
            },
    {
        let n = self.outputs.len();
        let mut i: usize = 0;
        while i < n
            invariant
                n == self.outputs@.len(),
                0 <= i <= n,
                forall|j: int| 0 <= j < i ==> (#[trigger] self.outputs@[j]).id != output_id,
            decreases n - i,
        {
            if self.outputs[i].id == output_id {
                return Some(self.outputs[i].geometry);
            }
            i += 1;
        }
        None
    }
}

/// Leaf/list correspondence: a well-formed workspace always has exactly as
/// many windows in its list as its tree has leaves — the two are the same
/// sequence of handles — and `add_window` / `remove_window` keep it so.
pub proof fn lemma_leaf_list_correspondence(w: Workspace)
    requires
        w.wf(),
    ensures
        w.windows@.len() == w.layout_tree.leaves().len(),
        w.layout_tree.leaves() == w.window_ids(),
{
    assert(w.window_ids().len() == w.windows@.len());
}

/// The ordered collection of workspaces plus the index of the active one.
pub struct Workspaces {
    pub workspaces: Vec<Workspace>,
    pub current: u8,
}

impl Workspaces {
    /// At least one workspace, no more than a `u8` can index, the active
    /// index in range, and every workspace well formed.
    pub open spec fn wf(self) -> bool {
        &&& 1 <= self.workspaces@.len() <= 255
        &&& (self.current as int) < self.workspaces@.len()
        &&& forall|i: int| 0 <= i < self.workspaces@.len() ==> (#[trigger] self.workspaces@[i]).wf()
    }

    /// Creates `workspaceamount` empty workspaces with the first active.
    pub fn new(workspaceamount: u8) -> (r: Workspaces)
        requires
            workspaceamount >= 1,
        ensures
            r.wf(),
            r.workspaces@.len() == workspaceamount,
            r.current == 0,
            forall|i: int|
                0 <= i < r.workspaces@.len() ==> (#[trigger] r.workspaces@[i]).windows@.len() == 0
                    && r.workspaces@[i].outputs@.len() == 0,
    {
        let mut workspaces: Vec<Workspace> = Vec::new();
        let mut i: u8 = 0;
        while i < workspaceamount
            invariant
                0 <= i <= workspaceamount,
                workspaces@.len() == i,
                forall|j: int|
                    0 <= j < workspaces@.len() ==> (#[trigger] workspaces@[j]).wf()
                        && workspaces@[j].windows@.len() == 0 && workspaces@[j].outputs@.len()
                        == 0,
            decreases workspaceamount - i,
        {
            workspaces.push(Workspace::new());
            i += 1;
        }
        Workspaces { workspaces, current: 0 }
    }

    /// How many workspaces there are.
    pub fn len(&self) -> (r: usize)
        ensures
            r == self.workspaces@.len(),
    {
        self.workspaces.len()
    }

    /// The active workspace.
    pub fn current(&self) -> (r: &Workspace)
        requires
            self.wf(),
        ensures
            *r == self.workspaces@[self.current as int],
    {
        &self.workspaces[self.current as usize]
    }

    /// The active workspace, for mutation in place.
    pub fn current_mut(&mut self) -> (r: &mut Workspace)
        requires
            old(self).wf(),
        ensures
            *r == old(self).workspaces@[old(self).current as int],
            final(self).current == old(self).current,
            final(self).workspaces@ == old(self).workspaces@.update(
                old(self).current as int,
                *final(r),
            ),
    {
        let c = self.current as usize;
        &mut self.workspaces[c]
    }

    /// Switches the active workspace. Activation is a pure index change: no
    /// window list, tree or focus is touched here.
    pub fn activate(&mut self, id: u8)
        requires
            old(self).wf(),
            (id as int) < old(self).workspaces@.len(),
        ensures
            final(self).wf(),
            final(self).current == id,
            final(self).workspaces == old(self).workspaces,
    {
        self.current = id;
    }

    /// The first workspace holding this window, scanned in order.
    pub fn workspace_from_window(&self, window_id: u64) -> (r: Option<u8>)
        requires
            self.wf(),
        ensures
            match r {
                Some(i) => {
                    &&& (i as int) < self.workspaces@.len()
                    &&& self.workspaces@[i as int].window_ids().contains(window_id)
                    &&& forall|j: int|
                        0 <= j < i ==> !(#[trigger] self.workspaces@[j]).window_ids().contains(
                            window_id,
                        )
                },
                None => forall|j: int|
                    0 <= j < self.workspaces@.len() ==> !(
                    #[trigger] self.workspaces@[j]).window_ids().contains(window_id),
            },
    {
        let n = self.workspaces.len();
        let mut i: usize = 0;
        while i < n
            invariant
                n == self.workspaces@.len() <= 255,
                0 <= i <= n,
                forall|j: int|
                    0 <= j < i ==> !(#[trigger] self.workspaces@[j]).window_ids().contains(
                        window_id,
                    ),
            decreases n - i,
        {
            if self.workspaces[i].contains_window(window_id) {
                return Some(i as u8);
            }
            i += 1;
        }
        None
    }

    /// Moves a window to the given workspace: it is removed from the first
    /// workspace that holds it and re-inserted into the target, each half
    /// refreshing that workspace's geometry. When no workspace holds the
    /// window nothing changes at all.
    pub fn move_window_to_workspace(&mut self, window_id: u64, workspace: u8)
        requires
            old(self).wf(),
            (workspace as int) < old(self).workspaces@.len(),
        ensures
            final(self).wf(),
            final(self).current == old(self).current,
            final(self).workspaces@.len() == old(self).workspaces@.len(),
            (forall|j: int|
                0 <= j < old(self).workspaces@.len() ==> !(
                #[trigger] old(self).workspaces@[j]).window_ids().contains(window_id))
                ==> final(self).workspaces == old(self).workspaces,
            (exists|j: int|
                0 <= j < old(self).workspaces@.len() && (
                #[trigger] old(self).workspaces@[j]).window_ids().contains(window_id))
                ==> spec_migrated(
                old(self).workspaces@,
                final(self).workspaces@,
                window_id,
                workspace as int,
            ),
    {
        let ghost oldws = self.workspaces@;
        let src_opt = self.workspace_from_window(window_id);
        if let Some(src) = src_opt {
            let s = src as usize;
            let removed = self.workspaces[s].remove_window(window_id);
            if let Some(w) = removed {
                let t = workspace as usize;
                self.workspaces[t].add_window(w);
            }
            proof {
                assert(is_first_holder(oldws, window_id, src as int));
                lemma_ids_without_props(oldws[src as int].window_ids(), window_id);
                lemma_ids_without_noop(
                    ids_without(oldws[src as int].window_ids(), window_id),
                    window_id,
                );
                assert(spec_window_moved(
                    oldws,
                    self.workspaces@,
                    window_id,
                    workspace as int,
                    src as int,
                ));
                assert(spec_migrated(oldws, self.workspaces@, window_id, workspace as int));
            }
        }
    }
}

/// The window was migrated: for the first workspace in order that held it,
/// `spec_window_moved` relates the old and new collections.
pub open spec fn spec_migrated(
    oldws: Seq<Workspace>,
    newws: Seq<Workspace>,
    window_id: u64,
    target: int,
) -> bool {
    exists|src: int|
        #[trigger] is_first_holder(oldws, window_id, src) && spec_window_moved(
            oldws,
            newws,
            window_id,
            target,
            src,
        )
}

/// `src` is the first workspace in order that holds the window.
pub open spec fn is_first_holder(ws: Seq<Workspace>, window_id: u64, src: int) -> bool {
    &&& 0 <= src < ws.len()
    &&& ws[src].window_ids().contains(window_id)
    &&& forall|j: int| 0 <= j < src ==> !(#[trigger] ws[j]).window_ids().contains(window_id)
}

/// What moving a window from `src` to `target` does to the collection:
/// every other workspace is untouched, the source loses the window, and the
/// target gains it at the end of its list, exactly once.
pub open spec fn spec_window_moved(
    oldws: Seq<Workspace>,
    newws: Seq<Workspace>,
    window_id: u64,
    target: int,
    src: int,
) -> bool {
    &&& forall|k: int|
        0 <= k < newws.len() && k != src && k != target ==> (#[trigger] newws[k]) == oldws[k]
    &&& newws[target].window_ids() == (
    if src == target {
        ids_without(oldws[src].window_ids(), window_id)
    } else {
        ids_without(oldws[target].window_ids(), window_id)
    }).push(window_id)
    &&& (src != target ==> newws[src].window_ids() == ids_without(
        oldws[src].window_ids(),
        window_id,
    ))
}

impl Workspace {
    /// The platform handles of the windows, in list order.
    pub fn windows(&self) -> (r: Vec<u64>)
        ensures
            r@ == self.window_ids(),
    {
        let mut r: Vec<u64> = Vec::new();
        let n = self.windows.len();
        let mut i: usize = 0;
        while i < n
            invariant
                n == self.windows@.len(),
                0 <= i <= n,
                r@ == self.window_ids().take(i as int),
            decreases n - i,
        {
            r.push(self.windows[i].id);
            proof {
                assert(self.window_ids().take(i + 1) =~= self.window_ids().take(i as int).push(
                    self.windows@[i as int].id,
                ));
            }
            i += 1;
        }
        proof {
            assert(self.window_ids().take(n as int) =~= self.window_ids());
        }
        r
    }

    /// The windows with the rectangles the layout assigned to them.
    pub fn strata_windows(&self) -> (r: &Vec<StrataWindow>)
        ensures
            r@ == self.windows@,
    {
        &self.windows
    }

    /// The outputs attached to this workspace.
    pub fn outputs(&self) -> (r: &Vec<Output>)
        ensures
            r@ == self.outputs@,
    {
        &self.outputs
    }
}

/// All outputs attached to the given workspaces, in workspace order and then
/// attachment order.
pub open spec fn all_outputs_of(ws: Seq<Workspace>) -> Seq<Output>
    decreases ws.len(),
{
    if ws.len() == 0 {
        Seq::empty()
    } else {
        all_outputs_of(ws.drop_last()) + ws.last().outputs@
    }
}

/// All window handles in the given workspaces, in workspace order and then
/// list order.
pub open spec fn all_window_ids_of(ws: Seq<Workspace>) -> Seq<u64>
    decreases ws.len(),
{
    if ws.len() == 0 {
        Seq::empty()
    } else {
        all_window_ids_of(ws.drop_last()) + ws.last().window_ids()
    }
}

impl Workspaces {
    /// Every output attached to any workspace.
    pub fn outputs(&self) -> (r: Vec<Output>)
        ensures
            r@ == all_outputs_of(self.workspaces@),
    {
        let mut r: Vec<Output> = Vec::new();
        let n = self.workspaces.len();
        let mut i: usize = 0;
        proof {
            assert(self.workspaces@.take(0) =~= Seq::<Workspace>::empty());
        }
        while i < n
            invariant
                n == self.workspaces@.len(),
                0 <= i <= n,
                r@ == all_outputs_of(self.workspaces@.take(i as int)),
            decreases n - i,
        {
            let m = self.workspaces[i].outputs.len();
            let mut j: usize = 0;
            while j < m
                invariant
                    n == self.workspaces@.len(),
                    0 <= i < n,
                    m == self.workspaces@[i as int].outputs@.len(),
                    0 <= j <= m,
                    r@ == all_outputs_of(self.workspaces@.take(i as int))
                        + self.workspaces@[i as int].outputs@.take(j as int),
                decreases m - j,
            {
                r.push(self.workspaces[i].outputs[j]);
                proof {
                    assert(self.workspaces@[i as int].outputs@.take(j + 1)
                        =~= self.workspaces@[i as int].outputs@.take(j as int).push(
                        self.workspaces@[i as int].outputs@[j as int],
                    ));
                    assert(all_outputs_of(self.workspaces@.take(i as int))
                        + self.workspaces@[i as int].outputs@.take(j as int).push(
                        self.workspaces@[i as int].outputs@[j as int],
                    ) =~= (all_outputs_of(self.workspaces@.take(i as int))
                        + self.workspaces@[i as int].outputs@.take(j as int)).push(
                        self.workspaces@[i as int].outputs@[j as int],
                    ));
                }
                j += 1;
            }
            proof {
                assert(self.workspaces@.take(i + 1).drop_last() =~= self.workspaces@.take(
                    i as int,
                ));
                assert(self.workspaces@.take(i + 1).last() == self.workspaces@[i as int]);
                assert(self.workspaces@[i as int].outputs@.take(m as int)
                    =~= self.workspaces@[i as int].outputs@);
            }
            i += 1;
        }
        proof {
            assert(self.workspaces@.take(n as int) =~= self.workspaces@);
        }
        r
    }

    /// Every window handle in any workspace.
    pub fn all_windows(&self) -> (r: Vec<u64>)
        ensures
            r@ == all_window_ids_of(self.workspaces@),
    {
        let mut r: Vec<u64> = Vec::new();
        let n = self.workspaces.len();
        let mut i: usize = 0;
        proof {
            assert(self.workspaces@.take(0) =~= Seq::<Workspace>::empty());
        }
        while i < n
            invariant
                n == self.workspaces@.len(),
                0 <= i <= n,
                r@ == all_window_ids_of(self.workspaces@.take(i as int)),
            decreases n - i,
        {
            let m = self.workspaces[i].windows.len();
            let mut j: usize = 0;
            while j < m
                invariant
                    n == self.workspaces@.len(),
                    0 <= i < n,
                    m == self.workspaces@[i as int].windows@.len(),
                    0 <= j <= m,
                    r@ == all_window_ids_of(self.workspaces@.take(i as int))
                        + self.workspaces@[i as int].window_ids().take(j as int),
                decreases m - j,
            {
                r.push(self.workspaces[i].windows[j].id);
                proof {
                    assert(self.workspaces@[i as int].window_ids().take(j + 1)
                        =~= self.workspaces@[i as int].window_ids().take(j as int).push(
                        self.workspaces@[i as int].window_ids()[j as int],
                    ));
                    assert(all_window_ids_of(self.workspaces@.take(i as int))
                        + self.workspaces@[i as int].window_ids().take(j as int).push(
                        self.workspaces@[i as int].window_ids()[j as int],
                    ) =~= (all_window_ids_of(self.workspaces@.take(i as int))
                        + self.workspaces@[i as int].window_ids().take(j as int)).push(
                        self.workspaces@[i as int].window_ids()[j as int],
                    ));
                }
                j += 1;
            }
            proof {
                assert(self.workspaces@.take(i + 1).drop_last() =~= self.workspaces@.take(
                    i as int,
                ));
                assert(self.workspaces@.take(i + 1).last() == self.workspaces@[i as int]);
                assert(self.workspaces@[i as int].window_ids().take(m as int)
                    =~= self.workspaces@[i as int].window_ids());
            }
            i += 1;
        }
        proof {
            assert(self.workspaces@.take(n as int) =~= self.workspaces@);
        }
        r
    }
}

/// Total area of the windows' assigned rectangles.
pub open spec fn windows_area_sum(s: Seq<StrataWindow>) -> int
    decreases s.len(),
{
    if s.len() == 0 {
        0
    } else {
        s[0].rec.area() + windows_area_sum(s.skip(1))
    }
}

proof fn lemma_windows_area_matches(ws: Seq<StrataWindow>, rs: Seq<(u64, Rect)>)
    requires
        ws.len() == rs.len(),
        forall|i: int| 0 <= i < ws.len() ==> (#[trigger] ws[i]).rec == rs[i].1,
    ensures
        windows_area_sum(ws) == rects_area_sum(rs),
    decreases ws.len(),
{
    if ws.len() > 0 {
        assert(forall|i: int|
            0 <= i < ws.skip(1).len() ==> (#[trigger] ws.skip(1)[i]).rec == rs.skip(1)[i].1);
        lemma_windows_area_matches(ws.skip(1), rs.skip(1));
    }
}

/// Geometry tiling at the workspace: whenever geometry is current (as every
/// membership operation leaves it) and an output is attached, the windows'
/// rectangles lie within the union of the outputs, no two overlap, and with
/// at least one window they account for the union's whole area.
pub proof fn lemma_workspace_tiling(ws: Workspace)
    requires
        ws.wf(),
        ws.geometry_current(),
        ws.outputs@.len() > 0,
    ensures
        forall|i: int|
            0 <= i < ws.windows@.len() ==> (#[trigger] ws.windows@[i]).rec.wf()
                && ws.windows@[i].rec.within(spec_output_union(ws.outputs@)),
        forall|i: int, j: int|
            #![trigger ws.windows@[i], ws.windows@[j]]
            0 <= i < ws.windows@.len() && 0 <= j < ws.windows@.len() && i != j
                ==> ws.windows@[i].rec.disjoint(ws.windows@[j].rec),
        ws.windows@.len() > 0 ==> windows_area_sum(ws.windows@) == spec_output_union(
            ws.outputs@,
        ).area(),
{
    let bounds = spec_output_union(ws.outputs@);
    lemma_output_union_wf(ws.outputs@);
    lemma_layout_tiles(ws.layout_tree, bounds);
    let rs = spec_layout(ws.layout_tree, bounds);
    assert(rs.map_values(|p: (u64, Rect)| p.0).len() == rs.len());
    assert(ws.windows@.len() == rs.len());
    if ws.windows@.len() > 0 {
        ws.layout_tree.lemma_nonempty_has_leaves();
        lemma_windows_area_matches(ws.windows@, rs);
    }
}

} // verus!
