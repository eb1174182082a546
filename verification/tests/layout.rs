use strata::geometry::Rect;
use strata::layout::{Dwindle, HorizontalOrVertical, Ratio};

fn rect(x: i32, y: i32, w: i32, h: i32) -> Rect {
    Rect { x, y, w, h }
}

#[test]
fn insert_then_remove_returns_to_empty() {
    // Dwindle insert/remove inverse: a window inserted into the empty tree
    // and removed again leaves the tree empty.
    let tree = Dwindle::new();
    let tree = tree.insert(42, HorizontalOrVertical::Horizontal, Ratio::half());
    assert!(!tree.is_empty());
    let tree = tree.remove(42);
    assert!(tree.is_empty());
}

#[test]
fn remove_non_member_is_noop() {
    let tree = Dwindle::new().insert(1, HorizontalOrVertical::Horizontal, Ratio::half());
    let tree = tree.remove(2);
    let rects = tree.rects(rect(0, 0, 100, 100));
    assert_eq!(rects.len(), 1);
    assert_eq!(rects[0].0, 1);
}

#[test]
fn single_window_fills_bounds() {
    let tree = Dwindle::new().insert(1, HorizontalOrVertical::Horizontal, Ratio::half());
    let rects = tree.rects(rect(0, 0, 1000, 600));
    assert_eq!(rects.len(), 1);
    assert_eq!(rects[0].1, rect(0, 0, 1000, 600));
}

#[test]
fn two_windows_split_side_by_side() {
    let mut tree = Dwindle::new();
    let axis = tree.next_split();
    tree = tree.insert(1, axis, Ratio::half());
    let axis = tree.next_split();
    assert_eq!(axis, HorizontalOrVertical::Horizontal);
    tree = tree.insert(2, axis, Ratio::half());
    let rects = tree.rects(rect(0, 0, 1000, 600));
    assert_eq!(rects.len(), 2);
    assert_eq!(rects[0], (1, rect(0, 0, 500, 600)));
    assert_eq!(rects[1], (2, rect(500, 0, 500, 600)));
}

#[test]
fn three_windows_dwindle() {
    // The third window splits the most recently added window's leaf, and the
    // axis alternates: the right half is cut into top and bottom.
    let mut tree = Dwindle::new();
    let axis = tree.next_split();
    tree = tree.insert(1, axis, Ratio::half());
    let axis = tree.next_split();
    tree = tree.insert(2, axis, Ratio::half());
    let axis = tree.next_split();
    assert_eq!(axis, HorizontalOrVertical::Vertical);
    tree = tree.insert(3, axis, Ratio::half());
    let rects = tree.rects(rect(0, 0, 1000, 600));
    assert_eq!(rects.len(), 3);
    assert_eq!(rects[0], (1, rect(0, 0, 500, 600)));
    assert_eq!(rects[1], (2, rect(500, 0, 500, 300)));
    assert_eq!(rects[2], (3, rect(500, 300, 500, 300)));
}

#[test]
fn tiling_covers_exactly() {
    // Geometry tiling: the leaf rectangles' areas sum to the bounds' area,
    // and no two overlap, whatever the (odd) sizes round to.
    let mut tree = Dwindle::new();
    for id in 0..5u64 {
        let axis = tree.next_split();
        tree = tree.insert(id, axis, Ratio::half());
    }
    let bounds = rect(3, 7, 1001, 603);
    let rects = tree.rects(bounds);
    assert_eq!(rects.len(), 5);
    let total: i64 = rects.iter().map(|p| (p.1.w as i64) * (p.1.h as i64)).sum();
    assert_eq!(total, 1001i64 * 603i64);
    for (i, a) in rects.iter().enumerate() {
        // within bounds
        assert!(a.1.x >= bounds.x && a.1.y >= bounds.y);
        assert!(a.1.x + a.1.w <= bounds.x + bounds.w);
        assert!(a.1.y + a.1.h <= bounds.y + bounds.h);
        for b in rects.iter().skip(i + 1) {
            let disjoint = a.1.x + a.1.w <= b.1.x
                || b.1.x + b.1.w <= a.1.x
                || a.1.y + a.1.h <= b.1.y
                || b.1.y + b.1.h <= a.1.y;
            assert!(disjoint);
        }
    }
}

#[test]
fn uneven_ratio_rounds_down_on_the_left() {
    let tree = Dwindle::new()
        .insert(1, HorizontalOrVertical::Horizontal, Ratio::half())
        .insert(2, HorizontalOrVertical::Horizontal, Ratio { num: 333 });
    let rects = tree.rects(rect(0, 0, 100, 50));
    // 100 * 333 / 1000 = 33 (floored); the right side gets the remainder.
    assert_eq!(rects[0].1, rect(0, 0, 33, 50));
    assert_eq!(rects[1].1, rect(33, 0, 67, 50));
}

#[test]
fn removal_collapses_to_sibling() {
    let mut tree = Dwindle::new();
    tree = tree.insert(1, HorizontalOrVertical::Horizontal, Ratio::half());
    tree = tree.insert(2, HorizontalOrVertical::Horizontal, Ratio::half());
    tree = tree.remove(1);
    let rects = tree.rects(rect(0, 0, 800, 600));
    assert_eq!(rects.len(), 1);
    assert_eq!(rects[0], (2, rect(0, 0, 800, 600)));
}
