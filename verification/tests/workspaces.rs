use strata::geometry::Rect;
use strata::workspaces::{Output, StrataWindow, Workspace, Workspaces};

fn rect(x: i32, y: i32, w: i32, h: i32) -> Rect {
    Rect { x, y, w, h }
}

fn win(id: u64) -> StrataWindow {
    StrataWindow { id, rec: rect(0, 0, 0, 0) }
}

fn output(id: u64, g: Rect) -> Output {
    Output { id, geometry: g }
}

fn leaf_count(ws: &Workspace) -> usize {
    ws.layout_tree.rects(rect(0, 0, 1 << 20, 1 << 20)).len()
}

#[test]
fn window_list_and_leaves_stay_in_step() {
    // Leaf/list correspondence: after every add_window/remove_window call the
    // window list and the tree's leaf set are the same size.
    let mut ws = Workspace::new();
    assert_eq!(ws.windows.len(), leaf_count(&ws));
    for id in 1..=4u64 {
        ws.add_window(win(id));
        assert_eq!(ws.windows.len(), leaf_count(&ws));
    }
    ws.remove_window(2);
    assert_eq!(ws.windows.len(), leaf_count(&ws));
    ws.remove_window(99);
    assert_eq!(ws.windows.len(), leaf_count(&ws));
    ws.add_window(win(2));
    assert_eq!(ws.windows.len(), leaf_count(&ws));
    for id in [1u64, 3, 4, 2] {
        ws.remove_window(id);
        assert_eq!(ws.windows.len(), leaf_count(&ws));
    }
    assert_eq!(ws.windows.len(), 0);
    assert!(ws.layout_tree.is_empty());
}

#[test]
fn add_window_is_idempotent() {
    let mut ws = Workspace::new();
    ws.add_window(win(1));
    ws.add_window(win(2));
    ws.add_window(win(1));
    assert_eq!(ws.windows(), [2, 1]);
}

#[test]
fn remove_returns_the_window() {
    let mut ws = Workspace::new();
    ws.add_window(win(5));
    let removed = ws.remove_window(5);
    assert!(matches!(removed, Some(w) if w.id == 5));
    assert!(ws.remove_window(5).is_none());
}

#[test]
fn refresh_assigns_rectangles() {
    let mut ws = Workspace::new();
    ws.add_output(output(1, rect(0, 0, 1000, 600)));
    ws.add_window(win(1));
    ws.add_window(win(2));
    assert_eq!(ws.windows[0].rec, rect(0, 0, 500, 600));
    assert_eq!(ws.windows[1].rec, rect(500, 0, 500, 600));
}

#[test]
fn bounding_rect_is_union_of_outputs() {
    let mut ws = Workspace::new();
    ws.add_output(output(1, rect(0, 0, 800, 600)));
    ws.add_output(output(2, rect(800, 0, 800, 600)));
    ws.add_window(win(1));
    assert_eq!(ws.windows[0].rec, rect(0, 0, 1600, 600));
}

#[test]
fn output_geometry_answers_for_attached_outputs() {
    let mut ws = Workspace::new();
    ws.add_output(output(1, rect(0, 0, 800, 600)));
    assert_eq!(ws.output_geometry(1), Some(rect(0, 0, 800, 600)));
    assert_eq!(ws.output_geometry(2), None);
    ws.remove_output(1);
    assert_eq!(ws.output_geometry(1), None);
}

#[test]
fn window_under_takes_first_in_list_order() {
    let mut ws = Workspace::new();
    ws.add_output(output(1, rect(0, 0, 1000, 600)));
    ws.add_window(win(1));
    ws.add_window(win(2));
    // windows tile side by side: 1 on the left, 2 on the right
    let left = ws.window_under(10, 10).unwrap();
    assert_eq!(left.id, 1);
    let right = ws.window_under(700, 10).unwrap();
    assert_eq!(right.id, 2);
    assert!(ws.window_under(2000, 10).is_none());
    assert!(ws.contains_window(1));
    assert!(!ws.contains_window(3));
}

#[test]
fn workspace_migration() {
    // Workspace migration: with window 7 in workspace 0, moving it to
    // workspace 2 leaves workspace 0 without it and workspace 2 holding it
    // exactly once, with one tree leaf.
    let mut wss = Workspaces::new(3);
    wss.workspaces[0].add_window(win(7));
    wss.move_window_to_workspace(7, 2);
    assert!(!wss.workspaces[0].contains_window(7));
    let in_target: Vec<u64> = wss.workspaces[2].windows();
    assert_eq!(in_target, [7]);
    assert_eq!(leaf_count(&wss.workspaces[2]), 1);
    assert_eq!(wss.workspaces[1].windows.len(), 0);
}

#[test]
fn migration_of_absent_window_changes_nothing() {
    let mut wss = Workspaces::new(2);
    wss.workspaces[0].add_window(win(1));
    wss.move_window_to_workspace(9, 1);
    assert_eq!(wss.workspaces[0].windows(), [1]);
    assert_eq!(wss.workspaces[1].windows.len(), 0);
}

#[test]
fn activate_switches_current() {
    let mut wss = Workspaces::new(3);
    assert_eq!(wss.current, 0);
    wss.activate(2);
    assert_eq!(wss.current, 2);
    assert_eq!(wss.len(), 3);
}

#[test]
fn workspace_from_window_finds_holder() {
    let mut wss = Workspaces::new(3);
    wss.workspaces[1].add_window(win(4));
    assert_eq!(wss.workspace_from_window(4), Some(1));
    assert_eq!(wss.workspace_from_window(5), None);
}

#[test]
fn flattened_collections() {
    let mut wss = Workspaces::new(2);
    wss.workspaces[0].add_window(win(1));
    wss.workspaces[1].add_window(win(2));
    wss.workspaces[1].add_window(win(3));
    wss.workspaces[0].add_output(output(10, rect(0, 0, 100, 100)));
    assert_eq!(wss.all_windows(), [1, 2, 3]);
    let outs = wss.outputs();
    assert_eq!(outs.len(), 1);
    assert_eq!(outs[0].id, 10);
}

#[test]
fn largest_workspace_count() {
    let mut wss = Workspaces::new(255);
    assert_eq!(wss.len(), 255);
    wss.activate(254);
    assert_eq!(wss.current, 254);
    wss.workspaces[254].add_window(win(1));
    wss.move_window_to_workspace(1, 0);
    assert!(wss.workspaces[0].contains_window(1));
}
