use nullxes::workspace::{clamp_workspace_count, WindowId, WorkspaceManager};

#[test]
fn switch_and_wrap() {
    let mut m = WorkspaceManager::new(3);
    assert_eq!(m.active_index(), 0);
    assert!(m.switch_to(2));
    assert_eq!(m.active_index(), 2);
    assert!(!m.switch_next(false));
    assert!(m.switch_next(true));
    assert_eq!(m.active_index(), 0);
}

#[test]
fn move_plan_returns_indices() {
    let mut m = WorkspaceManager::new(2);
    m.set_focus(Some(WindowId(7)));
    let plan = m.plan_move_focused(1);
    assert_eq!(plan, Some((0, 1, WindowId(7))));
    m.switch_to(1);
    assert_eq!(m.focused(), Some(WindowId(7)));
}

#[test]
fn out_of_range_move_is_noop() {
    let mut m = WorkspaceManager::new(2);
    m.set_focus(Some(WindowId(1)));
    assert!(m.plan_move_focused(5).is_none());
    assert_eq!(m.focused(), Some(WindowId(1)));
}

#[test]
fn new_clamps_count() {
    assert_eq!(WorkspaceManager::new(0).count(), 1);
    assert_eq!(WorkspaceManager::new(5).count(), 5);
    assert_eq!(WorkspaceManager::new(200).count(), 9);
    assert_eq!(clamp_workspace_count(9), 9);
    assert_eq!(clamp_workspace_count(10), 9);
}

#[test]
fn switch_to_same_or_missing_fails() {
    let mut m = WorkspaceManager::new(4);
    assert!(!m.switch_to(0));
    assert!(!m.switch_to(4));
    assert_eq!(m.active_index(), 0);
}

#[test]
fn prev_wraps_to_last() {
    let mut m = WorkspaceManager::new(4);
    assert!(!m.switch_prev(false));
    assert!(m.switch_prev(true));
    assert_eq!(m.active_index(), 3);
    assert!(m.switch_prev(false));
    assert_eq!(m.active_index(), 2);
}

#[test]
fn next_then_prev_round_trip() {
    let mut m = WorkspaceManager::new(3);
    m.switch_to(2);
    m.switch_next(true);
    m.switch_prev(true);
    assert_eq!(m.active_index(), 2);
}

#[test]
fn single_workspace_never_switches() {
    let mut m = WorkspaceManager::new(1);
    assert!(!m.switch_next(true));
    assert!(!m.switch_prev(true));
    assert_eq!(m.active_index(), 0);
}

#[test]
fn focus_is_per_workspace() {
    let mut m = WorkspaceManager::new(3);
    m.set_focus(Some(WindowId(11)));
    m.switch_to(1);
    assert_eq!(m.focused(), None);
    m.set_focus(Some(WindowId(12)));
    m.switch_to(0);
    assert_eq!(m.focused(), Some(WindowId(11)));
}

#[test]
fn move_without_focus_is_noop() {
    let mut m = WorkspaceManager::new(3);
    assert_eq!(m.plan_move_focused(1), None);
    assert_eq!(m.plan_move_focused(0), None);
    m.set_focus(Some(WindowId(3)));
    assert_eq!(m.plan_move_focused(0), None);
    assert_eq!(m.plan_move_focused(2), Some((0, 2, WindowId(3))));
    assert_eq!(m.focused(), None);
}
