use nullxes::config::{IdleConfig, KeybindingConfig};
use nullxes::frame::{
    composition_order, configure_geometry, detect_backend, filter_key, first_connected, is_known_backend,
    panel_location, pointer_allowed, select_backend, toplevel_location, window_destroyed, Rect, RenderLayer,
    BackendKind, SessionLock, XwmState,
};
use nullxes::idle::{IdleActions, IdleTracker};
use nullxes::keybind::{handle_keybind, KeyEffect, KEY_1, KEY_LEFT, KEY_RETURN, KEY_RIGHT, KEY_SUPER_L};
use nullxes::workspace::{active_mut_slot, active_slot, occupied_slots, WindowId, WorkspaceManager};

fn idle_cfg(dim: u64, lock: u64, suspend: u64) -> IdleConfig {
    IdleConfig { dim_ms: dim, lock_ms: lock, suspend_ms: suspend }
}

#[test]
fn idle_dims_and_locks_once_and_suspends_every_tick() {
    let mut t = IdleTracker::new(idle_cfg(100, 200, 300), 1000);
    assert_eq!(t.tick(1050), IdleActions { dim: false, lock: false, suspend: false });
    assert_eq!(t.tick(1100), IdleActions { dim: true, lock: false, suspend: false });
    assert_eq!(t.tick(1150), IdleActions { dim: false, lock: false, suspend: false });
    assert_eq!(t.tick(1200), IdleActions { dim: false, lock: true, suspend: false });
    assert_eq!(t.tick(1300), IdleActions { dim: false, lock: false, suspend: true });
    assert_eq!(t.tick(1400), IdleActions { dim: false, lock: false, suspend: true });
    t.touch(1400);
    assert_eq!(t.tick(1450), IdleActions::default());
    assert_eq!(t.tick(1500), IdleActions { dim: true, lock: false, suspend: false });
}

#[test]
fn idle_zero_threshold_disables() {
    let mut t = IdleTracker::new(idle_cfg(0, 0, 0), 0);
    assert_eq!(t.tick(u64::MAX), IdleActions::default());
    t.update_config(idle_cfg(10, 0, 0));
    assert_eq!(t.tick(10), IdleActions { dim: true, lock: false, suspend: false });
    // A clock that reads earlier than the last activity counts as no time.
    let mut early = IdleTracker::new(idle_cfg(1, 1, 1), 500);
    assert_eq!(early.tick(100), IdleActions::default());
}

#[test]
fn super_digits_switch_and_shift_moves() {
    let keys = KeybindingConfig::default();
    let mut m = WorkspaceManager::new(3);
    assert!(matches!(handle_keybind(&mut m, true, false, KEY_1 + 2, false, &keys), KeyEffect::Handled));
    assert_eq!(m.active_index(), 2);
    m.set_focus(Some(WindowId(9)));
    match handle_keybind(&mut m, true, true, KEY_1, false, &keys) {
        KeyEffect::MoveWindow { src, target, window } => {
            assert_eq!((src, target, window), (2, 0, WindowId(9)));
        }
        _ => panic!("expected a move"),
    }
    assert_eq!(m.focused(), None);
    // Workspace 9 does not exist with three workspaces.
    assert!(matches!(handle_keybind(&mut m, true, false, KEY_1 + 8, false, &keys), KeyEffect::Handled));
    assert_eq!(m.active_index(), 2);
}

#[test]
fn arrows_spawns_and_forwarding() {
    let keys = KeybindingConfig::default();
    let mut m = WorkspaceManager::new(2);
    handle_keybind(&mut m, true, false, KEY_RIGHT, false, &keys);
    assert_eq!(m.active_index(), 1);
    handle_keybind(&mut m, true, false, KEY_RIGHT, true, &keys);
    assert_eq!(m.active_index(), 0);
    handle_keybind(&mut m, true, false, KEY_LEFT, false, &keys);
    assert_eq!(m.active_index(), 0);
    match handle_keybind(&mut m, true, false, KEY_RETURN, false, &keys) {
        KeyEffect::Spawn(b) => assert_eq!(b, "nullxes-slate"),
        _ => panic!("expected a spawn"),
    }
    match handle_keybind(&mut m, true, false, KEY_SUPER_L, false, &keys) {
        KeyEffect::Spawn(b) => assert_eq!(b, "nullxes-launcher"),
        _ => panic!("expected a spawn"),
    }
    match handle_keybind(&mut m, true, false, 0x6c, false, &keys) {
        KeyEffect::Spawn(b) => assert_eq!(b, "nullxes-lock"),
        _ => panic!("expected a spawn"),
    }
    assert!(matches!(handle_keybind(&mut m, false, false, KEY_1, false, &keys), KeyEffect::Forward));
    assert!(matches!(handle_keybind(&mut m, true, false, 0x61, false, &keys), KeyEffect::Forward));
}

#[test]
fn super_q_closes_focused_window() {
    let keys = KeybindingConfig::default();
    let mut m = WorkspaceManager::new(2);
    assert!(matches!(handle_keybind(&mut m, true, false, 0x71, false, &keys), KeyEffect::Handled));
    m.set_focus(Some(WindowId(4)));
    match handle_keybind(&mut m, true, false, 0x51, false, &keys) {
        KeyEffect::CloseWindow { workspace, window } => assert_eq!((workspace, window), (0, WindowId(4))),
        _ => panic!("expected a close"),
    }
}

#[test]
fn locked_session_forwards_every_key() {
    let keys = KeybindingConfig::default();
    let mut m = WorkspaceManager::new(3);
    assert!(matches!(filter_key(&mut m, true, false, true, false, KEY_1 + 1, false, &keys), KeyEffect::Forward));
    assert!(matches!(filter_key(&mut m, false, true, true, false, KEY_1 + 1, false, &keys), KeyEffect::Forward));
    assert_eq!(m.active_index(), 0);
    filter_key(&mut m, false, false, true, false, KEY_1 + 1, false, &keys);
    assert_eq!(m.active_index(), 1);
    assert!(!pointer_allowed(true));
    assert!(pointer_allowed(false));
}

#[test]
fn backend_selection() {
    assert_eq!(select_backend(Some("drm"), true, true), BackendKind::Drm);
    assert_eq!(select_backend(Some("winit"), false, false), BackendKind::Winit);
    assert_eq!(select_backend(Some("vulkan"), false, false), BackendKind::Winit);
    assert_eq!(select_backend(None, false, false), BackendKind::Drm);
    assert_eq!(select_backend(None, true, false), BackendKind::Winit);
    assert_eq!(detect_backend(false, true), BackendKind::Winit);
    assert!(is_known_backend("drm") && is_known_backend("winit") && !is_known_backend("x11"));
}

#[test]
fn geometry_helpers() {
    assert_eq!(toplevel_location(None), (480, 270));
    assert_eq!(toplevel_location(Some(Rect { x: 100, y: 50, w: 800, h: 600 })), (300, 200));
    assert_eq!(toplevel_location(Some(Rect { x: 0, y: 0, w: -7, h: 3 })), (-1, 0));
    let geo = Rect { x: 1, y: 2, w: 3, h: 4 };
    assert_eq!(configure_geometry(geo, None, Some(20), None, Some(40)), Rect { x: 1, y: 20, w: 3, h: 40 });
    assert_eq!(configure_geometry(geo, Some(-5), None, Some(u32::MAX), None), Rect { x: -5, y: 2, w: -1, h: 4 });
}

#[test]
fn xwayland_respawn_backs_off_then_disables() {
    let mut r = XwmState::new();
    assert!(r.may_start());
    assert_eq!(r.schedule_respawn(), Some(1000));
    assert_eq!(r.schedule_respawn(), Some(2000));
    r.ready();
    assert_eq!(r.schedule_respawn(), Some(1000));
    assert_eq!(r.schedule_respawn(), Some(2000));
    assert_eq!(r.schedule_respawn(), Some(5000));
    assert_eq!(r.schedule_respawn(), None);
    assert!(r.disabled);
    assert!(!r.may_start());
}

#[test]
fn workspace_slots() {
    assert_eq!(active_slot(5, 3), 0);
    assert_eq!(active_slot(2, 3), 2);
    assert_eq!(active_mut_slot(5, 3), 2);
    assert_eq!(active_mut_slot(1, 3), 1);
    assert_eq!(occupied_slots(&vec![false, true, false, true]), vec![1, 3]);
    assert!(occupied_slots(&vec![]).is_empty());
}

#[test]
fn destroyed_window_loses_focus() {
    let mut m = WorkspaceManager::new(2);
    m.set_focus(Some(WindowId(3)));
    window_destroyed(&mut m, WindowId(4));
    assert_eq!(m.focused(), Some(WindowId(3)));
    window_destroyed(&mut m, WindowId(3));
    assert_eq!(m.focused(), None);
}

#[test]
fn session_lock_and_composition() {
    use_session_lock();
    let order = composition_order(true, true);
    assert_eq!(
        order,
        vec![
            RenderLayer::Background,
            RenderLayer::Bottom,
            RenderLayer::Windows,
            RenderLayer::Top,
            RenderLayer::Overlay,
            RenderLayer::Panel,
            RenderLayer::LockSurfaces,
        ]
    );
    assert_eq!(composition_order(false, false).len(), 5);
    assert_eq!(panel_location(Some(900), 48), (0, 852));
    assert_eq!(panel_location(None, 48), (0, 1032));
    assert_eq!(first_connected(&vec![false, true, true]), Some(1));
    assert_eq!(first_connected(&vec![false]), None);
}

fn use_session_lock() {
    let mut l = SessionLock::new();
    assert!(!l.accepts_surface());
    assert!(l.request_lock());
    assert!(!l.request_lock());
    assert!(l.accepts_surface());
    l.unlock();
    assert!(l.request_lock());
}
