//! Compositor-level keybindings.
//!
//! - Super + 1..9: switch to workspace N
//! - Super + Shift + 1..9: move the focused window to workspace N
//! - Super + Right / Left: next / previous workspace
//! - Super + Q: close the focused window
//! - Super + L: lock the session
//! - Super + Return: spawn the default terminal (`nullxes-slate`)
//! - Super alone (Super_L / Super_R): open the launcher
//!
//! Every shortcut is intercepted; any other key is forwarded to the focused
//! client.

use vstd::prelude::*;
use crate::config::KeybindingConfig;
use crate::workspace::{
    focused_model, plan_move_model, switch_next_model, switch_prev_model, switch_to_model,
    WindowId, WorkspaceManager, WsModel,
};

verus! {

/// Keysyms of the bound keys (X11 keysym values).
pub const KEY_1: u32 = 0x31;
pub const KEY_9: u32 = 0x39;
pub const KEY_RIGHT: u32 = 0xff53;
pub const KEY_LEFT: u32 = 0xff51;
pub const KEY_LOWER_Q: u32 = 0x71;
pub const KEY_UPPER_Q: u32 = 0x51;
pub const KEY_LOWER_L: u32 = 0x6c;
pub const KEY_UPPER_L: u32 = 0x4c;
pub const KEY_RETURN: u32 = 0xff0d;
pub const KEY_KP_ENTER: u32 = 0xff8d;
pub const KEY_SUPER_L: u32 = 0xffeb;
pub const KEY_SUPER_R: u32 = 0xffec;

/// The default terminal spawned by Super + Return.
pub open spec fn terminal_binary() -> Seq<char> {
    "nullxes-slate"@
}

/// What the compositor does after a key press.
pub enum KeyEffect {
    /// Not a shortcut: hand the key to the focused client.
    Forward,
    /// Intercepted; whatever it changed is in the workspace manager.
    Handled,
    /// Intercepted: re-map `window` from workspace `src` to `target`.
    MoveWindow { src: usize, target: usize, window: WindowId },
    /// Intercepted: ask `window` on workspace `workspace` to close.
    CloseWindow { workspace: usize, window: WindowId },
    /// Intercepted: spawn the binary, detached.
    Spawn(String),
}

pub enum KeyEffectView {
    Forward,
    Handled,
    MoveWindow { src: usize, target: usize, window: WindowId },
    CloseWindow { workspace: usize, window: WindowId },
    Spawn(Seq<char>),
}

impl View for KeyEffect {
    type V = KeyEffectView;

    open spec fn view(&self) -> KeyEffectView {
        match self {
            KeyEffect::Forward => KeyEffectView::Forward,
            KeyEffect::Handled => KeyEffectView::Handled,
            KeyEffect::MoveWindow { src, target, window } => KeyEffectView::MoveWindow {
                src: *src,
                target: *target,
                window: *window,
            },
            KeyEffect::CloseWindow { workspace, window } => KeyEffectView::CloseWindow {
                workspace: *workspace,
                window: *window,
            },
            KeyEffect::Spawn(b) => KeyEffectView::Spawn(b@),
        }
    }
}

/// The effect of a key press on the workspace state, and what the
/// compositor does next.
pub open spec fn keybind_spec(
    m: WsModel,
    logo: bool,
    shift: bool,
    keysym: u32,
    wrap: bool,
    launcher: Seq<char>,
    lock: Seq<char>,
) -> (WsModel, KeyEffectView) {
    if !logo {
        (m, KeyEffectView::Forward)
    } else if KEY_1 <= keysym <= KEY_9 {
        let idx = keysym - KEY_1;
        if shift {
            let (m2, plan) = plan_move_model(m, idx);
            match plan {
                Some((src, target, id)) => (m2, KeyEffectView::MoveWindow { src, target, window: id }),
                None => (m2, KeyEffectView::Handled),
            }
        } else {
            (switch_to_model(m, idx).0, KeyEffectView::Handled)
        }
    } else if keysym == KEY_RIGHT {
        (switch_next_model(m, wrap).0, KeyEffectView::Handled)
    } else if keysym == KEY_LEFT {
        (switch_prev_model(m, wrap).0, KeyEffectView::Handled)
    } else if keysym == KEY_LOWER_Q || keysym == KEY_UPPER_Q {
        match focused_model(m) {
            Some(id) => (m, KeyEffectView::CloseWindow { workspace: m.active as usize, window: id }),
            None => (m, KeyEffectView::Handled),
        }
    } else if keysym == KEY_LOWER_L || keysym == KEY_UPPER_L {
        (m, KeyEffectView::Spawn(lock))
    } else if keysym == KEY_RETURN || keysym == KEY_KP_ENTER {
        (m, KeyEffectView::Spawn(terminal_binary()))
    } else if keysym == KEY_SUPER_L || keysym == KEY_SUPER_R {
        (m, KeyEffectView::Spawn(launcher))
    } else {
        (m, KeyEffectView::Forward)
    }
}

/// Handles a key press with the Super (`logo`) and Shift modifier states.
pub fn handle_keybind(
    mgr: &mut WorkspaceManager,
    logo: bool,
    shift: bool,
    keysym: u32,
    wrap: bool,
    bindings: &KeybindingConfig,
) -> (r: KeyEffect)
    ensures
        (final(mgr)@, r@) == keybind_spec(
            old(mgr)@,
            logo,
            shift,
            keysym,
            wrap,
            bindings.launcher_binary@,
            bindings.lock_binary@,
        ),
{
    if !logo {
        return KeyEffect::Forward;
    }
    if KEY_1 <= keysym && keysym <= KEY_9 {
        let idx = (keysym - KEY_1) as usize;
        if shift {
            match mgr.plan_move_focused(idx) {
                Some((src, target, id)) => KeyEffect::MoveWindow { src, target, window: id },
                None => KeyEffect::Handled,
            }
        } else {
            mgr.switch_to(idx);
            KeyEffect::Handled
        }
    } else if keysym == KEY_RIGHT {
        mgr.switch_next(wrap);
        KeyEffect::Handled
    } else if keysym == KEY_LEFT {
        mgr.switch_prev(wrap);
        KeyEffect::Handled
    } else if keysym == KEY_LOWER_Q || keysym == KEY_UPPER_Q {
        match mgr.focused() {
            Some(id) => KeyEffect::CloseWindow { workspace: mgr.active_index(), window: id },
            None => KeyEffect::Handled,
        }
    } else if keysym == KEY_LOWER_L || keysym == KEY_UPPER_L {
        KeyEffect::Spawn(bindings.lock_binary.clone())
    } else if keysym == KEY_RETURN || keysym == KEY_KP_ENTER {
        KeyEffect::Spawn(String::from_str("nullxes-slate"))
    } else if keysym == KEY_SUPER_L || keysym == KEY_SUPER_R {
        KeyEffect::Spawn(bindings.launcher_binary.clone())
    } else {
        KeyEffect::Forward
    }
}

/// Without Super nothing is intercepted and nothing changes.
pub proof fn law_plain_keys_forwarded(m: WsModel, shift: bool, keysym: u32, wrap: bool, launcher: Seq<char>, lock: Seq<char>)
    ensures
        keybind_spec(m, false, shift, keysym, wrap, launcher, lock) == (m, KeyEffectView::Forward),
{
}

/// Only a bound key is intercepted: a forwarded key leaves the workspace
/// state as it was.
pub proof fn law_forward_changes_nothing(
    m: WsModel,
    logo: bool,
    shift: bool,
    keysym: u32,
    wrap: bool,
    launcher: Seq<char>,
    lock: Seq<char>,
)
    ensures
        keybind_spec(m, logo, shift, keysym, wrap, launcher, lock).1 is Forward ==> keybind_spec(
            m,
            logo,
            shift,
            keysym,
            wrap,
            launcher,
            lock,
        ).0 == m,
{
}

/// Super + N switches to workspace N - 1 as `switch_to` does.
pub proof fn law_super_digit_switches(m: WsModel, n: u32, wrap: bool, launcher: Seq<char>, lock: Seq<char>)
    requires
        1 <= n <= 9,
    ensures
        keybind_spec(m, true, false, (KEY_1 + n - 1) as u32, wrap, launcher, lock).0 == switch_to_model(m, n - 1).0,
{
}

/// Super + Q asks the window focused on the active workspace to close,
/// naming the active workspace; with nothing focused there it is only
/// intercepted. Shift does not matter and the workspace state is untouched.
pub proof fn law_super_q_closes_focused_on_active(
    m: WsModel,
    shift: bool,
    keysym: u32,
    wrap: bool,
    launcher: Seq<char>,
    lock: Seq<char>,
)
    requires
        keysym == KEY_LOWER_Q || keysym == KEY_UPPER_Q,
    ensures
        keybind_spec(m, true, shift, keysym, wrap, launcher, lock).0 == m,
        m.focused[m.active as int] matches Some(id) ==> keybind_spec(m, true, shift, keysym, wrap, launcher, lock).1
            == (KeyEffectView::CloseWindow { workspace: m.active as usize, window: id }),
        m.focused[m.active as int] is None ==> keybind_spec(m, true, shift, keysym, wrap, launcher, lock).1 is Handled,
{
}

/// Super + L spawns the configured lock binary, Super alone the configured
/// launcher, and Super + Return the terminal; none touches the workspaces.
pub proof fn law_super_spawns(m: WsModel, shift: bool, wrap: bool, launcher: Seq<char>, lock: Seq<char>)
    ensures
        keybind_spec(m, true, shift, KEY_LOWER_L, wrap, launcher, lock) == (m, KeyEffectView::Spawn(lock)),
        keybind_spec(m, true, shift, KEY_UPPER_L, wrap, launcher, lock) == (m, KeyEffectView::Spawn(lock)),
        keybind_spec(m, true, shift, KEY_SUPER_L, wrap, launcher, lock) == (m, KeyEffectView::Spawn(launcher)),
        keybind_spec(m, true, shift, KEY_SUPER_R, wrap, launcher, lock) == (m, KeyEffectView::Spawn(launcher)),
        keybind_spec(m, true, shift, KEY_RETURN, wrap, launcher, lock) == (m, KeyEffectView::Spawn("nullxes-slate"@)),
{
}

} // verus!
