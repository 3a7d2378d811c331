//! Compositor decisions that sit between the event loop and the protocol
//! objects: which backend to run, where a new toplevel goes, how an X11
//! configure request changes a window's geometry, when XWayland is started
//! again after it exits, and how keyboard input is filtered while the session
//! is locked.

use vstd::prelude::*;
use crate::config::KeybindingConfig;
use crate::pixels::{as_i32, div_trunc, div_trunc_i32, u32_as_i32};
use crate::keybind::{handle_keybind, keybind_spec, KeyEffect, KeyEffectView};
use crate::workspace::{focused_model, set_focus_model, WindowId, WorkspaceManager, WsModel};

verus! {

// ---------------------------------------------------------------------------
// Backend selection.

/// The rendering backend of a session.
#[derive(Debug, Clone, Copy, PartialEq, Eq, Structural)]
pub enum BackendKind {
    /// Nested inside an existing X11 or Wayland session.
    Winit,
    /// Bare metal: DRM/KMS through the seat.
    Drm,
}

/// With no explicit choice: nested when a display server is already running
/// (`WAYLAND_DISPLAY` or `DISPLAY` set), bare metal otherwise.
pub open spec fn detect_backend_spec(wayland_display_set: bool, display_set: bool) -> BackendKind {
    if wayland_display_set || display_set { BackendKind::Winit } else { BackendKind::Drm }
}

pub fn detect_backend(wayland_display_set: bool, display_set: bool) -> (r: BackendKind)
    ensures
        r == detect_backend_spec(wayland_display_set, display_set),
{
    if wayland_display_set || display_set {
        BackendKind::Winit
    } else {
        BackendKind::Drm
    }
}

/// `NULLXES_BACKEND`: `drm` or `winit` choose; any other value falls back to
/// winit; unset (or unreadable) detects.
pub open spec fn select_backend_spec(
    requested: Option<Seq<char>>,
    wayland_display_set: bool,
    display_set: bool,
) -> BackendKind {
    match requested {
        Some(v) => if v == "drm"@ { BackendKind::Drm } else { BackendKind::Winit },
        None => detect_backend_spec(wayland_display_set, display_set),
    }
}

/// Whether an explicit backend request names a known backend.
pub open spec fn known_backend(v: Seq<char>) -> bool {
    v == "drm"@ || v == "winit"@
}

pub fn select_backend(requested: Option<&str>, wayland_display_set: bool, display_set: bool) -> (r: BackendKind)
    ensures
        r == select_backend_spec(
            match requested {
                Some(v) => Some(v@),
                None => None,
            },
            wayland_display_set,
            display_set,
        ),
{
    match requested {
        Some(v) => {
            if crate::text::str_equal(v, "drm") {
                BackendKind::Drm
            } else {
                BackendKind::Winit
            }
        },
        None => detect_backend(wayland_display_set, display_set),
    }
}

/// Whether `v` is a backend name the compositor knows (an unknown one is
/// reported before falling back to winit).
pub fn is_known_backend(v: &str) -> (r: bool)
    ensures
        r == known_backend(v@),
{
    crate::text::str_equal(v, "drm") || crate::text::str_equal(v, "winit")
}

// ---------------------------------------------------------------------------
// Geometry.

/// A rectangle in logical coordinates.
#[derive(Debug, Clone, Copy, PartialEq, Eq, Structural)]
pub struct Rect {
    pub x: i32,
    pub y: i32,
    pub w: i32,
    pub h: i32,
}

/// The output area assumed when the primary output's geometry is unknown.
pub open spec fn fallback_output() -> Rect {
    Rect { x: 0, y: 0, w: 1920, h: 1080 }
}

/// Where a new toplevel is mapped: a quarter of the output's size in from its
/// top-left corner.
pub open spec fn toplevel_location_spec(output: Option<Rect>) -> (int, int) {
    let g = match output {
        Some(r) => r,
        None => fallback_output(),
    };
    (g.x + div_trunc(g.w as int, 4), g.y + div_trunc(g.h as int, 4))
}

pub fn toplevel_location(output: Option<Rect>) -> (r: (i32, i32))
    requires
        output matches Some(g) ==> i32::MIN <= g.x + div_trunc(g.w as int, 4) <= i32::MAX && i32::MIN <= g.y
            + div_trunc(g.h as int, 4) <= i32::MAX,
    ensures
        (r.0 as int, r.1 as int) == toplevel_location_spec(output),
{
    let g = match output {
        Some(r) => r,
        None => Rect { x: 0, y: 0, w: 1920, h: 1080 },
    };
    let dx = div_trunc_i32(g.w, 4);
    let dy = div_trunc_i32(g.h, 4);
    (g.x + dx, g.y + dy)
}

/// The geometry an X11 configure request asks for: each given field replaces
/// the window's current one.
pub open spec fn configure_geometry_spec(geo: Rect, x: Option<i32>, y: Option<i32>, w: Option<u32>, h: Option<u32>) -> Rect {
    Rect {
        x: match x {
            Some(v) => v,
            None => geo.x,
        },
        y: match y {
            Some(v) => v,
            None => geo.y,
        },
        w: match w {
            Some(v) => u32_as_i32(v) as i32,
            None => geo.w,
        },
        h: match h {
            Some(v) => u32_as_i32(v) as i32,
            None => geo.h,
        },
    }
}

pub fn configure_geometry(geo: Rect, x: Option<i32>, y: Option<i32>, w: Option<u32>, h: Option<u32>) -> (r: Rect)
    ensures
        r == configure_geometry_spec(geo, x, y, w, h),
{
    let mut out = geo;
    if let Some(v) = x {
        out.x = v;
    }
    if let Some(v) = y {
        out.y = v;
    }
    if let Some(v) = w {
        out.w = as_i32(v);
    }
    if let Some(v) = h {
        out.h = as_i32(v);
    }
    out
}

// ---------------------------------------------------------------------------
// XWayland respawn.

/// Delays before the first, second and third respawn attempt.
pub open spec fn respawn_delay_ms(attempt: nat) -> u64 {
    if attempt == 0 {
        1000
    } else if attempt == 1 {
        2000
    } else {
        5000
    }
}

/// Number of respawn attempts before X11 is disabled for the session.
pub const MAX_RESPAWNS: u32 = 3;

/// The respawn bookkeeping of XWayland.
#[derive(Debug, Clone, Copy, PartialEq, Eq, Structural)]
pub struct XwmState {
    pub respawn_count: u32,
    pub disabled: bool,
}

impl XwmState {
    /// Not started yet: no attempts, enabled.
    pub fn new() -> (r: Self)
        ensures
            r.respawn_count == 0,
            !r.disabled,
    {
        XwmState { respawn_count: 0, disabled: false }
    }

    /// Whether a start may proceed (X11 is not disabled).
    pub fn may_start(&self) -> (r: bool)
        ensures
            r == !self.disabled,
    {
        !self.disabled
    }

    /// XWayland became ready and its window manager started: attempts reset.
    pub fn ready(&mut self)
        ensures
            final(self).respawn_count == 0,
            final(self).disabled == old(self).disabled,
    {
        self.respawn_count = 0;
    }

    /// XWayland exited or its window manager failed to start. Returns the
    /// delay before the next start, or `None` once three attempts were made,
    /// after which X11 is disabled for the session.
    pub fn schedule_respawn(&mut self) -> (r: Option<u64>)
        ensures
            (*final(self), r) == respawn_step(*old(self)),
    {
        if self.respawn_count >= MAX_RESPAWNS {
            self.disabled = true;
            return None;
        }
        let delay: u64 = if self.respawn_count == 0 {
            1000
        } else if self.respawn_count == 1 {
            2000
        } else {
            5000
        };
        self.respawn_count = self.respawn_count + 1;
        Some(delay)
    }
}

/// One exit of XWayland: with attempts left, the next one is counted and its
/// delay returned; otherwise X11 is disabled and no delay is returned.
pub open spec fn respawn_step(s: XwmState) -> (XwmState, Option<u64>) {
    if s.respawn_count >= MAX_RESPAWNS {
        (XwmState { disabled: true, ..s }, None)
    } else {
        (XwmState { respawn_count: (s.respawn_count + 1) as u32, ..s }, Some(respawn_delay_ms(s.respawn_count as nat)))
    }
}

/// The state after `k` consecutive exits with no ready in between, from a
/// fresh start.
pub open spec fn after_exits(k: nat) -> XwmState
    decreases k,
{
    if k == 0 {
        XwmState { respawn_count: 0, disabled: false }
    } else {
        respawn_step(after_exits((k - 1) as nat)).0
    }
}

/// Exits without a ready in between are answered at most three times, with
/// delays 1 s, 2 s and 5 s; the fourth disables X11.
pub proof fn law_respawn_gives_up(k: nat)
    ensures
        k <= 3 ==> after_exits(k).respawn_count == k && !after_exits(k).disabled,
        k > 3 ==> after_exits(k).respawn_count == 3 && after_exits(k).disabled,
        k < 3 ==> respawn_step(after_exits(k)).1 == Some(respawn_delay_ms(k)),
        k >= 3 ==> respawn_step(after_exits(k)).1 is None,
    decreases k,
{
    if k > 0 {
        law_respawn_gives_up((k - 1) as nat);
    }
}

// ---------------------------------------------------------------------------
// Windows and keyboard input.

/// A destroyed toplevel stops being the focus of the active workspace.
pub open spec fn window_destroyed_spec(m: WsModel, id: WindowId) -> WsModel {
    if focused_model(m) == Some(id) { set_focus_model(m, None) } else { m }
}

pub fn window_destroyed(mgr: &mut WorkspaceManager, id: WindowId)
    ensures
        final(mgr)@ == window_destroyed_spec(old(mgr)@, id),
{
    match mgr.focused() {
        Some(f) => {
            if f.0 == id.0 {
                mgr.set_focus(None);
            }
        },
        None => {},
    }
}

/// Keyboard filtering: while locked or shutting down every key goes to the
/// client; otherwise the keybindings decide.
pub open spec fn filter_key_spec(
    m: WsModel,
    locked: bool,
    shutting_down: bool,
    logo: bool,
    shift: bool,
    keysym: u32,
    wrap: bool,
    launcher: Seq<char>,
    lock: Seq<char>,
) -> (WsModel, KeyEffectView) {
    if locked || shutting_down {
        (m, KeyEffectView::Forward)
    } else {
        keybind_spec(m, logo, shift, keysym, wrap, launcher, lock)
    }
}

pub fn filter_key(
    mgr: &mut WorkspaceManager,
    locked: bool,
    shutting_down: bool,
    logo: bool,
    shift: bool,
    keysym: u32,
    wrap: bool,
    bindings: &KeybindingConfig,
) -> (r: KeyEffect)
    ensures
        (final(mgr)@, r@) == filter_key_spec(
            old(mgr)@,
            locked,
            shutting_down,
            logo,
            shift,
            keysym,
            wrap,
            bindings.launcher_binary@,
            bindings.lock_binary@,
        ),
{
    if locked || shutting_down {
        return KeyEffect::Forward;
    }
    handle_keybind(mgr, logo, shift, keysym, wrap, bindings)
}

/// While locked no shortcut fires and the workspace state is untouched.
pub proof fn law_locked_forwards_everything(
    m: WsModel,
    logo: bool,
    shift: bool,
    keysym: u32,
    wrap: bool,
    launcher: Seq<char>,
    lock: Seq<char>,
)
    ensures
        filter_key_spec(m, true, false, logo, shift, keysym, wrap, launcher, lock) == (m, KeyEffectView::Forward),
{
}

/// Pointer events reach the session only while it is unlocked.
pub open spec fn pointer_allowed_spec(locked: bool) -> bool {
    !locked
}

pub fn pointer_allowed(locked: bool) -> (r: bool)
    ensures
        r == pointer_allowed_spec(locked),
{
    !locked
}

// ---------------------------------------------------------------------------
// Session lock.

/// Whether a session-lock client holds the screen.
#[derive(Debug, Clone, Copy, PartialEq, Eq, Structural)]
pub struct SessionLock {
    pub locked: bool,
}

impl SessionLock {
    pub fn new() -> (r: Self)
        ensures
            !r.locked,
    {
        SessionLock { locked: false }
    }

    /// A lock request: accepted (and the session locked) unless the session
    /// is already locked, in which case the new locker is refused.
    pub fn request_lock(&mut self) -> (accepted: bool)
        ensures
            accepted == !old(self).locked,
            final(self).locked,
    {
        if self.locked {
            return false;
        }
        self.locked = true;
        true
    }

    /// The lock client unlocked the session.
    pub fn unlock(&mut self)
        ensures
            !final(self).locked,
    {
        self.locked = false;
    }

    /// Whether a lock surface may be kept (only while locked; otherwise it is
    /// closed).
    pub fn accepts_surface(&self) -> (r: bool)
        ensures
            r == self.locked,
    {
        self.locked
    }
}

// ---------------------------------------------------------------------------
// Composition.

/// One pass of the output's composition, bottom to top.
#[derive(Debug, Clone, Copy, PartialEq, Eq, Structural)]
pub enum RenderLayer {
    Background,
    Bottom,
    Windows,
    Top,
    Overlay,
    Panel,
    LockSurfaces,
}

/// Bottom-to-top order: background and bottom layer surfaces, the active
/// workspace's windows, top and overlay layer surfaces, the panel (once its
/// buffer exists), and the lock surfaces while locked.
pub open spec fn composition_order_spec(panel_ready: bool, locked: bool) -> Seq<RenderLayer> {
    let base = seq![RenderLayer::Background, RenderLayer::Bottom, RenderLayer::Windows, RenderLayer::Top, RenderLayer::Overlay];
    let with_panel = if panel_ready { base.push(RenderLayer::Panel) } else { base };
    if locked { with_panel.push(RenderLayer::LockSurfaces) } else { with_panel }
}

pub fn composition_order(panel_ready: bool, locked: bool) -> (r: Vec<RenderLayer>)
    ensures
        r@ == composition_order_spec(panel_ready, locked),
{
    let mut v: Vec<RenderLayer> = Vec::new();
    v.push(RenderLayer::Background);
    v.push(RenderLayer::Bottom);
    v.push(RenderLayer::Windows);
    v.push(RenderLayer::Top);
    v.push(RenderLayer::Overlay);
    if panel_ready {
        v.push(RenderLayer::Panel);
    }
    if locked {
        v.push(RenderLayer::LockSurfaces);
    }
    proof {
        assert(v@ =~= composition_order_spec(panel_ready, locked));
    }
    v
}

/// The layer passes: the five shell passes always come first, in order; the
/// panel is drawn exactly when its buffer is ready, directly after the
/// overlay, whatever the lock state; locking only appends the lock
/// surfaces on top.
pub proof fn law_composition_layers(panel_ready: bool, locked: bool)
    ensures
        ({
            let o = composition_order_spec(panel_ready, locked);
            &&& o.take(5) == seq![
                RenderLayer::Background,
                RenderLayer::Bottom,
                RenderLayer::Windows,
                RenderLayer::Top,
                RenderLayer::Overlay,
            ]
            &&& o.contains(RenderLayer::Panel) == panel_ready
            &&& panel_ready ==> o.len() > 5 && o[5] == RenderLayer::Panel
            &&& o.contains(RenderLayer::LockSurfaces) == locked
            &&& locked ==> o.last() == RenderLayer::LockSurfaces
        }),
        composition_order_spec(panel_ready, true) == composition_order_spec(panel_ready, false).push(
            RenderLayer::LockSurfaces,
        ),
{
    let o = composition_order_spec(panel_ready, locked);
    assert(o.take(5) =~= seq![
        RenderLayer::Background,
        RenderLayer::Bottom,
        RenderLayer::Windows,
        RenderLayer::Top,
        RenderLayer::Overlay,
    ]);
    if panel_ready {
        assert(o[5] == RenderLayer::Panel);
    } else {
        assert forall|i: int| 0 <= i < o.len() implies o[i] != RenderLayer::Panel by {}
    }
    if locked {
        assert(o[o.len() - 1] == RenderLayer::LockSurfaces);
    } else {
        assert forall|i: int| 0 <= i < o.len() implies o[i] != RenderLayer::LockSurfaces by {}
    }
}

/// The output height assumed when the output has no mode.
pub const FALLBACK_OUTPUT_H: i32 = 1080;

/// Where the panel goes: full width at the bottom edge of the output.
pub open spec fn panel_location_spec(output_h: Option<i32>, panel_h: u32) -> (int, int) {
    (0, (match output_h {
        Some(h) => h as int,
        None => FALLBACK_OUTPUT_H as int,
    }) - u32_as_i32(panel_h))
}

pub fn panel_location(output_h: Option<i32>, panel_h: u32) -> (r: (i32, i32))
    requires
        i32::MIN <= (match output_h {
            Some(h) => h as int,
            None => FALLBACK_OUTPUT_H as int,
        }) - u32_as_i32(panel_h) <= i32::MAX,
    ensures
        (r.0 as int, r.1 as int) == panel_location_spec(output_h, panel_h),
{
    let h = match output_h {
        Some(h) => h,
        None => FALLBACK_OUTPUT_H,
    };
    (0, h - as_i32(panel_h))
}

/// The connector an output is brought up on: the first connected one.
pub fn first_connected(connected: &Vec<bool>) -> (r: Option<usize>)
    ensures
        match r {
            Some(i) => i < connected@.len() && connected@[i as int] && forall|k: int| 0 <= k < i ==> !connected@[k],
            None => forall|k: int| 0 <= k < connected@.len() ==> !connected@[k],
        },
{
    let mut i: usize = 0;
    while i < connected.len()
        invariant
            i <= connected@.len(),
            forall|k: int| 0 <= k < i ==> !connected@[k],
        decreases connected@.len() - i,
    {
        if connected[i] {
            return Some(i);
        }
        i = i + 1;
    }
    None
}

} // verus!
