//! The in-process panel: the live state of its indicator modules, the labels
//! they show, how the system services' answers become that state, and the
//! pixels of the panel's own shapes (background, launcher button, workspace
//! dots).

use vstd::prelude::*;
use vstd::utf8::{decode_utf8, encode_utf8, is_char_boundary};
use crate::pixels::{color_byte, law_fill_rect_paints_exactly, fits, lemma_fill_rect_keeps_len, lemma_fits_in_bounds, as_i32, div_trunc, div_trunc_i32, clip_rect, clear, clear_spec, fill_rect, fill_rect_spec, hline, u32_as_i32, PanelBitmap, Rgba};
use crate::paths::{opt_view, path_join, path_join_spec};
use crate::workspace::WorkspaceManager;
use crate::text::{decimal, decimal2, decimal_string, decimal2_string, push_char, str_equal};

verus! {

// ---------------------------------------------------------------------------
// Module state.

/// Kind of the primary network connection.
#[derive(Debug, Clone, Copy, PartialEq, Eq, Structural)]
pub enum NetworkKind {
    /// No primary connection.
    NoConnection,
    Wired,
    Wireless,
    Other,
}

impl Default for NetworkKind {
    fn default() -> (r: Self)
        ensures
            r == NetworkKind::NoConnection,
    {
        NetworkKind::NoConnection
    }
}

#[derive(Debug, Clone)]
pub struct NetworkSnapshot {
    pub kind: NetworkKind,
    pub connected: bool,
    pub ssid: Option<String>,
    pub strength: Option<u8>,
}

impl Default for NetworkSnapshot {
    fn default() -> (r: Self)
        ensures
            r.kind == NetworkKind::NoConnection,
            !r.connected,
            r.ssid is None,
            r.strength is None,
    {
        NetworkSnapshot { kind: NetworkKind::NoConnection, connected: false, ssid: None, strength: None }
    }
}

/// Live panel module state, written by the system listeners and read when
/// the panel is drawn.
#[derive(Debug, Clone)]
pub struct ModuleSnapshot {
    pub battery_pct: Option<u8>,
    pub on_ac: bool,
    pub network: NetworkSnapshot,
    pub volume_pct: Option<u8>,
    pub volume_mute: bool,
}

impl Default for ModuleSnapshot {
    fn default() -> (r: Self)
        ensures
            r.battery_pct is None,
            !r.on_ac,
            r.network.kind == NetworkKind::NoConnection,
            !r.network.connected,
            r.network.ssid is None,
            r.network.strength is None,
            r.volume_pct is None,
            !r.volume_mute,
    {
        ModuleSnapshot {
            battery_pct: None,
            on_ac: false,
            network: NetworkSnapshot::default(),
            volume_pct: None,
            volume_mute: false,
        }
    }
}

// ---------------------------------------------------------------------------
// NetworkManager.

/// `NM_STATE_CONNECTED_GLOBAL`: from this state on the machine is online.
pub const NM_STATE_CONNECTED_GLOBAL: u32 = 70;

/// The connection kind of an active connection's `Type`.
pub open spec fn classify_spec(t: Seq<char>) -> NetworkKind {
    if t == "802-3-ethernet"@ {
        NetworkKind::Wired
    } else if t == "802-11-wireless"@ {
        NetworkKind::Wireless
    } else {
        NetworkKind::Other
    }
}

pub fn classify(t: &str) -> (r: NetworkKind)
    ensures
        r == classify_spec(t@),
{
    if str_equal(t, "802-3-ethernet") {
        NetworkKind::Wired
    } else if str_equal(t, "802-11-wireless") {
        NetworkKind::Wireless
    } else {
        NetworkKind::Other
    }
}

/// Whether `PrimaryConnection` names an active connection (it is neither
/// empty nor `/`).
pub open spec fn is_active_path_spec(path: Seq<char>) -> bool {
    path.len() != 0 && path != "/"@
}

pub fn is_active_path(path: &str) -> (r: bool)
    ensures
        r == is_active_path_spec(path@),
{
    !path.is_empty() && !str_equal(path, "/")
}

/// The network state from NetworkManager's answers: the global `State`
/// (unreadable counts as 0), the `PrimaryConnection` path, and for an active
/// path the connection's `Type` and `Id`, where they could be read.
pub open spec fn network_kind_spec(primary: Option<Seq<char>>, connection_type: Option<Seq<char>>) -> NetworkKind {
    match primary {
        Some(p) => if is_active_path_spec(p) {
            match connection_type {
                Some(t) => classify_spec(t),
                None => NetworkKind::NoConnection,
            }
        } else {
            NetworkKind::NoConnection
        },
        None => NetworkKind::NoConnection,
    }
}

pub fn network_snapshot(
    nm_state: Option<u32>,
    primary: Option<&str>,
    connection_type: Option<&str>,
    id: Option<String>,
) -> (r: NetworkSnapshot)
    ensures
        r.connected == (match nm_state {
            Some(s) => s >= NM_STATE_CONNECTED_GLOBAL,
            None => false,
        }),
        r.kind == network_kind_spec(
            match primary {
                Some(p) => Some(p@),
                None => None,
            },
            match connection_type {
                Some(t) => Some(t@),
                None => None,
            },
        ),
        r.kind == NetworkKind::Wireless ==> (match id {
            Some(s) => r.ssid matches Some(v) && v@ == s@,
            None => r.ssid is None,
        }),
        r.kind != NetworkKind::Wireless ==> r.ssid is None,
        r.strength is None,
{
    let state: u32 = match nm_state {
        Some(s) => s,
        None => 0,
    };
    let connected = state >= NM_STATE_CONNECTED_GLOBAL;
    let mut kind = NetworkKind::NoConnection;
    match primary {
        Some(p) => {
            if is_active_path(p) {
                match connection_type {
                    Some(t) => {
                        kind = classify(t);
                    },
                    None => {},
                }
            }
        },
        None => {},
    }
    let ssid = match kind {
        NetworkKind::Wireless => id,
        _ => None,
    };
    NetworkSnapshot { kind, connected, ssid, strength: None }
}

// ---------------------------------------------------------------------------
// UPower.

/// UPower's device `Type` of a battery.
pub const UPOWER_BATTERY: u32 = 2;

/// What probing one UPower device gave.
#[derive(Debug, Clone, Copy, PartialEq, Eq, Structural)]
pub enum DeviceProbe {
    /// Its object path was refused: the search stops with no battery.
    InvalidPath,
    /// Its proxy could not be built, or its `Type` could not be read.
    Unreadable,
    /// Its `Type`.
    Kind(u32),
}

/// Index of the battery among probed devices: the first of type 2, unless
/// an invalid path comes before it.
pub open spec fn pick_battery_spec(probes: Seq<DeviceProbe>) -> Option<int>
    decreases probes.len(),
{
    if probes.len() == 0 {
        None
    } else {
        match probes[0] {
            DeviceProbe::InvalidPath => None,
            DeviceProbe::Kind(k) => if k == UPOWER_BATTERY {
                Some(0)
            } else {
                match pick_battery_spec(probes.drop_first()) {
                    Some(i) => Some(i + 1),
                    None => None,
                }
            },
            DeviceProbe::Unreadable => match pick_battery_spec(probes.drop_first()) {
                Some(i) => Some(i + 1),
                None => None,
            },
        }
    }
}

proof fn lemma_pick_battery_step(probes: Seq<DeviceProbe>, i: int)
    requires
        0 <= i < probes.len(),
        probes[i] is Unreadable || (probes[i] matches DeviceProbe::Kind(k) && k != UPOWER_BATTERY),
    ensures
        pick_battery_spec(probes.subrange(i, probes.len() as int)) == (match pick_battery_spec(
            probes.subrange(i + 1, probes.len() as int),
        ) {
            Some(j) => Some(j + 1),
            None => None,
        }),
{
    assert(probes.subrange(i, probes.len() as int).drop_first() =~= probes.subrange(i + 1, probes.len() as int));
}

pub fn pick_battery(probes: &Vec<DeviceProbe>) -> (r: Option<usize>)
    ensures
        match pick_battery_spec(probes@) {
            Some(i) => r == Some(i as usize),
            None => r is None,
        },
{
    let n = probes.len();
    let mut i: usize = 0;
    proof {
        assert(probes@.subrange(0, n as int) =~= probes@);
    }
    while i < n
        invariant
            n == probes@.len(),
            i <= n,
            pick_battery_spec(probes@) == (match pick_battery_spec(probes@.subrange(i as int, n as int)) {
                Some(j) => Some(j + i),
                None => None,
            }),
        decreases n - i,
    {
        match probes[i] {
            DeviceProbe::InvalidPath => {
                return None;
            },
            DeviceProbe::Kind(k) => {
                if k == UPOWER_BATTERY {
                    return Some(i);
                }
                proof {
                    lemma_pick_battery_step(probes@, i as int);
                }
            },
            DeviceProbe::Unreadable => {
                proof {
                    lemma_pick_battery_step(probes@, i as int);
                }
            },
        }
        i = i + 1;
    }
    proof {
        assert(probes@.subrange(n as int, n as int).len() == 0);
    }
    None
}

// ---------------------------------------------------------------------------
// logind.

/// A `PrepareForSleep` signal.
#[derive(Debug, Clone, Copy, PartialEq, Eq, Structural)]
pub enum LoginEvent {
    /// The system is about to sleep.
    Sleeping,
    /// The system woke up.
    Wake,
}

pub fn login_event(start: bool) -> (r: LoginEvent)
    ensures
        r == (if start { LoginEvent::Sleeping } else { LoginEvent::Wake }),
{
    if start {
        LoginEvent::Sleeping
    } else {
        LoginEvent::Wake
    }
}

// ---------------------------------------------------------------------------
// Indicator labels.

/// The text of an indicator and whether it is drawn in the dimmed colour.
#[derive(Debug, Clone)]
pub struct Label {
    pub text: String,
    pub dim: bool,
}

/// Battery: `⚡` on AC power, `·` otherwise, then the percentage and `%`;
/// nothing without a battery.
pub open spec fn battery_text(pct: u8, on_ac: bool) -> Seq<char> {
    seq![if on_ac { '\u{26a1}' } else { '\u{b7}' }] + decimal(pct as nat) + "%"@
}

pub fn battery_label(snap: &ModuleSnapshot) -> (r: Option<Label>)
    ensures
        match snap.battery_pct {
            Some(pct) => r matches Some(l) && l.text@ == battery_text(pct, snap.on_ac) && !l.dim,
            None => r is None,
        },
{
    match snap.battery_pct {
        Some(pct) => {
            let mut text = String::new();
            push_char(&mut text, if snap.on_ac { '\u{26a1}' } else { '\u{b7}' });
            let digits = decimal_string(pct as u64);
            text.append(digits.as_str());
            text.append("%");
            proof {
                assert(text@ =~= battery_text(pct, snap.on_ac));
            }
            Some(Label { text, dim: false })
        },
        None => None,
    }
}

/// Volume: `MUTE` (dimmed) when muted, otherwise the percentage and `%`;
/// nothing without a volume reading.
pub open spec fn volume_text(pct: u8, mute: bool) -> Seq<char> {
    if mute { "MUTE"@ } else { decimal(pct as nat) + "%"@ }
}

pub fn volume_label(snap: &ModuleSnapshot) -> (r: Option<Label>)
    ensures
        match snap.volume_pct {
            Some(pct) => r matches Some(l) && l.text@ == volume_text(pct, snap.volume_mute) && l.dim
                == snap.volume_mute,
            None => r is None,
        },
{
    match snap.volume_pct {
        Some(pct) => {
            if snap.volume_mute {
                Some(Label { text: String::from_str("MUTE"), dim: true })
            } else {
                let mut text = decimal_string(pct as u64);
                text.append("%");
                Some(Label { text, dim: false })
            }
        },
        None => None,
    }
}

/// Longest network label, in bytes, shown uncut.
pub const NETWORK_LABEL_BYTES: usize = 16;

/// The untruncated network text: `ETH`, the SSID (or `WIFI` without one),
/// or `NET`; none without a connection.
pub open spec fn network_raw_text(net: NetworkKind, ssid: Option<Seq<char>>) -> Option<Seq<char>> {
    match net {
        NetworkKind::NoConnection => None,
        NetworkKind::Wired => Some("ETH"@),
        NetworkKind::Wireless => Some(
            match ssid {
                Some(s) => s,
                None => "WIFI"@,
            },
        ),
        NetworkKind::Other => Some("NET"@),
    }
}

/// A text longer than 16 bytes keeps its first 15 bytes and gets `…`.
pub open spec fn network_cut(t: Seq<char>) -> Seq<char> {
    if encode_utf8(t).len() > NETWORK_LABEL_BYTES {
        decode_utf8(encode_utf8(t).subrange(0, 15)) + "\u{2026}"@
    } else {
        t
    }
}

/// Whether cutting `t` is possible: a text longer than 16 bytes must have a
/// character boundary at byte 15 (otherwise the cut panics).
pub open spec fn network_cut_ok(t: Seq<char>) -> bool {
    encode_utf8(t).len() > NETWORK_LABEL_BYTES ==> is_char_boundary(encode_utf8(t), 15)
}

pub open spec fn ssid_view(snap: &ModuleSnapshot) -> Option<Seq<char>> {
    match snap.network.ssid {
        Some(s) => Some(s@),
        None => None,
    }
}

/// Whether [`network_label`] can cut `t` (see [`network_cut_ok`]).
pub fn network_cut_possible(t: &str) -> (r: bool)
    ensures
        r == network_cut_ok(t@),
{
    let n = t.as_bytes().len();
    n <= NETWORK_LABEL_BYTES || t.is_char_boundary(15)
}

fn cut_text(t: String) -> (r: String)
    requires
        network_cut_ok(t@),
    ensures
        r@ == network_cut(t@),
{
    let n = t.as_str().as_bytes().len();
    if n > NETWORK_LABEL_BYTES {
        let (head, _rest) = t.as_str().split_at(15);
        proof {
            vstd::utf8::encode_utf8_decode_utf8(head@);
            assert(head@ == decode_utf8(encode_utf8(t@).subrange(0, 15)));
        }
        let mut out = String::from_str(head);
        out.append("\u{2026}");
        out
    } else {
        t
    }
}

/// Network: the text above, cut to 16 bytes, dimmed while not connected.
pub fn network_label(snap: &ModuleSnapshot) -> (r: Option<Label>)
    requires
        network_raw_text(snap.network.kind, ssid_view(snap)) matches Some(t) ==> network_cut_ok(t),
    ensures
        match network_raw_text(snap.network.kind, ssid_view(snap)) {
            Some(t) => if t.len() == 0 {
                r is None
            } else {
                r matches Some(l) && l.text@ == network_cut(t) && l.dim == !snap.network.connected
            },
            None => r is None,
        },
{
    let raw: String = match snap.network.kind {
        NetworkKind::NoConnection => {
            return None;
        },
        NetworkKind::Wired => String::from_str("ETH"),
        NetworkKind::Wireless => match &snap.network.ssid {
            Some(s) => s.clone(),
            None => String::from_str("WIFI"),
        },
        NetworkKind::Other => String::from_str("NET"),
    };
    if raw.as_str().is_empty() {
        return None;
    }
    let text = cut_text(raw);
    Some(Label { text, dim: !snap.network.connected })
}

// ---------------------------------------------------------------------------
// Clock.

/// `HH:MM`, each part zero-padded to two digits.
pub open spec fn clock_text(hh: nat, mm: nat) -> Seq<char> {
    decimal2(hh) + ":"@ + decimal2(mm)
}

pub fn clock_label(hh: u32, mm: u32) -> (r: String)
    ensures
        r@ == clock_text(hh as nat, mm as nat),
{
    let mut s = decimal2_string(hh as u64);
    s.append(":");
    let m = decimal2_string(mm as u64);
    s.append(m.as_str());
    s
}

/// Hour and minute of a UTC timestamp (seconds since the epoch), as the
/// clock shows them when the local time zone cannot be read.
pub open spec fn utc_hour_minute_spec(secs: int) -> (int, int) {
    let hours = if secs >= 0 { secs / 3600 } else { -((-secs) / 3600) };
    let minutes = if secs >= 0 { secs / 60 } else { -((-secs) / 60) };
    (hours % 24, minutes % 60)
}

pub fn utc_hour_minute(secs: i64) -> (r: (u32, u32))
    ensures
        (r.0 as int, r.1 as int) == utc_hour_minute_spec(secs as int),
{
    if secs >= 0 {
        let s = secs as u64;
        (((s / 3600) % 24) as u32, ((s / 60) % 60) as u32)
    } else {
        let m: u64 = (-(secs as i128)) as u64;
        let h = (m / 3600) % 24;
        let mi = (m / 60) % 60;
        let hh: u64 = if h == 0 { 0 } else { 24 - h };
        let mm: u64 = if mi == 0 { 0 } else { 60 - mi };
        proof {
            let q = (m / 3600) as int;
            let qm = (m / 60) as int;
            assert((-q) % 24 == (if q % 24 == 0 { 0 } else { 24 - q % 24 })) by (nonlinear_arith)
                requires q >= 0;
            assert((-qm) % 60 == (if qm % 60 == 0 { 0 } else { 60 - qm % 60 })) by (nonlinear_arith)
                requires qm >= 0;
        }
        (hh as u32, mm as u32)
    }
}

// ---------------------------------------------------------------------------
// Shapes.

/// Whether offset `(dx, dy)` from a centre lies on the filled disk of
/// radius `r` (`ring == false`) or on its one-pixel outline (`ring == true`).
pub open spec fn in_shape(ring: bool, dx: int, dy: int, r: int) -> bool {
    let d2 = dx * dx + dy * dy;
    if ring { d2 <= r * r && d2 > (r - 1) * (r - 1) } else { d2 <= r * r }
}

/// Painting the shape's pixels of row `dy`, for `dx` from `-r` up to
/// `dx_end` (exclusive), left to right, each as a 1x1 rectangle.
pub open spec fn shape_row(
    p: Seq<u8>,
    stride: int,
    buf_w: u32,
    buf_h: u32,
    cx: int,
    cy: int,
    r: int,
    ring: bool,
    dy: int,
    dx_end: int,
    c: Rgba,
) -> Seq<u8>
    decreases dx_end + r,
{
    if dx_end <= -r {
        p
    } else {
        let q = shape_row(p, stride, buf_w, buf_h, cx, cy, r, ring, dy, dx_end - 1, c);
        let dx = dx_end - 1;
        if in_shape(ring, dx, dy, r) {
            fill_rect_spec(q, stride, buf_w, buf_h, (cx + dx) as i32, (cy + dy) as i32, 1, 1, c)
        } else {
            q
        }
    }
}

/// Painting rows `-r` up to `dy_end` (exclusive), top to bottom.
pub open spec fn shape_rows(
    p: Seq<u8>,
    stride: int,
    buf_w: u32,
    buf_h: u32,
    cx: int,
    cy: int,
    r: int,
    ring: bool,
    dy_end: int,
    c: Rgba,
) -> Seq<u8>
    decreases dy_end + r,
{
    if dy_end <= -r {
        p
    } else {
        shape_row(
            shape_rows(p, stride, buf_w, buf_h, cx, cy, r, ring, dy_end - 1, c),
            stride,
            buf_w,
            buf_h,
            cx,
            cy,
            r,
            ring,
            dy_end - 1,
            r + 1,
            c,
        )
    }
}

/// The buffer after painting a disk or ring of radius `r` around `(cx, cy)`.
pub open spec fn shape_spec(
    p: Seq<u8>,
    stride: int,
    buf_w: u32,
    buf_h: u32,
    cx: int,
    cy: int,
    r: int,
    ring: bool,
    c: Rgba,
) -> Seq<u8> {
    shape_rows(p, stride, buf_w, buf_h, cx, cy, r, ring, r + 1, c)
}

/// Radii and centres for which the shape's arithmetic stays within `i32`.
pub open spec fn shape_ok(cx: int, cy: int, r: int) -> bool {
    &&& -32767 <= r <= 32767
    &&& r >= 0 ==> i32::MIN <= cx - r && cx + r <= i32::MAX && i32::MIN <= cy - r && cy + r <= i32::MAX
}

fn paint_shape(
    pixels: &mut Vec<u8>,
    stride: usize,
    buf_w: u32,
    buf_h: u32,
    cx: i32,
    cy: i32,
    r: i32,
    ring: bool,
    c: Rgba,
)
    requires
        fits(old(pixels)@.len() as int, stride as int, buf_w, buf_h),
        shape_ok(cx as int, cy as int, r as int),
    ensures
        final(pixels)@ == shape_spec(old(pixels)@, stride as int, buf_w, buf_h, cx as int, cy as int, r as int, ring, c),
{
    let ghost orig = old(pixels)@;
    let ghost len = orig.len();
    if r < 0 {
        return;
    }
    let ri: i64 = r as i64;
    let rm: i64 = ri - 1;
    assert(ri * ri <= 32767 * 32767 && rm * rm <= 32768 * 32768 && rm * rm >= 0) by (nonlinear_arith)
        requires 0 <= ri <= 32767, rm == ri - 1;
    let r2: i64 = ri * ri;
    let ri2: i64 = rm * rm;
    let mut dy: i32 = -r;
    while dy <= r
        invariant
            fits(len as int, stride as int, buf_w, buf_h),
            shape_ok(cx as int, cy as int, r as int),
            pixels@.len() == len,
            orig.len() == len,
            r2 == r * r,
            ri2 == (r - 1) * (r - 1),
            -r <= dy <= r + 1,
            pixels@ == shape_rows(orig, stride as int, buf_w, buf_h, cx as int, cy as int, r as int, ring, dy as int, c),
        decreases r + 1 - dy,
    {
        let ghost before = pixels@;
        let mut dx: i32 = -r;
        while dx <= r
            invariant
                fits(len as int, stride as int, buf_w, buf_h),
                shape_ok(cx as int, cy as int, r as int),
                pixels@.len() == len,
                r2 == r * r,
                ri2 == (r - 1) * (r - 1),
                -r <= dy <= r,
                -r <= dx <= r + 1,
                pixels@ == shape_row(before, stride as int, buf_w, buf_h, cx as int, cy as int, r as int, ring, dy as int, dx as int, c),
            decreases r + 1 - dx,
        {
            let dxi: i64 = dx as i64;
            let dyi: i64 = dy as i64;
            assert(dxi * dxi <= 32767 * 32767 && dyi * dyi <= 32767 * 32767 && dxi * dxi >= 0 && dyi * dyi >= 0) by (nonlinear_arith)
                requires -32767 <= dxi <= 32767, -32767 <= dyi <= 32767;
            let d2: i64 = dxi * dxi + dyi * dyi;
            let inside = if ring { d2 <= r2 && d2 > ri2 } else { d2 <= r2 };
            if inside {
                proof {
                    lemma_fits_in_bounds(len as int, stride as int, buf_w, buf_h, (cx + dx) as i32, (cy + dy) as i32, 1, 1);
                    lemma_fill_rect_keeps_len(pixels@, stride as int, buf_w, buf_h, (cx + dx) as i32, (cy + dy) as i32, 1, 1, c);
                }
                fill_rect(pixels, stride, buf_w, buf_h, cx + dx, cy + dy, 1, 1, c);
            }
            dx = dx + 1;
        }
        dy = dy + 1;
    }
}

/// Fills the disk of radius `r` around `(cx, cy)`.
pub fn fill_circle(pixels: &mut Vec<u8>, stride: usize, buf_w: u32, buf_h: u32, cx: i32, cy: i32, r: i32, c: Rgba)
    requires
        fits(old(pixels)@.len() as int, stride as int, buf_w, buf_h),
        shape_ok(cx as int, cy as int, r as int),
    ensures
        final(pixels)@ == shape_spec(old(pixels)@, stride as int, buf_w, buf_h, cx as int, cy as int, r as int, false, c),
{
    paint_shape(pixels, stride, buf_w, buf_h, cx, cy, r, false, c);
}

/// Draws the one-pixel outline of the circle of radius `r` around `(cx, cy)`.
pub fn ring_circle(pixels: &mut Vec<u8>, stride: usize, buf_w: u32, buf_h: u32, cx: i32, cy: i32, r: i32, c: Rgba)
    requires
        fits(old(pixels)@.len() as int, stride as int, buf_w, buf_h),
        shape_ok(cx as int, cy as int, r as int),
    ensures
        final(pixels)@ == shape_spec(old(pixels)@, stride as int, buf_w, buf_h, cx as int, cy as int, r as int, true, c),
{
    paint_shape(pixels, stride, buf_w, buf_h, cx, cy, r, true, c);
}

// ---------------------------------------------------------------------------
// Workspace dots and the panel's shapes.

/// Colours the panel's shapes are drawn with.
#[derive(Debug, Clone, Copy, PartialEq, Eq, Structural)]
pub struct PanelPalette {
    pub surface_1: Rgba,
    pub surface_2: Rgba,
    pub divider: Rgba,
    pub accent: Rgba,
    pub text_secondary: Rgba,
    pub text_disabled: Rgba,
}

/// Number of workspace dots drawn.
pub const DOT_COUNT: usize = 9;
/// Left edge of the first dot's cell.
pub const DOT_START_X: i32 = 60;
/// Width of a dot's cell: idle dot diameter plus the gap.
pub const DOT_PITCH: i32 = 16;

/// Vertical centre of the dots: half the buffer height (`as i32`, then
/// halved toward zero).
pub open spec fn dot_cy(buf_h: u32) -> int {
    div_trunc(u32_as_i32(buf_h), 2)
}

/// Horizontal centre of dot `i`.
pub open spec fn dot_cx(i: int) -> int {
    DOT_START_X + i * DOT_PITCH + 3
}

/// Drawing dots `0..n`: the active one a filled disk of radius 4 in the
/// accent colour, an occupied one a ring of radius 3, any other a ring of
/// radius 2 in the disabled colour.
pub open spec fn dots_spec(
    p: Seq<u8>,
    stride: int,
    buf_w: u32,
    buf_h: u32,
    active: int,
    occupied: Seq<usize>,
    pal: PanelPalette,
    n: int,
) -> Seq<u8>
    decreases n,
{
    if n <= 0 {
        p
    } else {
        let q = dots_spec(p, stride, buf_w, buf_h, active, occupied, pal, n - 1);
        let i = n - 1;
        if i == active {
            shape_spec(q, stride, buf_w, buf_h, dot_cx(i), dot_cy(buf_h), 4, false, pal.accent)
        } else if occupied.contains(i as usize) {
            shape_spec(q, stride, buf_w, buf_h, dot_cx(i), dot_cy(buf_h), 3, true, pal.text_secondary)
        } else {
            shape_spec(q, stride, buf_w, buf_h, dot_cx(i), dot_cy(buf_h), 2, true, pal.text_disabled)
        }
    }
}

fn half_height(buf_h: u32) -> (r: i32)
    ensures
        r == dot_cy(buf_h),
        -0x4000_0000 <= r <= 0x4000_0000,
{
    div_trunc_i32(as_i32(buf_h), 2)
}

fn contains_index(v: &Vec<usize>, x: usize) -> (r: bool)
    ensures
        r == v@.contains(x),
{
    let mut i: usize = 0;
    while i < v.len()
        invariant
            i <= v@.len(),
            forall|k: int| 0 <= k < i ==> v@[k] != x,
        decreases v@.len() - i,
    {
        if v[i] == x {
            return true;
        }
        i = i + 1;
    }
    false
}

pub proof fn lemma_shape_keeps_len(p: Seq<u8>, stride: int, buf_w: u32, buf_h: u32, cx: int, cy: int, r: int, ring: bool, c: Rgba)
    requires
        fits(p.len() as int, stride, buf_w, buf_h),
    ensures
        shape_spec(p, stride, buf_w, buf_h, cx, cy, r, ring, c).len() == p.len(),
{
    lemma_shape_rows_len(p, stride, buf_w, buf_h, cx, cy, r, ring, r + 1, c);
}

proof fn lemma_shape_rows_len(p: Seq<u8>, stride: int, buf_w: u32, buf_h: u32, cx: int, cy: int, r: int, ring: bool, dy_end: int, c: Rgba)
    requires
        fits(p.len() as int, stride, buf_w, buf_h),
    ensures
        shape_rows(p, stride, buf_w, buf_h, cx, cy, r, ring, dy_end, c).len() == p.len(),
    decreases dy_end + r,
{
    if dy_end > -r {
        lemma_shape_rows_len(p, stride, buf_w, buf_h, cx, cy, r, ring, dy_end - 1, c);
        let q = shape_rows(p, stride, buf_w, buf_h, cx, cy, r, ring, dy_end - 1, c);
        lemma_shape_row_len(q, stride, buf_w, buf_h, cx, cy, r, ring, dy_end - 1, r + 1, c);
    }
}

proof fn lemma_shape_row_len(p: Seq<u8>, stride: int, buf_w: u32, buf_h: u32, cx: int, cy: int, r: int, ring: bool, dy: int, dx_end: int, c: Rgba)
    requires
        fits(p.len() as int, stride, buf_w, buf_h),
    ensures
        shape_row(p, stride, buf_w, buf_h, cx, cy, r, ring, dy, dx_end, c).len() == p.len(),
    decreases dx_end + r,
{
    if dx_end > -r {
        lemma_shape_row_len(p, stride, buf_w, buf_h, cx, cy, r, ring, dy, dx_end - 1, c);
        let q = shape_row(p, stride, buf_w, buf_h, cx, cy, r, ring, dy, dx_end - 1, c);
        lemma_fits_in_bounds(q.len() as int, stride, buf_w, buf_h, (cx + dx_end - 1) as i32, (cy + dy) as i32, 1, 1);
        lemma_fill_rect_keeps_len(q, stride, buf_w, buf_h, (cx + dx_end - 1) as i32, (cy + dy) as i32, 1, 1, c);
    }
}

/// Draws the nine workspace dots (see [`dots_spec`]).
pub fn draw_workspace_dots(
    pixels: &mut Vec<u8>,
    stride: usize,
    buf_w: u32,
    buf_h: u32,
    active: usize,
    occupied: &Vec<usize>,
    pal: &PanelPalette,
)
    requires
        fits(old(pixels)@.len() as int, stride as int, buf_w, buf_h),
    ensures
        final(pixels)@ == dots_spec(old(pixels)@, stride as int, buf_w, buf_h, active as int, occupied@, *pal, DOT_COUNT as int),
{
    let ghost orig = old(pixels)@;
    let ghost len = orig.len();
    let cy = half_height(buf_h);
    let mut i: usize = 0;
    while i < DOT_COUNT
        invariant
            i <= DOT_COUNT,
            fits(len as int, stride as int, buf_w, buf_h),
            pixels@.len() == len,
            cy == dot_cy(buf_h),
            -0x4000_0000 <= cy <= 0x4000_0000,
            pixels@ == dots_spec(orig, stride as int, buf_w, buf_h, active as int, occupied@, *pal, i as int),
        decreases DOT_COUNT - i,
    {
        let cx: i32 = DOT_START_X + (i as i32) * DOT_PITCH + 3;
        let ghost before = pixels@;
        if i == active {
            fill_circle(pixels, stride, buf_w, buf_h, cx, cy, 4, pal.accent);
        } else if contains_index(occupied, i) {
            ring_circle(pixels, stride, buf_w, buf_h, cx, cy, 3, pal.text_secondary);
        } else {
            ring_circle(pixels, stride, buf_w, buf_h, cx, cy, 2, pal.text_disabled);
        }
        proof {
            lemma_shape_keeps_len(before, stride as int, buf_w, buf_h, cx as int, cy as int, if i == active { 4 } else if occupied@.contains(i) { 3 } else { 2 }, i != active, if i == active { pal.accent } else if occupied@.contains(i) { pal.text_secondary } else { pal.text_disabled });
        }
        i = i + 1;
    }
}

/// Top-left corners of the four squares of the launcher button's mark.
pub open spec fn mark_square(k: int) -> (i32, i32) {
    if k == 0 {
        (18, 16)
    } else if k == 1 {
        (26, 16)
    } else if k == 2 {
        (18, 24)
    } else {
        (26, 24)
    }
}

/// The panel's shapes: background, top divider, the launcher button with
/// its four-square mark, and the workspace dots.
pub open spec fn panel_shapes_spec(
    p: Seq<u8>,
    w: u32,
    h: u32,
    active: int,
    occupied: Seq<usize>,
    pal: PanelPalette,
) -> Seq<u8> {
    let stride = w * 4;
    let s1 = clear_spec(p, pal.surface_1);
    let x1 = u32_as_i32(w);
    let s2 = if x1 <= 0 { s1 } else { fill_rect_spec(s1, stride, w, h, 0, 0, x1 as u32, 1, pal.divider) };
    let s3 = fill_rect_spec(s2, stride, w, h, 0, 0, 48, h, pal.surface_2);
    let s4 = fill_rect_spec(s3, stride, w, h, mark_square(0).0, mark_square(0).1, 4, 4, pal.accent);
    let s5 = fill_rect_spec(s4, stride, w, h, mark_square(1).0, mark_square(1).1, 4, 4, pal.accent);
    let s6 = fill_rect_spec(s5, stride, w, h, mark_square(2).0, mark_square(2).1, 4, 4, pal.accent);
    let s7 = fill_rect_spec(s6, stride, w, h, mark_square(3).0, mark_square(3).1, 4, 4, pal.accent);
    dots_spec(s7, stride, w, h, active, occupied, pal, DOT_COUNT as int)
}

/// Draws the panel's shapes into its bitmap, marks it clean and bumps its
/// generation. The indicator texts are drawn over them afterwards.
pub fn render_panel_shapes(bitmap: &mut PanelBitmap, active: usize, occupied: &Vec<usize>, pal: &PanelPalette)
    requires
        old(bitmap).wf(),
        old(bitmap).width * 4 <= usize::MAX,
    ensures
        final(bitmap).pixels@ == panel_shapes_spec(old(bitmap).pixels@, old(bitmap).width, old(bitmap).height, active as int, occupied@, *pal),
        final(bitmap).width == old(bitmap).width,
        final(bitmap).height == old(bitmap).height,
        !final(bitmap).dirty,
        final(bitmap).generation == (if old(bitmap).generation == u64::MAX { 0 } else { old(bitmap).generation + 1 }),
        final(bitmap).wf(),
{
    let w = bitmap.width;
    let h = bitmap.height;
    let stride = bitmap.stride();
    let ghost len = bitmap.pixels@.len();
    let ghost p0 = bitmap.pixels@;
    proof {
        assert(fits(len as int, stride as int, w, h));
    }
    clear(&mut bitmap.pixels, pal.surface_1);
    let ghost s1 = bitmap.pixels@;
    let x1 = as_i32(w);
    proof {
        if x1 > 0 {
            lemma_fits_in_bounds(len as int, stride as int, w, h, 0, 0, x1 as u32, 1);
        }
    }
    hline(&mut bitmap.pixels, stride, w, h, 0, 0, x1, pal.divider);
    let ghost s2 = bitmap.pixels@;
    proof {
        if x1 > 0 {
            lemma_fill_rect_keeps_len(s1, stride as int, w, h, 0, 0, x1 as u32, 1, pal.divider);
        }
        lemma_fits_in_bounds(len as int, stride as int, w, h, 0, 0, 48, h);
        lemma_fill_rect_keeps_len(s2, stride as int, w, h, 0, 0, 48, h, pal.surface_2);
    }
    fill_rect(&mut bitmap.pixels, stride, w, h, 0, 0, 48, h, pal.surface_2);
    let ghost s3 = bitmap.pixels@;
    proof {
        lemma_fits_in_bounds(len as int, stride as int, w, h, 18, 16, 4, 4);
        lemma_fill_rect_keeps_len(s3, stride as int, w, h, 18, 16, 4, 4, pal.accent);
    }
    fill_rect(&mut bitmap.pixels, stride, w, h, 18, 16, 4, 4, pal.accent);
    let ghost s4 = bitmap.pixels@;
    proof {
        lemma_fits_in_bounds(len as int, stride as int, w, h, 26, 16, 4, 4);
        lemma_fill_rect_keeps_len(s4, stride as int, w, h, 26, 16, 4, 4, pal.accent);
    }
    fill_rect(&mut bitmap.pixels, stride, w, h, 26, 16, 4, 4, pal.accent);
    let ghost s5 = bitmap.pixels@;
    proof {
        lemma_fits_in_bounds(len as int, stride as int, w, h, 18, 24, 4, 4);
        lemma_fill_rect_keeps_len(s5, stride as int, w, h, 18, 24, 4, 4, pal.accent);
    }
    fill_rect(&mut bitmap.pixels, stride, w, h, 18, 24, 4, 4, pal.accent);
    let ghost s6 = bitmap.pixels@;
    proof {
        lemma_fits_in_bounds(len as int, stride as int, w, h, 26, 24, 4, 4);
        lemma_fill_rect_keeps_len(s6, stride as int, w, h, 26, 24, 4, 4, pal.accent);
    }
    fill_rect(&mut bitmap.pixels, stride, w, h, 26, 24, 4, 4, pal.accent);
    let ghost s7 = bitmap.pixels@;
    draw_workspace_dots(&mut bitmap.pixels, stride, w, h, active, occupied, pal);
    proof {
        lemma_dots_keep_len(s7, stride as int, w, h, active as int, occupied@, *pal, DOT_COUNT as int);
    }
    bitmap.dirty = false;
    bitmap.generation = bitmap.generation.wrapping_add(1);
}

proof fn lemma_dots_keep_len(p: Seq<u8>, stride: int, buf_w: u32, buf_h: u32, active: int, occupied: Seq<usize>, pal: PanelPalette, n: int)
    requires
        fits(p.len() as int, stride, buf_w, buf_h),
    ensures
        dots_spec(p, stride, buf_w, buf_h, active, occupied, pal, n).len() == p.len(),
    decreases n,
{
    if n > 0 {
        lemma_dots_keep_len(p, stride, buf_w, buf_h, active, occupied, pal, n - 1);
        let q = dots_spec(p, stride, buf_w, buf_h, active, occupied, pal, n - 1);
        lemma_shape_keeps_len(q, stride, buf_w, buf_h, dot_cx(n - 1), dot_cy(buf_h), 4, false, pal.accent);
        lemma_shape_keeps_len(q, stride, buf_w, buf_h, dot_cx(n - 1), dot_cy(buf_h), 3, true, pal.text_secondary);
        lemma_shape_keeps_len(q, stride, buf_w, buf_h, dot_cx(n - 1), dot_cy(buf_h), 2, true, pal.text_disabled);
    }
}

// ---------------------------------------------------------------------------
// Fonts.

/// Directories searched for the panel's fonts, in order: `$NULLXES_FONT_DIR`,
/// the system's NULLXES fonts, `assets/fonts` next to the executable and in
/// the working directory, then the usual system font directories.
pub open spec fn font_dirs_spec(font_dir_env: Option<Seq<char>>, exe_dir: Option<Seq<char>>) -> Seq<Seq<char>> {
    let first: Seq<Seq<char>> = match font_dir_env {
        Some(d) => seq![d],
        None => Seq::empty(),
    };
    let exe: Seq<Seq<char>> = match exe_dir {
        Some(d) => seq![path_join_spec(d, "assets/fonts"@)],
        None => Seq::empty(),
    };
    first + seq!["/usr/share/fonts/nullxes"@] + exe + seq![
        "assets/fonts"@,
        "/usr/share/fonts/inter"@,
        "/usr/share/fonts/Inter"@,
        "/usr/share/fonts/truetype/inter"@,
        "/usr/share/fonts/jetbrains-mono"@,
        "/usr/share/fonts/JetBrainsMono"@,
        "/usr/share/fonts"@,
    ]
}

pub fn font_candidate_dirs(font_dir_env: &Option<String>, exe_dir: &Option<String>) -> (r: Vec<String>)
    ensures
        r.deep_view() == font_dirs_spec(opt_view(*font_dir_env), opt_view(*exe_dir)),
{
    let mut dirs: Vec<String> = Vec::new();
    match font_dir_env {
        Some(d) => dirs.push(d.clone()),
        None => {},
    }
    dirs.push(String::from_str("/usr/share/fonts/nullxes"));
    match exe_dir {
        Some(d) => dirs.push(path_join(d.as_str(), "assets/fonts")),
        None => {},
    }
    dirs.push(String::from_str("assets/fonts"));
    dirs.push(String::from_str("/usr/share/fonts/inter"));
    dirs.push(String::from_str("/usr/share/fonts/Inter"));
    dirs.push(String::from_str("/usr/share/fonts/truetype/inter"));
    dirs.push(String::from_str("/usr/share/fonts/jetbrains-mono"));
    dirs.push(String::from_str("/usr/share/fonts/JetBrainsMono"));
    dirs.push(String::from_str("/usr/share/fonts"));
    proof {
        assert(dirs.deep_view() =~= font_dirs_spec(opt_view(*font_dir_env), opt_view(*exe_dir)));
    }
    dirs
}

// ---------------------------------------------------------------------------
// The panel overlay.

/// Height of the panel, in pixels.
pub const PANEL_HEIGHT: u32 = 48;

/// The panel's pixel buffer, composited at the bottom of the output.
pub struct PanelOverlay {
    pub bitmap: PanelBitmap,
}

impl PanelOverlay {
    /// A 1920-pixel-wide panel until the output's width is known.
    pub fn new() -> (r: Self)
        ensures
            r.bitmap.width == 1920,
            r.bitmap.height == PANEL_HEIGHT,
            r.bitmap.wf(),
            r.bitmap.dirty,
            r.bitmap.generation == 0,
    {
        PanelOverlay { bitmap: PanelBitmap::new(1920, PANEL_HEIGHT) }
    }

    /// Matches the panel's width to the output's.
    pub fn resize(&mut self, output_width: u32)
        requires
            output_width * PANEL_HEIGHT * 4 <= usize::MAX,
        ensures
            old(self).bitmap.width == output_width && old(self).bitmap.height == PANEL_HEIGHT ==> final(self).bitmap
                == old(self).bitmap,
            !(old(self).bitmap.width == output_width && old(self).bitmap.height == PANEL_HEIGHT) ==> {
                &&& final(self).bitmap.width == output_width
                &&& final(self).bitmap.height == PANEL_HEIGHT
                &&& final(self).bitmap.dirty
                &&& final(self).bitmap.wf()
                &&& final(self).bitmap.generation == (if old(self).bitmap.generation == u64::MAX {
                    0
                } else {
                    old(self).bitmap.generation + 1
                })
            },
    {
        self.bitmap.resize(output_width, PANEL_HEIGHT);
    }

    /// Draws the panel's shapes for the workspace state (see
    /// [`panel_shapes_spec`]); the indicator texts go on top.
    pub fn render(&mut self, mgr: &WorkspaceManager, occupied: &Vec<usize>, pal: &PanelPalette)
        requires
            old(self).bitmap.wf(),
            old(self).bitmap.width * 4 <= usize::MAX,
        ensures
            final(self).bitmap.pixels@ == panel_shapes_spec(
                old(self).bitmap.pixels@,
                old(self).bitmap.width,
                old(self).bitmap.height,
                mgr@.active as int,
                occupied@,
                *pal,
            ),
            final(self).bitmap.width == old(self).bitmap.width,
            final(self).bitmap.height == old(self).bitmap.height,
            final(self).bitmap.wf(),
            !final(self).bitmap.dirty,
            final(self).bitmap.generation == (if old(self).bitmap.generation == u64::MAX {
                0
            } else {
                old(self).bitmap.generation + 1
            }),
    {
        let active = mgr.active_index();
        render_panel_shapes(&mut self.bitmap, active, occupied, pal);
    }
}

/// The panel's width for the output's current mode: the mode's width (as
/// `u32`), or 1920 without a mode.
pub open spec fn panel_width_spec(mode_width: Option<i32>) -> u32 {
    match mode_width {
        Some(w) => w as u32,
        None => 1920,
    }
}

/// Before each frame: matches the panel to the output's width and redraws
/// its shapes for the workspace state. Returns whether the pixels changed
/// since the buffer last uploaded (generation `uploaded`), so that the
/// caller uploads them again.
pub fn update_panel(
    overlay: &mut PanelOverlay,
    mode_width: Option<i32>,
    mgr: &WorkspaceManager,
    nonempty: &Vec<bool>,
    pal: &PanelPalette,
    uploaded: u64,
) -> (changed: bool)
    requires
        panel_width_spec(mode_width) * PANEL_HEIGHT * 4 <= usize::MAX,
        old(overlay).bitmap.wf(),
        old(overlay).bitmap.height == PANEL_HEIGHT,
    ensures
        final(overlay).bitmap.width == panel_width_spec(mode_width),
        final(overlay).bitmap.height == PANEL_HEIGHT,
        final(overlay).bitmap.wf(),
        !final(overlay).bitmap.dirty,
        changed == (final(overlay).bitmap.generation != uploaded),
{
    let width: u32 = match mode_width {
        Some(w) => w as u32,
        None => 1920,
    };
    overlay.resize(width);
    let occupied = crate::workspace::occupied_slots(nonempty);
    overlay.render(mgr, &occupied, pal);
    overlay.bitmap.generation != uploaded
}

// ---------------------------------------------------------------------------
// What a disk or ring paints.

proof fn lemma_unit_clip(buf_w: u32, buf_h: u32, x: i32, y: i32, px: int, py: int)
    requires
        buf_w <= i32::MAX,
        buf_h <= i32::MAX,
        0 <= px < buf_w,
        0 <= py < buf_h,
    ensures
        ({
            let (x0, y0, x1, y1) = clip_rect(buf_w, buf_h, x, y, 1, 1);
            (x0 <= px < x1 && y0 <= py < y1) == (px == x && py == y)
        }),
{
}

proof fn lemma_shape_row_effect(
    p: Seq<u8>,
    buf_w: u32,
    buf_h: u32,
    cx: int,
    cy: int,
    r: int,
    ring: bool,
    dy: int,
    dx_end: int,
    c: Rgba,
    px: int,
    py: int,
    k: int,
)
    requires
        fits(p.len() as int, buf_w * 4, buf_w, buf_h),
        buf_w <= i32::MAX,
        buf_h <= i32::MAX,
        c.a == 255,
        shape_ok(cx, cy, r),
        i32::MIN <= cx <= i32::MAX,
        i32::MIN <= cy <= i32::MAX,
        -r <= dy <= r,
        dx_end <= r + 1,
        0 <= px < buf_w,
        0 <= py < buf_h,
        0 <= k < 4,
    ensures
        shape_row(p, buf_w * 4, buf_w, buf_h, cx, cy, r, ring, dy, dx_end, c).len() == p.len(),
        shape_row(p, buf_w * 4, buf_w, buf_h, cx, cy, r, ring, dy, dx_end, c)[py * (buf_w * 4) + px * 4 + k] == (if py
            == cy + dy && -r <= px - cx < dx_end && in_shape(ring, px - cx, dy, r) {
            color_byte(c, k)
        } else {
            p[py * (buf_w * 4) + px * 4 + k]
        }),
    decreases dx_end + r,
{
    if dx_end > -r {
        lemma_shape_row_effect(p, buf_w, buf_h, cx, cy, r, ring, dy, dx_end - 1, c, px, py, k);
        let q = shape_row(p, buf_w * 4, buf_w, buf_h, cx, cy, r, ring, dy, dx_end - 1, c);
        let dx = dx_end - 1;
        if in_shape(ring, dx, dy, r) {
            law_fill_rect_paints_exactly(q, buf_w, buf_h, (cx + dx) as i32, (cy + dy) as i32, 1, 1, c, px, py, k);
            lemma_unit_clip(buf_w, buf_h, (cx + dx) as i32, (cy + dy) as i32, px, py);
        }
    }
}

proof fn lemma_shape_rows_effect(
    p: Seq<u8>,
    buf_w: u32,
    buf_h: u32,
    cx: int,
    cy: int,
    r: int,
    ring: bool,
    dy_end: int,
    c: Rgba,
    px: int,
    py: int,
    k: int,
)
    requires
        fits(p.len() as int, buf_w * 4, buf_w, buf_h),
        buf_w <= i32::MAX,
        buf_h <= i32::MAX,
        c.a == 255,
        shape_ok(cx, cy, r),
        i32::MIN <= cx <= i32::MAX,
        i32::MIN <= cy <= i32::MAX,
        dy_end <= r + 1,
        0 <= px < buf_w,
        0 <= py < buf_h,
        0 <= k < 4,
    ensures
        shape_rows(p, buf_w * 4, buf_w, buf_h, cx, cy, r, ring, dy_end, c).len() == p.len(),
        shape_rows(p, buf_w * 4, buf_w, buf_h, cx, cy, r, ring, dy_end, c)[py * (buf_w * 4) + px * 4 + k] == (if -r
            <= py - cy < dy_end && -r <= px - cx <= r && in_shape(ring, px - cx, py - cy, r) {
            color_byte(c, k)
        } else {
            p[py * (buf_w * 4) + px * 4 + k]
        }),
    decreases dy_end + r,
{
    if dy_end > -r {
        lemma_shape_rows_effect(p, buf_w, buf_h, cx, cy, r, ring, dy_end - 1, c, px, py, k);
        let q = shape_rows(p, buf_w * 4, buf_w, buf_h, cx, cy, r, ring, dy_end - 1, c);
        lemma_shape_row_effect(q, buf_w, buf_h, cx, cy, r, ring, dy_end - 1, r + 1, c, px, py, k);
    }
}

/// In an opaque colour, `fill_circle` and `ring_circle` paint exactly the
/// pixels of the buffer whose offset from the centre lies on the shape, and
/// leave every other pixel as it was.
pub proof fn law_shape_paints_exactly(
    p: Seq<u8>,
    buf_w: u32,
    buf_h: u32,
    cx: i32,
    cy: i32,
    r: i32,
    ring: bool,
    c: Rgba,
    px: int,
    py: int,
    k: int,
)
    requires
        fits(p.len() as int, buf_w * 4, buf_w, buf_h),
        buf_w <= i32::MAX,
        buf_h <= i32::MAX,
        c.a == 255,
        shape_ok(cx as int, cy as int, r as int),
        0 <= px < buf_w,
        0 <= py < buf_h,
        0 <= k < 4,
    ensures
        ({
            let q = shape_spec(p, buf_w * 4, buf_w, buf_h, cx as int, cy as int, r as int, ring, c);
            let i = py * (buf_w * 4) + px * 4 + k;
            let (dx, dy) = (px - cx, py - cy);
            &&& q.len() == p.len()
            &&& q[i] == (if -r <= dx <= r && -r <= dy <= r && in_shape(ring, dx, dy, r as int) {
                color_byte(c, k)
            } else {
                p[i]
            })
        }),
{
    lemma_shape_rows_effect(p, buf_w, buf_h, cx as int, cy as int, r as int, ring, r + 1, c, px, py, k);
}

} // verus!
