//! The lock screen's state machine and the shapes of its surface.
//!
//! The password is typed into a masked field; Enter hands it to the PAM
//! worker and blocks input until the answer comes back. Success unlocks and
//! exits 0; a failure clears the field, counts the attempt and throttles the
//! next one. If the compositor drops the lock the client exits 1.

use vstd::prelude::*;
use vstd::utf8::encode_utf8;
use crate::keymap::{pop_char, pop_last_char, KeyAction};
use crate::panel::{fill_circle, lemma_shape_keeps_len, shape_spec};
use crate::pixels::{fits, lemma_fill_rect_keeps_len, lemma_fits_in_bounds, clear, clear_spec, div_trunc, div_trunc_i32, fill_rect, fill_rect_spec, hline, Rgba};
use crate::text::{decimal, decimal_string, repeat_seq, repeat_str};

verus! {

/// The PAM worker's answer.
#[derive(Debug, Clone)]
pub enum AuthResult {
    Success,
    Fail(String),
}

/// Credentials handed to the PAM worker (which answers on its own channel).
#[derive(Debug, Clone)]
pub struct AuthRequest {
    pub username: String,
    pub password: String,
}

/// What the event loop does after the lock state changed.
pub enum LockEffect {
    Nothing,
    /// Repaint every lock surface.
    Repaint,
    /// Repaint, then hand the request to the PAM worker.
    Authenticate(AuthRequest),
    /// Unlock the session (unlock and destroy the lock object); the client
    /// then quits with exit code 0.
    Unlock,
    /// Repaint, then wait a moment before accepting the next attempt.
    RepaintAndThrottle,
}

/// Pause after a failed attempt, in milliseconds.
pub const FAIL_THROTTLE_MS: u64 = 120;

pub struct LockState {
    pub username: String,
    pub password: String,
    pub fail_count: u32,
    pub pending: bool,
    pub locked: bool,
    pub should_quit: bool,
    pub exit_code: i32,
}

/// Bytes of `s` in UTF-8.
pub open spec fn byte_len(s: Seq<char>) -> nat {
    encode_utf8(s).len()
}

/// What [`LockState::submit_password`] does, from state `a` to state `b`
/// with effect `e`.
pub open spec fn submit_post(a: LockState, b: LockState, e: LockEffect) -> bool {
    if a.password@.len() == 0 || a.pending {
        e is Nothing && b == a
    } else {
        &&& e matches LockEffect::Authenticate(req) && req.username@ == a.username@ && req.password@ == a.password@
        &&& b.password@.len() == 0
        &&& b == (LockState { password: b.password, pending: true, ..a })
    }
}

impl LockState {
    /// A fresh lock screen for `username`.
    pub fn new(username: String) -> (r: Self)
        ensures
            r.username@ == username@,
            r.password@.len() == 0,
            r.fail_count == 0,
            !r.pending,
            !r.locked,
            !r.should_quit,
            r.exit_code == 0,
    {
        LockState {
            username,
            password: String::new(),
            fail_count: 0,
            pending: false,
            locked: false,
            should_quit: false,
            exit_code: 0,
        }
    }

    /// Enter: an empty password, or one already being checked, is ignored;
    /// otherwise the typed password leaves the field and goes to the worker.
    pub fn submit_password(&mut self) -> (e: LockEffect)
        ensures
            submit_post(*old(self), *final(self), e),
    {
        if self.password.as_str().is_empty() || self.pending {
            return LockEffect::Nothing;
        }
        self.pending = true;
        let mut password = String::new();
        std::mem::swap(&mut password, &mut self.password);
        LockEffect::Authenticate(AuthRequest { username: self.username.clone(), password })
    }

    /// An editing key.
    pub fn handle_action(&mut self, action: KeyAction) -> (e: LockEffect)
        ensures
            action == KeyAction::Enter ==> submit_post(*old(self), *final(self), e),
            action == KeyAction::Backspace ==> e is Repaint && final(self).password@ == pop_char(old(self).password@)
                && *final(self) == (LockState { password: final(self).password, ..*old(self) }),
            action == KeyAction::Escape ==> e is Repaint && final(self).password@.len() == 0
                && *final(self) == (LockState { password: final(self).password, ..*old(self) }),
            !(action == KeyAction::Enter || action == KeyAction::Backspace || action == KeyAction::Escape) ==> e is Nothing
                && *final(self) == *old(self),
    {
        match action {
            KeyAction::Enter => self.submit_password(),
            KeyAction::Backspace => {
                self.password = pop_last_char(&self.password);
                LockEffect::Repaint
            },
            KeyAction::Escape => {
                self.password = String::new();
                LockEffect::Repaint
            },
            _ => LockEffect::Nothing,
        }
    }

    /// Typed text joins the password unless a check is pending.
    pub fn handle_text(&mut self, text: &str) -> (e: LockEffect)
        ensures
            old(self).pending ==> e is Nothing && *final(self) == *old(self),
            !old(self).pending ==> e is Repaint && final(self).password@ == old(self).password@ + text@
                && *final(self) == (LockState { password: final(self).password, ..*old(self) }),
    {
        if self.pending {
            return LockEffect::Nothing;
        }
        self.password.append(text);
        LockEffect::Repaint
    }

    /// The worker's answer: success unlocks and quits with 0; a failure
    /// counts the attempt, clears the field and throttles.
    pub fn auth_result(&mut self, result: AuthResult) -> (e: LockEffect)
        requires
            old(self).fail_count < u32::MAX,
        ensures
            result is Success ==> e is Unlock && *final(self) == (LockState {
                pending: false,
                should_quit: true,
                exit_code: 0,
                ..*old(self)
            }),
            result is Fail ==> {
                &&& e is RepaintAndThrottle
                &&& final(self).password@.len() == 0
                &&& *final(self) == (LockState {
                    pending: false,
                    fail_count: (old(self).fail_count + 1) as u32,
                    password: final(self).password,
                    ..*old(self)
                })
            },
    {
        self.pending = false;
        match result {
            AuthResult::Success => {
                self.should_quit = true;
                self.exit_code = 0;
                LockEffect::Unlock
            },
            AuthResult::Fail(_reason) => {
                self.fail_count = self.fail_count + 1;
                self.password = String::new();
                LockEffect::RepaintAndThrottle
            },
        }
    }

    /// The compositor confirmed the lock: lock surfaces are created for
    /// every known output from now on.
    pub fn locked_confirmed(&mut self)
        ensures
            *final(self) == (LockState { locked: true, ..*old(self) }),
    {
        self.locked = true;
    }

    /// The compositor refused or dropped the lock: quit with 1 so the
    /// service manager starts the lock screen again.
    pub fn lock_finished(&mut self)
        ensures
            *final(self) == (LockState { should_quit: true, exit_code: 1, ..*old(self) }),
    {
        self.should_quit = true;
        self.exit_code = 1;
    }
}

// ---------------------------------------------------------------------------
// Texts.

/// Most bullets the password field shows.
pub const LOCK_MASK_MAX: usize = 32;

/// `n` bullets, at most `max`.
pub open spec fn mask_text(n: nat, max: nat) -> Seq<char> {
    repeat_seq("\u{2022}"@, if n < max { n } else { max })
}

/// The password field's bullets: one per byte of the password, at most
/// `max`.
pub fn mask(password: &str, max: usize) -> (r: String)
    ensures
        r@ == mask_text(byte_len(password@), max as nat),
{
    let n = password.as_bytes().len();
    let k = if n < max { n } else { max };
    repeat_str("\u{2022}", k)
}

/// The failure line: none before a failure, `Incorrect password` after the
/// first, `N failed attempts` after more.
pub open spec fn fail_text(fail_count: u32) -> Option<Seq<char>> {
    if fail_count == 0 {
        None
    } else if fail_count == 1 {
        Some("Incorrect password"@)
    } else {
        Some(decimal(fail_count as nat) + " failed attempts"@)
    }
}

pub fn fail_label(fail_count: u32) -> (r: Option<String>)
    ensures
        match fail_text(fail_count) {
            Some(t) => r matches Some(s) && s@ == t,
            None => r is None,
        },
{
    if fail_count == 0 {
        None
    } else if fail_count == 1 {
        Some(String::from_str("Incorrect password"))
    } else {
        let mut s = decimal_string(fail_count as u64);
        s.append(" failed attempts");
        Some(s)
    }
}

// ---------------------------------------------------------------------------
// Shapes.

/// Colours of the lock surface.
#[derive(Debug, Clone, Copy, PartialEq, Eq, Structural)]
pub struct LockPalette {
    pub bg: Rgba,
    pub surface_2: Rgba,
    pub surface_3: Rgba,
    pub surface_4: Rgba,
    pub divider: Rgba,
    pub accent: Rgba,
    pub text_disabled: Rgba,
}

pub const LOCK_PANEL_W: u32 = 420;
pub const LOCK_PANEL_H: u32 = 240;

/// Top-left corner of the centred panel.
pub open spec fn lock_origin(buf_w: u32, buf_h: u32) -> (int, int) {
    (div_trunc(buf_w - LOCK_PANEL_W, 2), div_trunc(buf_h - LOCK_PANEL_H, 2))
}

/// The lock surface's shapes: background, the panel with a divider at its
/// top and bottom edge, the avatar (a disk of radius 28 with an accent dot of
/// radius 8, 56 px below the panel's top), and the password field with its
/// underline (dimmed while a check is pending).
pub open spec fn lock_shapes_spec(p: Seq<u8>, buf_w: u32, buf_h: u32, pending: bool, pal: LockPalette) -> Seq<u8> {
    let stride = buf_w * 4;
    let (px, py) = lock_origin(buf_w, buf_h);
    let s1 = clear_spec(p, pal.bg);
    let s2 = fill_rect_spec(s1, stride, buf_w, buf_h, px as i32, py as i32, LOCK_PANEL_W, LOCK_PANEL_H, pal.surface_2);
    let s3 = fill_rect_spec(s2, stride, buf_w, buf_h, px as i32, py as i32, LOCK_PANEL_W, 1, pal.divider);
    let s4 = fill_rect_spec(s3, stride, buf_w, buf_h, px as i32, (py + 239) as i32, LOCK_PANEL_W, 1, pal.divider);
    let s5 = shape_spec(s4, stride, buf_w, buf_h, px + 210, py + 56, 28, false, pal.surface_4);
    let s6 = shape_spec(s5, stride, buf_w, buf_h, px + 210, py + 56, 8, false, pal.accent);
    let s7 = fill_rect_spec(s6, stride, buf_w, buf_h, (px + 32) as i32, (py + 130) as i32, 356, 36, pal.surface_3);
    fill_rect_spec(
        s7,
        stride,
        buf_w,
        buf_h,
        (px + 32) as i32,
        (py + 166) as i32,
        356,
        1,
        if pending { pal.text_disabled } else { pal.accent },
    )
}

/// Draws the lock surface's shapes (see [`lock_shapes_spec`]); the texts go
/// on top.
pub fn paint_lock_shapes(pixels: &mut Vec<u8>, stride: usize, buf_w: u32, buf_h: u32, pending: bool, pal: &LockPalette)
    requires
        fits(old(pixels)@.len() as int, stride as int, buf_w, buf_h),
        buf_w <= i32::MAX,
        buf_h <= i32::MAX,
    ensures
        final(pixels)@ == lock_shapes_spec(old(pixels)@, buf_w, buf_h, pending, *pal),
{
    let ghost len = old(pixels)@.len();
    clear(pixels, pal.bg);
    let px = div_trunc_i32(buf_w as i32 - 420, 2);
    let py = div_trunc_i32(buf_h as i32 - 240, 2);
    let ghost s1 = pixels@;
    proof {
        lemma_fits_in_bounds(len as int, stride as int, buf_w, buf_h, px, py, 420, 240);
        lemma_fill_rect_keeps_len(s1, stride as int, buf_w, buf_h, px, py, 420, 240, pal.surface_2);
    }
    fill_rect(pixels, stride, buf_w, buf_h, px, py, 420, 240, pal.surface_2);
    let ghost s2 = pixels@;
    proof {
        lemma_fits_in_bounds(len as int, stride as int, buf_w, buf_h, px, py, 420, 1);
        lemma_fill_rect_keeps_len(s2, stride as int, buf_w, buf_h, px, py, 420, 1, pal.divider);
    }
    hline(pixels, stride, buf_w, buf_h, py, px, px + 420, pal.divider);
    let ghost s3 = pixels@;
    proof {
        lemma_fits_in_bounds(len as int, stride as int, buf_w, buf_h, px, (py + 239) as i32, 420, 1);
        lemma_fill_rect_keeps_len(s3, stride as int, buf_w, buf_h, px, (py + 239) as i32, 420, 1, pal.divider);
    }
    hline(pixels, stride, buf_w, buf_h, py + 239, px, px + 420, pal.divider);
    let cx = px + 210;
    let cy = py + 56;
    let ghost s4 = pixels@;
    fill_circle(pixels, stride, buf_w, buf_h, cx, cy, 28, pal.surface_4);
    let ghost s5 = pixels@;
    proof {
        lemma_shape_keeps_len(s4, stride as int, buf_w, buf_h, cx as int, cy as int, 28, false, pal.surface_4);
    }
    fill_circle(pixels, stride, buf_w, buf_h, cx, cy, 8, pal.accent);
    let ghost s6 = pixels@;
    proof {
        lemma_shape_keeps_len(s5, stride as int, buf_w, buf_h, cx as int, cy as int, 8, false, pal.accent);
        lemma_fits_in_bounds(len as int, stride as int, buf_w, buf_h, (px + 32) as i32, (py + 130) as i32, 356, 36);
        lemma_fill_rect_keeps_len(s6, stride as int, buf_w, buf_h, (px + 32) as i32, (py + 130) as i32, 356, 36, pal.surface_3);
    }
    fill_rect(pixels, stride, buf_w, buf_h, (px + 32) as i32, (py + 130) as i32, 356, 36, pal.surface_3);
    let underline = if pending { pal.text_disabled } else { pal.accent };
    proof {
        lemma_fits_in_bounds(len as int, stride as int, buf_w, buf_h, (px + 32) as i32, (py + 166) as i32, 356, 1);
    }
    hline(pixels, stride, buf_w, buf_h, py + 166, px + 32, px + 32 + 356, underline);
}

} // verus!
