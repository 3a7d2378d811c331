//! The greeter's login flow against greetd, and the shapes of its surface.
//!
//! 1. `CreateSession { username }` is answered with an auth message (a
//!    prompt), success or an error.
//! 2. The answer to a prompt goes back with `PostAuthMessageResponse`.
//! 3. On success `StartSession` runs the session command and the greeter
//!    exits; on an error the session is cancelled and input starts over.

use vstd::prelude::*;
use crate::keymap::{pop_char, pop_last_char, KeyAction};
use crate::lock::{byte_len, mask, mask_text};
use crate::pixels::{fits, lemma_fill_rect_keeps_len, lemma_fits_in_bounds, clear, clear_spec, div_trunc, div_trunc_i32, fill_rect, fill_rect_spec, hline, Rgba};
use crate::text::chars_of;

verus! {

/// Which field receives typed text.
#[derive(Debug, Clone, Copy, PartialEq, Eq, Structural)]
pub enum FocusedField {
    Username,
    Password,
}

/// Kind of a greetd auth message.
#[derive(Debug, Clone, Copy, PartialEq, Eq, Structural)]
pub enum AuthMessageKind {
    Visible,
    Secret,
    Info,
    Error,
}

/// Kind of a greetd error.
#[derive(Debug, Clone, Copy, PartialEq, Eq, Structural)]
pub enum GreetdErrorKind {
    AuthError,
    Error,
}

/// A reply from greetd.
#[derive(Debug, Clone)]
pub enum GreetdReply {
    Success,
    AuthMessage { kind: AuthMessageKind, message: String },
    Error { kind: GreetdErrorKind, description: String },
}

/// What a reply means for the login flow.
#[derive(Debug, Clone)]
pub enum FlowOutcome {
    Prompt(String, AuthMessageKind),
    Success,
    Failure(String),
    Cancelled,
}

/// The failure text of an error reply: `auth: …` or `error: …`.
pub open spec fn failure_text(kind: GreetdErrorKind, description: Seq<char>) -> Seq<char> {
    (match kind {
        GreetdErrorKind::AuthError => "auth"@,
        GreetdErrorKind::Error => "error"@,
    }) + ": "@ + description
}

pub fn classify(reply: GreetdReply) -> (r: FlowOutcome)
    ensures
        match reply {
            GreetdReply::Success => r is Success,
            GreetdReply::AuthMessage { kind, message } => r matches FlowOutcome::Prompt(t, k) && t@ == message@ && k == kind,
            GreetdReply::Error { kind, description } => r matches FlowOutcome::Failure(t) && t@ == failure_text(kind, description@),
        },
{
    match reply {
        GreetdReply::Success => FlowOutcome::Success,
        GreetdReply::AuthMessage { kind, message } => FlowOutcome::Prompt(message, kind),
        GreetdReply::Error { kind, description } => {
            let mut t = match kind {
                GreetdErrorKind::AuthError => String::from_str("auth"),
                GreetdErrorKind::Error => String::from_str("error"),
            };
            t.append(": ");
            t.append(description.as_str());
            FlowOutcome::Failure(t)
        },
    }
}

/// A request to greetd.
#[derive(Debug, Clone)]
pub enum GreetdRequest {
    CreateSession { username: String },
    PostAuthMessageResponse { response: Option<String> },
    StartSession { cmd: Vec<String> },
    CancelSession,
}

/// The command greetd runs for the session.
pub open spec fn session_cmd() -> Seq<Seq<char>> {
    seq!["/usr/bin/frame"@]
}

/// What the event loop does next.
pub enum GreetCommand {
    /// Nothing; not even a redraw.
    Idle,
    Redraw,
    /// Connect to greetd, then report with [`GreetState::connected`] or
    /// [`GreetState::connect_failed`].
    Connect,
    /// Send the request, read the reply and report it with
    /// [`GreetState::finish_submit`].
    Exchange(GreetdRequest),
    /// Send the request (its reply is not looked at), then redraw.
    SendThenRedraw(GreetdRequest),
}

pub struct GreetState {
    pub username: String,
    pub password: String,
    pub prompt: Option<String>,
    pub error: Option<String>,
    pub focus: FocusedField,
    pub pending: bool,
    pub awaiting_response: bool,
    pub connected: bool,
    pub should_close: bool,
    /// Surface size, and whether the compositor configured the surface yet.
    pub width: u32,
    pub height: u32,
    pub configured: bool,
}

/// Size of the greeter's surface before the compositor configures it.
pub const GREET_W: u32 = 1920;
pub const GREET_H: u32 = 1080;

/// Unicode `White_Space`, as `char::is_whitespace`.
pub open spec fn is_white_space(c: char) -> bool {
    ||| ('\u{9}' <= c <= '\u{d}')
    ||| c == ' '
    ||| c == '\u{85}'
    ||| c == '\u{a0}'
    ||| c == '\u{1680}'
    ||| ('\u{2000}' <= c <= '\u{200a}')
    ||| c == '\u{2028}'
    ||| c == '\u{2029}'
    ||| c == '\u{202f}'
    ||| c == '\u{205f}'
    ||| c == '\u{3000}'
}

/// Whether `s` trims to nothing.
pub open spec fn blank(s: Seq<char>) -> bool {
    forall|i: int| 0 <= i < s.len() ==> is_white_space(#[trigger] s[i])
}

fn white_space(c: char) -> (r: bool)
    ensures
        r == is_white_space(c),
{
    ('\u{9}' <= c && c <= '\u{d}') || c == ' ' || c == '\u{85}' || c == '\u{a0}' || c == '\u{1680}' || ('\u{2000}' <= c
        && c <= '\u{200a}') || c == '\u{2028}' || c == '\u{2029}' || c == '\u{202f}' || c == '\u{205f}' || c
        == '\u{3000}'
}

pub fn is_blank(s: &str) -> (r: bool)
    ensures
        r == blank(s@),
{
    let cs = chars_of(s);
    let mut i: usize = 0;
    while i < cs.len()
        invariant
            i <= cs@.len(),
            cs@ == s@,
            forall|k: int| 0 <= k < i ==> is_white_space(#[trigger] s@[k]),
        decreases cs@.len() - i,
    {
        if !white_space(cs[i]) {
            return false;
        }
        i = i + 1;
    }
    true
}

/// The view of an optional text.
pub open spec fn opt_text(o: Option<String>) -> Option<Seq<char>> {
    match o {
        Some(s) => Some(s@),
        None => None,
    }
}

/// What [`GreetState::submit`] does, from state `a` to state `b` with
/// command `c`.
pub open spec fn submit_post(a: GreetState, b: GreetState, c: GreetCommand) -> bool {
    if a.pending {
        c is Idle && b == a
    } else if blank(a.username@) && a.focus == FocusedField::Username {
        &&& c is Redraw
        &&& opt_text(b.error) == Some("username required"@)
        &&& b == (GreetState { error: b.error, ..a })
    } else if !a.connected {
        c is Connect && b == a
    } else if !a.awaiting_response {
        &&& c matches GreetCommand::Exchange(GreetdRequest::CreateSession { username }) && username@ == a.username@
        &&& b == (GreetState { pending: true, ..a })
    } else {
        &&& c matches GreetCommand::Exchange(GreetdRequest::PostAuthMessageResponse { response }) && (if a.password@.len()
            == 0 {
            response is None
        } else {
            response matches Some(p) && p@ == a.password@
        })
        &&& b.password@.len() == 0
        &&& b == (GreetState { pending: true, password: b.password, ..a })
    }
}

impl GreetState {
    pub fn new() -> (r: Self)
        ensures
            r.username@.len() == 0,
            r.password@.len() == 0,
            r.prompt is None,
            r.error is None,
            r.focus == FocusedField::Username,
            !r.pending,
            !r.awaiting_response,
            !r.connected,
            !r.should_close,
            r.width == GREET_W,
            r.height == GREET_H,
            !r.configured,
    {
        GreetState {
            username: String::new(),
            password: String::new(),
            prompt: None,
            error: None,
            focus: FocusedField::Username,
            pending: false,
            awaiting_response: false,
            connected: false,
            should_close: false,
            width: GREET_W,
            height: GREET_H,
            configured: false,
        }
    }

    /// The toplevel's suggested size: a positive dimension replaces the
    /// current one, zero or less keeps it.
    pub fn toplevel_configure(&mut self, width: i32, height: i32)
        ensures
            *final(self) == (GreetState {
                width: if width > 0 { width as u32 } else { old(self).width },
                height: if height > 0 { height as u32 } else { old(self).height },
                ..*old(self)
            }),
    {
        if width > 0 {
            self.width = width as u32;
        }
        if height > 0 {
            self.height = height as u32;
        }
    }

    /// The surface was configured: from now on it is drawn.
    pub fn surface_configured(&mut self) -> (c: GreetCommand)
        ensures
            c is Redraw,
            *final(self) == (GreetState { configured: true, ..*old(self) }),
    {
        self.configured = true;
        GreetCommand::Redraw
    }

    /// The compositor asked the toplevel to close.
    pub fn close_requested(&mut self)
        ensures
            *final(self) == (GreetState { should_close: true, ..*old(self) }),
    {
        self.should_close = true;
    }

    /// Enter on the password field (or while answering a prompt): checks the
    /// input and produces the next request. Ignored while a request is
    /// pending; a blank username with the username field focused is an
    /// error; without a connection greetd is connected first.
    pub fn submit(&mut self) -> (c: GreetCommand)
        ensures
            submit_post(*old(self), *final(self), c),
    {
        if self.pending {
            return GreetCommand::Idle;
        }
        if is_blank(self.username.as_str()) && self.focus == FocusedField::Username {
            self.error = Some(String::from_str("username required"));
            return GreetCommand::Redraw;
        }
        if !self.connected {
            return GreetCommand::Connect;
        }
        self.pending = true;
        if !self.awaiting_response {
            GreetCommand::Exchange(GreetdRequest::CreateSession { username: self.username.clone() })
        } else {
            let mut pw = String::new();
            std::mem::swap(&mut pw, &mut self.password);
            let response = if pw.as_str().is_empty() { None } else { Some(pw) };
            GreetCommand::Exchange(GreetdRequest::PostAuthMessageResponse { response })
        }
    }

    /// The connection to greetd is up; the submission goes on.
    pub fn connected(&mut self) -> (c: GreetCommand)
        ensures
            submit_post(GreetState { connected: true, ..*old(self) }, *final(self), c),
    {
        self.connected = true;
        self.submit()
    }

    /// Connecting failed with `reason`.
    pub fn connect_failed(&mut self, reason: &str) -> (c: GreetCommand)
        ensures
            c is Redraw,
            opt_text(final(self).error) == Some("greetd unreachable: "@ + reason@),
            *final(self) == (GreetState { error: final(self).error, connected: false, ..*old(self) }),
    {
        let mut e = String::from_str("greetd unreachable: ");
        e.append(reason);
        self.error = Some(e);
        self.connected = false;
        GreetCommand::Redraw
    }

    /// The reply to a submitted request (`Err` carries the protocol error's
    /// text). A prompt asks for the password; success starts the session and
    /// closes; a failure shows the reason, clears the password and cancels
    /// the session. The surface is redrawn afterwards in every case.
    pub fn finish_submit(&mut self, outcome: Result<FlowOutcome, String>) -> (c: GreetCommand)
        ensures
            match outcome {
                Ok(FlowOutcome::Prompt(text, _kind)) => {
                    &&& c is Redraw
                    &&& opt_text(final(self).prompt) == Some(text@)
                    &&& *final(self) == (GreetState {
                        prompt: final(self).prompt,
                        awaiting_response: true,
                        focus: FocusedField::Password,
                        error: None,
                        pending: false,
                        ..*old(self)
                    })
                },
                Ok(FlowOutcome::Success) => {
                    &&& c matches GreetCommand::SendThenRedraw(GreetdRequest::StartSession { cmd }) && cmd.deep_view() == session_cmd()
                    &&& *final(self) == (GreetState { should_close: true, ..*old(self) })
                },
                Ok(FlowOutcome::Failure(reason)) => {
                    &&& c matches GreetCommand::SendThenRedraw(GreetdRequest::CancelSession)
                    &&& opt_text(final(self).error) == Some(reason@)
                    &&& final(self).password@.len() == 0
                    &&& *final(self) == (GreetState {
                        error: final(self).error,
                        password: final(self).password,
                        awaiting_response: false,
                        focus: FocusedField::Password,
                        pending: false,
                        ..*old(self)
                    })
                },
                Ok(FlowOutcome::Cancelled) => {
                    &&& c is Redraw
                    &&& *final(self) == (GreetState { pending: false, ..*old(self) })
                },
                Err(e) => {
                    &&& c is Redraw
                    &&& opt_text(final(self).error) == Some("greetd protocol error: "@ + e@)
                    &&& *final(self) == (GreetState { error: final(self).error, pending: false, ..*old(self) })
                },
            },
    {
        match outcome {
            Ok(FlowOutcome::Prompt(text, _kind)) => {
                self.prompt = Some(text);
                self.awaiting_response = true;
                self.focus = FocusedField::Password;
                self.error = None;
                self.pending = false;
                GreetCommand::Redraw
            },
            Ok(FlowOutcome::Success) => {
                self.should_close = true;
                let mut cmd: Vec<String> = Vec::new();
                cmd.push(String::from_str("/usr/bin/frame"));
                proof {
                    assert(cmd.deep_view() =~= session_cmd());
                }
                GreetCommand::SendThenRedraw(GreetdRequest::StartSession { cmd })
            },
            Ok(FlowOutcome::Failure(reason)) => {
                self.error = Some(reason);
                self.password = String::new();
                self.awaiting_response = false;
                self.focus = FocusedField::Password;
                self.pending = false;
                GreetCommand::SendThenRedraw(GreetdRequest::CancelSession)
            },
            Ok(FlowOutcome::Cancelled) => {
                self.pending = false;
                GreetCommand::Redraw
            },
            Err(e) => {
                let mut msg = String::from_str("greetd protocol error: ");
                msg.append(e.as_str());
                self.error = Some(msg);
                self.pending = false;
                GreetCommand::Redraw
            },
        }
    }

    /// An editing key. Tab switches fields; Backspace edits the focused
    /// field; Enter on the username moves to the password unless a prompt is
    /// being answered, otherwise it submits; Escape clears both fields, the
    /// prompt state and the error, and cancels a greetd session.
    pub fn handle_action(&mut self, action: KeyAction) -> (c: GreetCommand)
        ensures
            action == KeyAction::Tab ==> c is Redraw && *final(self) == (GreetState {
                focus: match old(self).focus {
                    FocusedField::Username => FocusedField::Password,
                    FocusedField::Password => FocusedField::Username,
                },
                ..*old(self)
            }),
            action == KeyAction::Backspace ==> c is Redraw && (match old(self).focus {
                FocusedField::Username => final(self).username@ == pop_char(old(self).username@)
                    && *final(self) == (GreetState { username: final(self).username, ..*old(self) }),
                FocusedField::Password => final(self).password@ == pop_char(old(self).password@)
                    && *final(self) == (GreetState { password: final(self).password, ..*old(self) }),
            }),
            action == KeyAction::Enter && old(self).focus == FocusedField::Username && !old(self).awaiting_response
                ==> c is Redraw && *final(self) == (GreetState { focus: FocusedField::Password, ..*old(self) }),
            action == KeyAction::Enter && !(old(self).focus == FocusedField::Username && !old(self).awaiting_response)
                ==> submit_post(*old(self), *final(self), c),
            action == KeyAction::Escape ==> {
                &&& final(self).username@.len() == 0
                &&& final(self).password@.len() == 0
                &&& *final(self) == (GreetState {
                    username: final(self).username,
                    password: final(self).password,
                    awaiting_response: false,
                    error: None,
                    ..*old(self)
                })
                &&& (if old(self).connected {
                    c matches GreetCommand::SendThenRedraw(GreetdRequest::CancelSession)
                } else {
                    c is Redraw
                })
            },
            (action == KeyAction::Up || action == KeyAction::Down || action == KeyAction::Other) ==> c is Redraw
                && *final(self) == *old(self),
    {
        match action {
            KeyAction::Tab => {
                self.focus = match self.focus {
                    FocusedField::Username => FocusedField::Password,
                    FocusedField::Password => FocusedField::Username,
                };
                GreetCommand::Redraw
            },
            KeyAction::Backspace => {
                match self.focus {
                    FocusedField::Username => {
                        self.username = pop_last_char(&self.username);
                    },
                    FocusedField::Password => {
                        self.password = pop_last_char(&self.password);
                    },
                }
                GreetCommand::Redraw
            },
            KeyAction::Enter => {
                if self.focus == FocusedField::Username && !self.awaiting_response {
                    self.focus = FocusedField::Password;
                    GreetCommand::Redraw
                } else {
                    self.submit()
                }
            },
            KeyAction::Escape => {
                self.username = String::new();
                self.password = String::new();
                self.awaiting_response = false;
                self.error = None;
                if self.connected {
                    GreetCommand::SendThenRedraw(GreetdRequest::CancelSession)
                } else {
                    GreetCommand::Redraw
                }
            },
            _ => GreetCommand::Redraw,
        }
    }

    /// Typed text goes into the focused field, unless a request is pending.
    pub fn handle_text(&mut self, text: &str) -> (c: GreetCommand)
        ensures
            old(self).pending ==> c is Idle && *final(self) == *old(self),
            !old(self).pending ==> c is Redraw && (match old(self).focus {
                FocusedField::Username => final(self).username@ == old(self).username@ + text@
                    && *final(self) == (GreetState { username: final(self).username, ..*old(self) }),
                FocusedField::Password => final(self).password@ == old(self).password@ + text@
                    && *final(self) == (GreetState { password: final(self).password, ..*old(self) }),
            }),
    {
        if self.pending {
            return GreetCommand::Idle;
        }
        match self.focus {
            FocusedField::Username => self.username.append(text),
            FocusedField::Password => self.password.append(text),
        }
        GreetCommand::Redraw
    }
}

/// Tab twice gives the focus back to the field that had it.
pub proof fn law_tab_twice(f: FocusedField)
    ensures
        (match (match f {
            FocusedField::Username => FocusedField::Password,
            FocusedField::Password => FocusedField::Username,
        }) {
            FocusedField::Username => FocusedField::Password,
            FocusedField::Password => FocusedField::Username,
        }) == f,
{
}

// ---------------------------------------------------------------------------
// Texts and shapes.

/// Most bullets the password field shows.
pub const GREET_MASK_MAX: usize = 64;

/// The password field's label: the current prompt, or `Password`.
pub open spec fn password_label_text(prompt: Option<Seq<char>>) -> Seq<char> {
    match prompt {
        Some(p) => p,
        None => "Password"@,
    }
}

pub fn password_label(prompt: &Option<String>) -> (r: String)
    ensures
        r@ == password_label_text(opt_text(*prompt)),
{
    match prompt {
        Some(p) => p.clone(),
        None => String::from_str("Password"),
    }
}

/// The password field's bullets: one per byte, at most 64.
pub fn password_mask(password: &str) -> (r: String)
    ensures
        r@ == mask_text(byte_len(password@), GREET_MASK_MAX as nat),
{
    mask(password, GREET_MASK_MAX)
}

/// Colours of the greeter's surface.
#[derive(Debug, Clone, Copy, PartialEq, Eq, Structural)]
pub struct GreetPalette {
    pub bg: Rgba,
    pub surface_2: Rgba,
    pub surface_3: Rgba,
    pub divider: Rgba,
    pub accent: Rgba,
    pub text_disabled: Rgba,
}

pub const GREET_PANEL_W: u32 = 480;
pub const GREET_PANEL_H: u32 = 320;

/// Top-left corner of the centred panel.
pub open spec fn greet_origin(buf_w: u32, buf_h: u32) -> (int, int) {
    (div_trunc(buf_w - GREET_PANEL_W, 2), div_trunc(buf_h - GREET_PANEL_H, 2))
}

/// The underline of a field: accent when focused (dimmed while pending),
/// the divider colour otherwise.
pub open spec fn field_bar(focused: bool, pending: bool, pal: GreetPalette) -> Rgba {
    if focused {
        if pending { pal.text_disabled } else { pal.accent }
    } else {
        pal.divider
    }
}

/// A field's box and underline at `(x, y)`, 432 x 36.
pub open spec fn field_spec(p: Seq<u8>, buf_w: u32, buf_h: u32, x: int, y: int, bar: Rgba, pal: GreetPalette) -> Seq<u8> {
    let stride = buf_w * 4;
    let s = fill_rect_spec(p, stride, buf_w, buf_h, x as i32, y as i32, 432, 36, pal.surface_3);
    fill_rect_spec(s, stride, buf_w, buf_h, x as i32, (y + 36) as i32, 432, 1, bar)
}

/// The greeter's shapes: background and panel; with text available, also
/// the username and password fields.
pub open spec fn greet_shapes_spec(
    p: Seq<u8>,
    buf_w: u32,
    buf_h: u32,
    has_text: bool,
    focus: FocusedField,
    pending: bool,
    pal: GreetPalette,
) -> Seq<u8> {
    let stride = buf_w * 4;
    let (px, py) = greet_origin(buf_w, buf_h);
    let s1 = clear_spec(p, pal.bg);
    let s2 = fill_rect_spec(s1, stride, buf_w, buf_h, px as i32, py as i32, GREET_PANEL_W, GREET_PANEL_H, pal.surface_2);
    if !has_text {
        s2
    } else {
        let s3 = field_spec(s2, buf_w, buf_h, px + 24, py + 100, field_bar(focus == FocusedField::Username, pending, pal), pal);
        field_spec(s3, buf_w, buf_h, px + 24, py + 170, field_bar(focus == FocusedField::Password, pending, pal), pal)
    }
}

fn paint_field(pixels: &mut Vec<u8>, stride: usize, buf_w: u32, buf_h: u32, x: i32, y: i32, bar: Rgba, pal: &GreetPalette)
    requires
        fits(old(pixels)@.len() as int, stride as int, buf_w, buf_h),
        -0x4000_0000 <= x <= 0x5000_0000,
        -0x4000_0000 <= y <= 0x5000_0000,
    ensures
        final(pixels)@ == field_spec(old(pixels)@, buf_w, buf_h, x as int, y as int, bar, *pal),
        final(pixels)@.len() == old(pixels)@.len(),
{
    let ghost len = old(pixels)@.len();
    let ghost s0 = pixels@;
    proof {
        lemma_fits_in_bounds(len as int, stride as int, buf_w, buf_h, x, y, 432, 36);
        lemma_fill_rect_keeps_len(s0, stride as int, buf_w, buf_h, x, y, 432, 36, pal.surface_3);
    }
    fill_rect(pixels, stride, buf_w, buf_h, x, y, 432, 36, pal.surface_3);
    let ghost s1 = pixels@;
    proof {
        lemma_fits_in_bounds(len as int, stride as int, buf_w, buf_h, x, (y + 36) as i32, 432, 1);
        lemma_fill_rect_keeps_len(s1, stride as int, buf_w, buf_h, x, (y + 36) as i32, 432, 1, bar);
    }
    hline(pixels, stride, buf_w, buf_h, y + 36, x, x + 432, bar);
}

/// Draws the greeter's shapes (see [`greet_shapes_spec`]); the texts go on
/// top.
pub fn paint_greet_shapes(
    pixels: &mut Vec<u8>,
    stride: usize,
    buf_w: u32,
    buf_h: u32,
    has_text: bool,
    focus: FocusedField,
    pending: bool,
    pal: &GreetPalette,
)
    requires
        fits(old(pixels)@.len() as int, stride as int, buf_w, buf_h),
        buf_w <= i32::MAX,
        buf_h <= i32::MAX,
    ensures
        final(pixels)@ == greet_shapes_spec(old(pixels)@, buf_w, buf_h, has_text, focus, pending, *pal),
{
    let ghost len = old(pixels)@.len();
    clear(pixels, pal.bg);
    let px = div_trunc_i32(buf_w as i32 - 480, 2);
    let py = div_trunc_i32(buf_h as i32 - 320, 2);
    let ghost s1 = pixels@;
    proof {
        lemma_fits_in_bounds(len as int, stride as int, buf_w, buf_h, px, py, 480, 320);
        lemma_fill_rect_keeps_len(s1, stride as int, buf_w, buf_h, px, py, 480, 320, pal.surface_2);
    }
    fill_rect(pixels, stride, buf_w, buf_h, px, py, 480, 320, pal.surface_2);
    if !has_text {
        return;
    }
    let user_bar = if focus == FocusedField::Username {
        if pending { pal.text_disabled } else { pal.accent }
    } else {
        pal.divider
    };
    paint_field(pixels, stride, buf_w, buf_h, px + 24, py + 100, user_bar, pal);
    let pass_bar = if focus == FocusedField::Password {
        if pending { pal.text_disabled } else { pal.accent }
    } else {
        pal.divider
    };
    paint_field(pixels, stride, buf_w, buf_h, px + 24, py + 170, pass_bar, pal);
}

} // verus!
