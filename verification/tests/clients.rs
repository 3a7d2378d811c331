use nullxes::greet::{
    classify, is_blank, paint_greet_shapes, password_label, password_mask, AuthMessageKind, FlowOutcome,
    FocusedField, GreetCommand, GreetState, GreetPalette, GreetdErrorKind, GreetdReply, GreetdRequest,
};
use nullxes::keymap::KeyAction;
use nullxes::launcher::apps::xdg_app_dirs;
use nullxes::launcher::draw::{comment_line, paint_overlay_shapes, search_text, OverlayPalette};
use nullxes::lock::{fail_label, mask, paint_lock_shapes, AuthResult, LockEffect, LockState, LockPalette};
use nullxes::notif::{history_path, state_dir};
use nullxes::pixels::Rgba;

fn c(v: u8) -> Rgba {
    Rgba { r: v, g: v, b: v, a: 255 }
}

fn pixel0(buf: &[u8], stride: usize, x: usize, y: usize) -> u8 {
    buf[y * stride + x * 4]
}

#[test]
fn lock_typing_submit_and_failure() {
    let mut m = LockState::new("ada".to_string());
    assert!(matches!(m.handle_action(KeyAction::Enter), LockEffect::Nothing));
    assert!(matches!(m.handle_text("hunter"), LockEffect::Repaint));
    assert!(matches!(m.handle_text("22"), LockEffect::Repaint));
    assert!(matches!(m.handle_action(KeyAction::Backspace), LockEffect::Repaint));
    assert_eq!(m.password, "hunter2");
    match m.handle_action(KeyAction::Enter) {
        LockEffect::Authenticate(req) => {
            assert_eq!(req.username, "ada");
            assert_eq!(req.password, "hunter2");
        }
        _ => panic!("expected an authentication request"),
    }
    assert!(m.pending);
    assert!(m.password.is_empty());
    // Input is ignored while the check is pending.
    assert!(matches!(m.handle_text("x"), LockEffect::Nothing));
    assert!(matches!(m.handle_action(KeyAction::Enter), LockEffect::Nothing));
    assert!(m.password.is_empty());
    assert!(matches!(m.auth_result(AuthResult::Fail("bad".to_string())), LockEffect::RepaintAndThrottle));
    assert_eq!(m.fail_count, 1);
    assert!(!m.pending);
    m.handle_text("abc");
    assert!(matches!(m.handle_action(KeyAction::Escape), LockEffect::Repaint));
    assert!(m.password.is_empty());
}

#[test]
fn lock_success_and_finish() {
    let mut m = LockState::new("ada".to_string());
    m.locked_confirmed();
    assert!(m.locked);
    m.handle_text("pw");
    m.handle_action(KeyAction::Enter);
    assert!(matches!(m.auth_result(AuthResult::Success), LockEffect::Unlock));
    assert!(m.should_quit);
    assert_eq!(m.exit_code, 0);
    let mut n = LockState::new("ada".to_string());
    n.lock_finished();
    assert!(n.should_quit);
    assert_eq!(n.exit_code, 1);
}

#[test]
fn lock_texts() {
    assert_eq!(fail_label(0), None);
    assert_eq!(fail_label(1).as_deref(), Some("Incorrect password"));
    assert_eq!(fail_label(3).as_deref(), Some("3 failed attempts"));
    assert_eq!(mask("abc", 32), "\u{2022}\u{2022}\u{2022}");
    // One bullet per byte, capped.
    assert_eq!(mask("\u{e9}", 32).chars().count(), 2);
    assert_eq!(mask(&"x".repeat(40), 32).chars().count(), 32);
}

#[test]
fn lock_shapes() {
    let (w, h) = (500u32, 300u32);
    let stride = (w * 4) as usize;
    let pal = LockPalette {
        bg: c(1),
        surface_2: c(2),
        surface_3: c(3),
        surface_4: c(4),
        divider: c(5),
        accent: c(6),
        text_disabled: c(7),
    };
    let mut buf = vec![0u8; (w * h * 4) as usize];
    paint_lock_shapes(&mut buf, stride, w, h, false, &pal);
    // Panel at (40, 30), 420 x 240.
    assert_eq!(pixel0(&buf, stride, 10, 10), 1);
    assert_eq!(pixel0(&buf, stride, 45, 100), 2);
    assert_eq!(pixel0(&buf, stride, 45, 30), 5);
    assert_eq!(pixel0(&buf, stride, 45, 269), 5);
    // Avatar centre (250, 86): accent dot, surrounded by the avatar disk.
    assert_eq!(pixel0(&buf, stride, 250, 86), 6);
    assert_eq!(pixel0(&buf, stride, 250, 86 + 20), 4);
    // Field at (72, 160), 356 x 36, underline at y = 196.
    assert_eq!(pixel0(&buf, stride, 80, 170), 3);
    assert_eq!(pixel0(&buf, stride, 80, 196), 6);
    paint_lock_shapes(&mut buf, stride, w, h, true, &pal);
    assert_eq!(pixel0(&buf, stride, 80, 196), 7);
}

#[test]
fn greetd_replies() {
    assert!(matches!(classify(GreetdReply::Success), FlowOutcome::Success));
    match classify(GreetdReply::AuthMessage { kind: AuthMessageKind::Secret, message: "Password:".to_string() }) {
        FlowOutcome::Prompt(t, k) => {
            assert_eq!(t, "Password:");
            assert_eq!(k, AuthMessageKind::Secret);
        }
        _ => panic!("expected a prompt"),
    }
    match classify(GreetdReply::Error { kind: GreetdErrorKind::AuthError, description: "denied".to_string() }) {
        FlowOutcome::Failure(t) => assert_eq!(t, "auth: denied"),
        _ => panic!("expected a failure"),
    }
    match classify(GreetdReply::Error { kind: GreetdErrorKind::Error, description: "x".to_string() }) {
        FlowOutcome::Failure(t) => assert_eq!(t, "error: x"),
        _ => panic!("expected a failure"),
    }
}

#[test]
fn greeter_login_flow() {
    let mut g = GreetState::new();
    // Blank username on the username field is refused.
    g.handle_text("  ");
    assert!(matches!(g.submit(), GreetCommand::Redraw));
    assert_eq!(g.error.as_deref(), Some("username required"));
    g.handle_action(KeyAction::Escape);
    g.handle_text("ada");
    // Enter on the username moves to the password field.
    assert!(matches!(g.handle_action(KeyAction::Enter), GreetCommand::Redraw));
    assert_eq!(g.focus, FocusedField::Password);
    // Enter on the password field submits: first a connection is needed.
    assert!(matches!(g.handle_action(KeyAction::Enter), GreetCommand::Connect));
    match g.connected() {
        GreetCommand::Exchange(GreetdRequest::CreateSession { username }) => assert_eq!(username, "ada"),
        _ => panic!("expected CreateSession"),
    }
    assert!(g.pending);
    assert!(matches!(g.handle_text("x"), GreetCommand::Idle));
    let c = g.finish_submit(Ok(FlowOutcome::Prompt("Password:".to_string(), AuthMessageKind::Secret)));
    assert!(matches!(c, GreetCommand::Redraw));
    assert!(g.awaiting_response && !g.pending);
    assert_eq!(password_label(&g.prompt), "Password:");
    g.handle_text("pw");
    match g.handle_action(KeyAction::Enter) {
        GreetCommand::Exchange(GreetdRequest::PostAuthMessageResponse { response }) => {
            assert_eq!(response.as_deref(), Some("pw"))
        }
        _ => panic!("expected PostAuthMessageResponse"),
    }
    assert!(g.password.is_empty());
    match g.finish_submit(Ok(FlowOutcome::Failure("auth: denied".to_string()))) {
        GreetCommand::SendThenRedraw(GreetdRequest::CancelSession) => {}
        _ => panic!("expected CancelSession"),
    }
    assert_eq!(g.error.as_deref(), Some("auth: denied"));
    assert!(!g.awaiting_response && !g.pending);
    // Starting over: CreateSession again, then success starts the session.
    g.handle_action(KeyAction::Enter);
    g.finish_submit(Ok(FlowOutcome::Prompt("Password:".to_string(), AuthMessageKind::Secret)));
    g.handle_action(KeyAction::Enter);
    match g.finish_submit(Ok(FlowOutcome::Success)) {
        GreetCommand::SendThenRedraw(GreetdRequest::StartSession { cmd }) => assert_eq!(cmd, vec!["/usr/bin/frame"]),
        _ => panic!("expected StartSession"),
    }
    assert!(g.should_close);
}

#[test]
fn greeter_errors_and_keys() {
    let mut g = GreetState::new();
    g.handle_text("bob");
    g.handle_action(KeyAction::Tab);
    assert_eq!(g.focus, FocusedField::Password);
    g.handle_action(KeyAction::Tab);
    assert_eq!(g.focus, FocusedField::Username);
    g.handle_action(KeyAction::Backspace);
    assert_eq!(g.username, "bo");
    assert!(matches!(g.submit(), GreetCommand::Connect));
    assert!(matches!(g.connect_failed("GREETD_SOCK not set"), GreetCommand::Redraw));
    assert_eq!(g.error.as_deref(), Some("greetd unreachable: GREETD_SOCK not set"));
    g.connected();
    assert!(matches!(g.finish_submit(Err("broken pipe".to_string())), GreetCommand::Redraw));
    assert_eq!(g.error.as_deref(), Some("greetd protocol error: broken pipe"));
    assert!(matches!(g.handle_action(KeyAction::Escape), GreetCommand::SendThenRedraw(GreetdRequest::CancelSession)));
    assert!(g.username.is_empty() && g.error.is_none());
    assert!(is_blank(" \t\u{3000}") && !is_blank(" a "));
    assert_eq!(password_label(&None), "Password");
    assert_eq!(password_mask(&"y".repeat(70)).chars().count(), 64);
}

#[test]
fn greeter_shapes() {
    let (w, h) = (600u32, 400u32);
    let stride = (w * 4) as usize;
    let pal = GreetPalette { bg: c(1), surface_2: c(2), surface_3: c(3), divider: c(4), accent: c(5), text_disabled: c(6) };
    let mut buf = vec![0u8; (w * h * 4) as usize];
    paint_greet_shapes(&mut buf, stride, w, h, false, FocusedField::Username, false, &pal);
    // Panel at (60, 40), 480 x 320; no fields without text.
    assert_eq!(pixel0(&buf, stride, 5, 5), 1);
    assert_eq!(pixel0(&buf, stride, 90, 150), 2);
    paint_greet_shapes(&mut buf, stride, w, h, true, FocusedField::Username, false, &pal);
    // Username field at (84, 140), underline at y = 176; password field at
    // (84, 210), underline at y = 246.
    assert_eq!(pixel0(&buf, stride, 90, 150), 3);
    assert_eq!(pixel0(&buf, stride, 90, 176), 5);
    assert_eq!(pixel0(&buf, stride, 90, 246), 4);
}

#[test]
fn launcher_overlay_shapes_and_texts() {
    let (w, h) = (600u32, 400u32);
    let stride = (w * 4) as usize;
    let pal = OverlayPalette { surface_3: c(1), surface_4: c(2), divider: c(3), selection_bg: c(4), accent: c(5) };
    let mut buf = vec![0u8; (w * h * 4) as usize];
    paint_overlay_shapes(&mut buf, stride, w, h, 3, 1, &pal);
    assert_eq!(pixel0(&buf, stride, 300, 10), 2);
    assert_eq!(pixel0(&buf, stride, 300, 52), 3);
    assert_eq!(pixel0(&buf, stride, 22, 25), 5);
    assert_eq!(pixel0(&buf, stride, 300, 60), 1);
    // Row 1 (selected) spans y 96..140.
    assert_eq!(pixel0(&buf, stride, 300, 100), 4);
    assert_eq!(pixel0(&buf, stride, 1, 100), 5);
    // Dividers under rows 0 and 1, none under the last row.
    assert_eq!(pixel0(&buf, stride, 300, 95), 3);
    assert_eq!(pixel0(&buf, stride, 300, 139), 3);
    assert_eq!(pixel0(&buf, stride, 300, 183), 1);
    assert_eq!(pixel0(&buf, stride, 10, 95), 1);

    assert_eq!(search_text(""), ("Type to search\u{2026}".to_string(), true));
    assert_eq!(search_text("fire"), ("fire".to_string(), false));
    assert_eq!(comment_line(&None), None);
    assert_eq!(comment_line(&Some(String::new())), None);
    assert_eq!(comment_line(&Some("z".repeat(80))).unwrap().chars().count(), 60);
}

#[test]
fn application_directories() {
    let dirs = xdg_app_dirs(&Some("/home/a/.local/share".to_string()), &Some("/opt/share::/usr/share".to_string()));
    assert_eq!(
        dirs,
        vec![
            "/home/a/.local/share/applications",
            "/opt/share/applications",
            "/usr/share/applications",
            "/var/lib/flatpak/exports/share/applications",
            "/home/a/.local/share/flatpak/exports/share/applications",
        ]
    );
    let dirs = xdg_app_dirs(&None, &None);
    assert_eq!(
        dirs,
        vec![
            "/usr/local/share/applications",
            "/usr/share/applications",
            "/var/lib/flatpak/exports/share/applications",
        ]
    );
}

#[test]
fn history_location() {
    assert_eq!(state_dir(&Some("/st".to_string()), &Some("/home/a".to_string())), "/st/nullxes");
    assert_eq!(state_dir(&None, &Some("/home/a".to_string())), "/home/a/.local/state/nullxes");
    assert_eq!(state_dir(&None, &None), "/tmp/nullxes");
    assert_eq!(history_path(&None, &None), "/tmp/nullxes/notifications.json");
}
