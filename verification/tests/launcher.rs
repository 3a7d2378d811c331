use nullxes::launcher::apps::{
    build_app_list, decode_desktop_entry, is_field_code, more_specific, parse_exec,
    path_starts_with_exec, visible_in, AppEntry, DesktopInfo,
};
use nullxes::launcher::search::Searcher;
use nullxes::keymap::KeyAction;
use nullxes::launcher::ui::{launch_command, LauncherState};

#[test]
fn shlex_drops_field_codes() {
    let argv = parse_exec("/usr/bin/foo --flag %F %U arg");
    assert_eq!(argv, vec!["/usr/bin/foo", "--flag", "arg"]);
}

#[test]
fn shlex_handles_quoted() {
    let argv = parse_exec("/usr/bin/foo \"one two\" --x=y");
    assert_eq!(argv, vec!["/usr/bin/foo", "one two", "--x=y"]);
}

#[test]
fn shlex_unparsable_returns_empty() {
    assert!(parse_exec("\"unterminated").is_empty());
}

#[test]
fn field_codes_are_exactly_the_listed_ones() {
    for code in ["%f", "%F", "%u", "%U", "%i", "%c", "%k", "%v", "%m"] {
        assert!(is_field_code(code), "{code}");
    }
    for other in ["%%", "%d", "%", "f", "%ff", ""] {
        assert!(!is_field_code(other), "{other}");
    }
    assert_eq!(parse_exec("app %% %d"), vec!["app", "%%", "%d"]);
}

fn strings(v: &[&str]) -> Vec<String> {
    v.iter().map(|s| s.to_string()).collect()
}

#[test]
fn only_show_in_needs_a_current_desktop() {
    let only = Some("GNOME;KDE;".to_string());
    assert!(!visible_in(&only, &None, &Vec::new()));
    assert!(visible_in(&only, &None, &strings(&["kde"])));
    assert!(!visible_in(&only, &None, &strings(&["XFCE"])));
    assert!(visible_in(&None, &None, &Vec::new()));
}

#[test]
fn not_show_in_hides() {
    let not = Some(";nullxes".to_string());
    assert!(!visible_in(&None, &not, &strings(&["NULLXES", "GNOME"])));
    assert!(visible_in(&None, &not, &strings(&["GNOME"])));
    assert!(visible_in(&None, &not, &Vec::new()));
}

#[test]
fn paths_compare_by_components() {
    assert!(path_starts_with_exec("/home/ann/.local/share/applications/a.desktop", "/home/ann"));
    assert!(path_starts_with_exec("/home/ann//x", "/home/ann/"));
    assert!(!path_starts_with_exec("/home/anne/x", "/home/ann"));
    assert!(path_starts_with_exec("/home/./ann/x", "/home/ann"));
    assert!(!path_starts_with_exec("./a/b", "a"));
    let home = Some("/home/ann".to_string());
    assert!(more_specific("/home/ann/.local/x.desktop", "/usr/share/x.desktop", &home));
    assert!(!more_specific("/usr/share/x.desktop", "/home/ann/.local/x.desktop", &home));
    assert!(!more_specific("/home/ann/a", "/home/ann/b", &home));
    assert!(!more_specific("/home/ann/a", "/usr/b", &None));
}

fn desktop(path: &str, text: &str) -> DesktopInfo {
    decode_desktop_entry(path, text).expect("decodes")
}

#[test]
fn decode_reads_keys() {
    let d = desktop(
        "/usr/share/applications/foo.desktop",
        "[Desktop Entry]\nType=Application\nName=Foo\nExec=foo %U\nComment=Does foo\nCategories=Utility;Dev;\nNoDisplay=false\n",
    );
    assert_eq!(d.name.as_deref(), Some("Foo"));
    assert_eq!(d.exec_line.as_deref(), Some("foo %U"));
    assert_eq!(d.comment.as_deref(), Some("Does foo"));
    assert_eq!(d.categories.as_deref(), Some("Utility;Dev;"));
    assert!(!d.no_display);
    assert!(!d.hidden);
}

#[test]
fn app_list_filters_dedups_and_sorts() {
    let entries = vec![
        desktop("/usr/share/applications/b.desktop", "[Desktop Entry]\nName=beta\nExec=beta --x\n"),
        desktop("/usr/share/applications/a.desktop", "[Desktop Entry]\nName=Alpha\nExec=alpha\nCategories=A;B\n"),
        desktop("/usr/share/applications/h.desktop", "[Desktop Entry]\nName=Hidden\nExec=h\nNoDisplay=true\n"),
        desktop("/usr/share/applications/g.desktop", "[Desktop Entry]\nName=Gnomey\nExec=g\nOnlyShowIn=GNOME;\n"),
        desktop("/usr/share/applications/n.desktop", "[Desktop Entry]\nName=NoExec\n"),
        desktop("/home/u/.local/share/applications/b.desktop", "[Desktop Entry]\nName=beta\nExec=mybeta\n"),
        desktop("/usr/share/applications/x.desktop", "[Desktop Entry]\nName=Hid\nExec=x\nHidden=true\n"),
    ];
    let list = build_app_list(&entries, "NULLXES", &Some("/home/u".to_string()));
    let names: Vec<&str> = list.iter().map(|a| a.name.as_str()).collect();
    assert_eq!(names, vec!["Alpha", "beta"]);
    assert_eq!(list[0].categories, strings(&["A", "B"]));
    assert_eq!(list[1].argv, strings(&["mybeta"]));
    let gnome = build_app_list(&entries, "GNOME:", &None);
    let names: Vec<&str> = gnome.iter().map(|a| a.name.as_str()).collect();
    assert_eq!(names, vec!["Alpha", "beta", "Gnomey"]);
    assert_eq!(gnome[1].argv, strings(&["beta", "--x"]));
}

fn app(name: &str) -> AppEntry {
    AppEntry {
        name: name.to_string(),
        comment: None,
        argv: vec![name.to_lowercase(), "--go".to_string()],
        icon: None,
        categories: Vec::new(),
        source_path: format!("/usr/share/applications/{name}.desktop"),
    }
}

#[test]
fn empty_query_lists_first_apps() {
    let s = Searcher::new(vec![app("Alpha"), app("Beta"), app("Gamma")]);
    let r = s.query("", 2);
    assert_eq!(r.len(), 2);
    assert_eq!(r[0].name, "Alpha");
    assert_eq!(r[1].name, "Beta");
    assert_eq!(s.count(), 3);
}

#[test]
fn query_keeps_only_matches() {
    let s = Searcher::new(vec![app("Firefox"), app("Files"), app("Terminal")]);
    let r = s.query("fi", 8);
    let names: Vec<&str> = r.iter().map(|a| a.name.as_str()).collect();
    assert!(names.contains(&"Firefox"));
    assert!(names.contains(&"Files"));
    assert!(!names.contains(&"Terminal"));
    assert!(s.query("zzz", 8).is_empty());
    assert_eq!(s.query("fi", 1).len(), 1);
}

#[test]
fn launcher_keys() {
    let mut ui = LauncherState::new();
    ui.handle_text("fo");
    ui.handle_text("x");
    assert_eq!(ui.query, "fox");
    ui.handle_action(KeyAction::Down, 3);
    ui.handle_action(KeyAction::Down, 3);
    ui.handle_action(KeyAction::Down, 3);
    assert_eq!(ui.selected, 2);
    ui.handle_action(KeyAction::Up, 3);
    assert_eq!(ui.selected, 1);
    let e = ui.handle_action(KeyAction::Backspace, 3);
    assert!(e.redraw);
    assert_eq!(ui.query, "fo");
    assert_eq!(ui.selected, 0);
    ui.handle_action(KeyAction::Up, 3);
    assert_eq!(ui.selected, 0);
    let e = ui.handle_action(KeyAction::Enter, 3);
    assert!(e.launch && ui.should_close);
}

#[test]
fn launch_command_splits_argv() {
    let a = app("Files");
    let b = app("Edit");
    let results = vec![&a, &b];
    let (cmd, args) = launch_command(&results, 1).expect("selected");
    assert_eq!(cmd, "edit");
    assert_eq!(args, vec!["--go"]);
    assert!(launch_command(&results, 2).is_none());
}
