use nullxes::panel::{
    battery_label, classify, clock_label, draw_workspace_dots, fill_circle, font_candidate_dirs, is_active_path,
    login_event, network_cut_possible, network_label, network_snapshot, pick_battery, render_panel_shapes,
    ring_circle, utc_hour_minute, volume_label, DeviceProbe, LoginEvent, ModuleSnapshot, NetworkKind,
    NetworkSnapshot, PanelPalette,
};
use nullxes::pixels::{PanelBitmap, Rgba};

const RED: Rgba = Rgba { r: 255, g: 0, b: 0, a: 255 };

fn pixel(buf: &[u8], stride: usize, x: usize, y: usize) -> [u8; 4] {
    let i = y * stride + x * 4;
    [buf[i], buf[i + 1], buf[i + 2], buf[i + 3]]
}

fn snap() -> ModuleSnapshot {
    ModuleSnapshot::default()
}

#[test]
fn battery_and_volume_labels() {
    let mut s = snap();
    assert!(battery_label(&s).is_none());
    s.battery_pct = Some(87);
    s.on_ac = true;
    assert_eq!(battery_label(&s).unwrap().text, "\u{26a1}87%");
    s.on_ac = false;
    assert_eq!(battery_label(&s).unwrap().text, "\u{b7}87%");
    assert!(volume_label(&s).is_none());
    s.volume_pct = Some(40);
    let v = volume_label(&s).unwrap();
    assert_eq!((v.text.as_str(), v.dim), ("40%", false));
    s.volume_mute = true;
    let v = volume_label(&s).unwrap();
    assert_eq!((v.text.as_str(), v.dim), ("MUTE", true));
}

#[test]
fn network_label_kinds_and_cut() {
    let mut s = snap();
    assert!(network_label(&s).is_none());
    s.network = NetworkSnapshot { kind: NetworkKind::Wired, connected: false, ssid: None, strength: None };
    let l = network_label(&s).unwrap();
    assert_eq!((l.text.as_str(), l.dim), ("ETH", true));
    s.network.kind = NetworkKind::Wireless;
    s.network.connected = true;
    assert_eq!(network_label(&s).unwrap().text, "WIFI");
    s.network.ssid = Some("home".to_string());
    assert_eq!(network_label(&s).unwrap().text, "home");
    s.network.ssid = Some("a-very-long-network-name".to_string());
    assert_eq!(network_label(&s).unwrap().text, "a-very-long-net\u{2026}");
    s.network.ssid = Some("exactly-16-bytes".to_string());
    assert_eq!(network_label(&s).unwrap().text, "exactly-16-bytes");
    s.network.ssid = Some(String::new());
    assert!(network_label(&s).is_none());
    s.network.kind = NetworkKind::Other;
    assert_eq!(network_label(&s).unwrap().text, "NET");
    assert!(network_cut_possible("short"));
    assert!(!network_cut_possible("abcdefghijklmn\u{e9}xyz"));
}

#[test]
fn network_manager_answers() {
    assert_eq!(classify("802-3-ethernet"), NetworkKind::Wired);
    assert_eq!(classify("802-11-wireless"), NetworkKind::Wireless);
    assert_eq!(classify("vpn"), NetworkKind::Other);
    assert!(!is_active_path("") && !is_active_path("/") && is_active_path("/org/x/1"));
    let n = network_snapshot(Some(70), Some("/a/1"), Some("802-11-wireless"), Some("cafe".to_string()));
    assert!(n.connected);
    assert_eq!(n.kind, NetworkKind::Wireless);
    assert_eq!(n.ssid.as_deref(), Some("cafe"));
    let n = network_snapshot(Some(60), Some("/"), Some("802-11-wireless"), Some("cafe".to_string()));
    assert!(!n.connected);
    assert_eq!(n.kind, NetworkKind::NoConnection);
    assert!(n.ssid.is_none());
    let n = network_snapshot(None, Some("/a/1"), Some("802-3-ethernet"), Some("x".to_string()));
    assert!(!n.connected);
    assert_eq!(n.kind, NetworkKind::Wired);
    assert!(n.ssid.is_none());
}

#[test]
fn battery_device_choice() {
    let probes = vec![DeviceProbe::Kind(1), DeviceProbe::Unreadable, DeviceProbe::Kind(2), DeviceProbe::Kind(2)];
    assert_eq!(pick_battery(&probes), Some(2));
    let probes = vec![DeviceProbe::Kind(1), DeviceProbe::InvalidPath, DeviceProbe::Kind(2)];
    assert_eq!(pick_battery(&probes), None);
    assert_eq!(pick_battery(&vec![]), None);
    assert_eq!(login_event(true), LoginEvent::Sleeping);
    assert_eq!(login_event(false), LoginEvent::Wake);
}

#[test]
fn clock_text() {
    assert_eq!(clock_label(7, 5), "07:05");
    assert_eq!(clock_label(23, 59), "23:59");
    assert_eq!(utc_hour_minute(0), (0, 0));
    assert_eq!(utc_hour_minute(3600 * 25 + 61), (1, 1));
    // Before the epoch the hour and minute still land in range.
    assert_eq!(utc_hour_minute(-60), (0, 59));
    assert_eq!(utc_hour_minute(-3600), (23, 0));
}

#[test]
fn circles_cover_the_expected_pixels() {
    let (w, h) = (7u32, 7u32);
    let stride = 28usize;
    let mut buf = vec![0u8; 7 * 7 * 4];
    fill_circle(&mut buf, stride, w, h, 3, 3, 1, RED);
    let lit: Vec<(usize, usize)> = (0..7)
        .flat_map(|y| (0..7).map(move |x| (x, y)))
        .filter(|&(x, y)| pixel(&buf, stride, x, y)[3] == 255)
        .collect();
    assert_eq!(lit, vec![(3, 2), (2, 3), (3, 3), (4, 3), (3, 4)]);
    assert_eq!(pixel(&buf, stride, 3, 3), [0, 0, 255, 255]);

    let mut ring = vec![0u8; 7 * 7 * 4];
    ring_circle(&mut ring, stride, w, h, 3, 3, 2, RED);
    assert_eq!(pixel(&ring, stride, 3, 3)[3], 0);
    assert_eq!(pixel(&ring, stride, 3, 1)[3], 255);
    assert_eq!(pixel(&ring, stride, 4, 2)[3], 255);

    // Clipped at the edge, nothing outside the buffer is touched.
    let mut edge = vec![0u8; 7 * 7 * 4];
    fill_circle(&mut edge, stride, w, h, 0, 0, 2, RED);
    assert_eq!(pixel(&edge, stride, 0, 0)[3], 255);
    assert_eq!(pixel(&edge, stride, 2, 0)[3], 255);
    assert_eq!(pixel(&edge, stride, 2, 2)[3], 0);
}

fn palette() -> PanelPalette {
    PanelPalette {
        surface_1: Rgba { r: 1, g: 1, b: 1, a: 255 },
        surface_2: Rgba { r: 2, g: 2, b: 2, a: 255 },
        divider: Rgba { r: 3, g: 3, b: 3, a: 255 },
        accent: Rgba { r: 4, g: 4, b: 4, a: 255 },
        text_secondary: Rgba { r: 5, g: 5, b: 5, a: 255 },
        text_disabled: Rgba { r: 6, g: 6, b: 6, a: 255 },
    }
}

#[test]
fn workspace_dots() {
    let (w, h) = (220u32, 20u32);
    let stride = (w * 4) as usize;
    let mut buf = vec![0u8; (w * h * 4) as usize];
    draw_workspace_dots(&mut buf, stride, w, h, 1, &vec![0, 2], &palette());
    // Dot 0 (occupied) is a ring of radius 3 around (63, 10); dot 1 (active)
    // is a disk of radius 4 around (79, 10); dot 3 (empty) a ring of radius 2
    // around (111, 10).
    assert_eq!(pixel(&buf, stride, 63, 10)[0], 0);
    assert_eq!(pixel(&buf, stride, 66, 10)[0], 5);
    assert_eq!(pixel(&buf, stride, 79, 10)[0], 4);
    assert_eq!(pixel(&buf, stride, 83, 10)[0], 4);
    assert_eq!(pixel(&buf, stride, 113, 10)[0], 6);
    assert_eq!(pixel(&buf, stride, 111, 10)[0], 0);
}

#[test]
fn panel_shapes_and_bookkeeping() {
    let mut bm = PanelBitmap::new(200, 48);
    assert!(bm.dirty);
    render_panel_shapes(&mut bm, 0, &vec![], &palette());
    assert!(!bm.dirty);
    assert_eq!(bm.generation, 1);
    let stride = bm.stride();
    assert_eq!(pixel(&bm.pixels, stride, 150, 30)[0], 1);
    assert_eq!(pixel(&bm.pixels, stride, 150, 0)[0], 3);
    assert_eq!(pixel(&bm.pixels, stride, 10, 30)[0], 2);
    assert_eq!(pixel(&bm.pixels, stride, 19, 17)[0], 4);
    assert_eq!(pixel(&bm.pixels, stride, 63, 24)[0], 4);
}

#[test]
fn font_dirs() {
    let dirs = font_candidate_dirs(&Some("/opt/fonts".to_string()), &Some("/usr/bin".to_string()));
    assert_eq!(dirs[0], "/opt/fonts");
    assert_eq!(dirs[1], "/usr/share/fonts/nullxes");
    assert_eq!(dirs[2], "/usr/bin/assets/fonts");
    assert_eq!(dirs[3], "assets/fonts");
    assert_eq!(dirs.len(), 10);
    assert_eq!(font_candidate_dirs(&None, &None).len(), 8);
}
