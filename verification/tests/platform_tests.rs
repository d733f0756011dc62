use nv_overlay_slint::platform::{
    find_window_by_title, init_linux_platform, wayland_session_from_lower, x11_session_from_lower, is_wayland, is_wayland_session, is_x11,
    refresh_rate_candidates, resolution_or_default, setup_wayland_env, WindowNode,
};

#[test]
fn wayland_detected_by_session_type_or_display() {
    assert!(is_wayland_session("wayland", false));
    assert!(is_wayland_session("Wayland", false));
    assert!(is_wayland_session("x11", true));
    assert!(!is_wayland_session("x11", false));
    assert!(!is_wayland_session("", false));
    assert!(!is_wayland_session(" wayland", false));
    assert_eq!(is_wayland("WAYLAND", false), true);
}

#[test]
fn x11_detected_by_session_type_or_display() {
    assert!(is_x11("x11", "", "wayland-0"));
    assert!(is_x11("X11", "", ""));
    assert!(is_x11("", ":0", ""));
    assert!(!is_x11("", ":0", "wayland-0"));
    assert!(!is_x11("wayland", "", ""));
    assert!(!is_x11("tty", "", ""));
}

#[test]
fn wayland_env_set_only_when_needed() {
    let a = setup_wayland_env("wayland", false, false).unwrap();
    assert_eq!(a.name, "WINIT_UNIX_BACKEND");
    assert_eq!(a.value, "wayland,x11");
    assert!(setup_wayland_env("wayland", false, true).is_none());
    assert!(setup_wayland_env("x11", false, false).is_none());
    assert!(setup_wayland_env("x11", true, false).is_some());
}

#[test]
fn platform_init_follows_session() {
    assert!(init_linux_platform("wayland", true, false).is_some());
    assert!(init_linux_platform("x11", false, false).is_none());
    assert!(init_linux_platform("wayland", true, true).is_none());
}

#[test]
fn resolution_falls_back_to_default() {
    assert_eq!(resolution_or_default(1920, 1080), (1920, 1080));
    assert_eq!(resolution_or_default(0, 1080), (2560, 1440));
    assert_eq!(resolution_or_default(1920, -1), (2560, 1440));
}

const XRANDR: &str = "Screen 0: minimum 8 x 8, current 2560 x 1440, maximum 32767 x 32767
DP-0 connected primary 2560x1440+0+0 (normal left inverted right x axis y axis) 597mm x 336mm
   2560x1440    143.97 + 179.96*  119.88    59.95
   1920x1080     60.00    59.94    50.00
HDMI-0 disconnected (normal left inverted right x axis y axis)
";

#[test]
fn refresh_rate_from_active_mode() {
    assert_eq!(refresh_rate_candidates(XRANDR), vec!["179.96".to_string()]);
}

#[test]
fn refresh_rate_marker_plus_is_stripped() {
    // `*+` marks the current and preferred mode; both marks are removed.
    assert_eq!(
        refresh_rate_candidates("   2560x1440    143.97*+  59.95\n"),
        vec!["143.97".to_string()]
    );
    assert_eq!(refresh_rate_candidates("   1920x1080     60.00*+  50.00\n"), vec!["60.00".to_string()]);
    assert_eq!(refresh_rate_candidates("a* b**\r\nc\n"), vec!["a".to_string(), "b".to_string()]);
    assert!(refresh_rate_candidates("").is_empty());
    assert!(refresh_rate_candidates("60.00+ 50\n").is_empty());
}

#[test]
fn session_decisions_on_lowered_text() {
    assert!(wayland_session_from_lower("wayland", false));
    assert!(!wayland_session_from_lower("Wayland", false));
    assert!(wayland_session_from_lower("", true));
    assert!(x11_session_from_lower("x11", "", "w"));
    assert!(!x11_session_from_lower("X11", "", ""));
    assert!(x11_session_from_lower("", ":1", ""));
    assert!(!x11_session_from_lower("", ":1", "wayland-1"));
}

fn leaf(id: u64, name: Option<&str>) -> WindowNode {
    WindowNode { id, name: name.map(|s| s.to_string()), children: Vec::new() }
}

#[test]
fn window_search_is_depth_first() {
    let tree = WindowNode {
        id: 1,
        name: None,
        children: vec![
            WindowNode {
                id: 2,
                name: Some("panel".to_string()),
                children: vec![leaf(3, Some("NV-Overlay HUD (hidden)"))],
            },
            leaf(4, Some("NV-Overlay HUD")),
        ],
    };
    assert_eq!(find_window_by_title(&tree, "NV-Overlay HUD"), Some(3));
    assert_eq!(find_window_by_title(&tree, "panel"), Some(2));
    assert_eq!(find_window_by_title(&tree, "missing"), None);
    assert_eq!(find_window_by_title(&tree, ""), Some(2));
}
