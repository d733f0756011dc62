use nv_overlay_slint::ipc::IpcCommand;
use nv_overlay_slint::overlay::{get_preset_width, overlay_x, OverlayEffect, OverlayState};

#[test]
fn preset_widths() {
    assert_eq!(get_preset_width(0), 430);
    assert_eq!(get_preset_width(1), 820);
    assert_eq!(get_preset_width(2), 660);
    assert_eq!(get_preset_width(3), 160);
    assert_eq!(get_preset_width(4), 430);
    assert_eq!(get_preset_width(-1), 430);
}

#[test]
fn overlay_docks_top_right() {
    assert_eq!(overlay_x(2560, 430), 2114);
    assert_eq!(overlay_x(1920, 820), 1084);
    assert_eq!(overlay_x(446, 430), 0);
    assert_eq!(overlay_x(100, 430), 0);
    assert_eq!(overlay_x(u32::MAX, 0), i32::MAX);
}

#[test]
fn initial_state_is_visible_basic() {
    let s = OverlayState::new();
    assert!(s.visible());
    assert_eq!(s.preset(), 0);
}

#[test]
fn toggle_flips_visibility() {
    let s = OverlayState::new();
    let o = s.handle_command(IpcCommand::Toggle);
    assert!(!o.state.visible());
    assert_eq!(o.state.preset(), 0);
    assert_eq!(o.effect, OverlayEffect::SetVisible(false));
    assert_eq!(o.reply.as_deref(), Some("Toggled overlay to false"));
    let o2 = o.state.handle_command(IpcCommand::Toggle);
    assert!(o2.state.visible());
    assert_eq!(o2.reply.as_deref(), Some("Toggled overlay to true"));
}

#[test]
fn cycle_walks_presets_and_wraps() {
    let mut s = OverlayState::new();
    for expected in [1, 2, 3, 0, 1] {
        let o = s.handle_command(IpcCommand::Cycle);
        assert_eq!(o.state.preset(), expected);
        assert_eq!(o.effect, OverlayEffect::ApplyPreset(expected));
        assert_eq!(o.reply, Some(format!("Cycled preset to {}", expected)));
        assert!(o.state.visible());
        s = o.state;
    }
}

#[test]
fn quit_settings_ping_keep_state() {
    let s = OverlayState::new().handle_command(IpcCommand::Cycle).state;
    let q = s.handle_command(IpcCommand::Quit);
    assert_eq!(q.effect, OverlayEffect::Exit);
    assert_eq!(q.reply, None);
    assert_eq!(q.state.preset(), 1);
    let st = s.handle_command(IpcCommand::Settings);
    assert_eq!(st.effect, OverlayEffect::Nothing);
    assert_eq!(st.reply.as_deref(), Some("Settings not implemented in Slint edition"));
    assert_eq!(st.state.preset(), 1);
    let p = s.handle_command(IpcCommand::Ping);
    assert_eq!(p.reply.as_deref(), Some("PONG"));
    assert!(p.state.visible());
}
