use resonance::hotkey::{HotkeyControl, Key};
use resonance::messages::{
    EndpointState, EndpointView, HotkeyConfig, SessionState, SessionView, Snapshot, UiCommand,
};
use resonance::overlay::{
    card_command, endpoint_state_text, endpoint_tab, icon_button_faces, row_button_faces,
    session_card, sessions_for, switch_off_paint, CardAction, Contents, KeyEvent, Notice, OverlayState,
    Recorded, MIN_OPACITY_BITS,
};
use resonance::single::Single;
use resonance::theme::{rgba, Paint};

const MIN_OPACITY: f32 = 0.25;

fn single(x: f32) -> Single {
    Single { bits: x.to_bits() }
}

fn state() -> OverlayState {
    OverlayState::new()
}

/// A control that holds no registration.
fn control() -> HotkeyControl {
    HotkeyControl::new(HotkeyConfig::default())
}

fn endpoint(id: &str, name: &str) -> EndpointView {
    EndpointView {
        id: id.to_string(),
        friendly_name: name.to_string(),
        state: EndpointState::Active,
    }
}

fn session(instance: &str, process: &str, endpoint: &str) -> SessionView {
    SessionView {
        instance: instance.to_string(),
        process: process.to_string(),
        endpoint: endpoint.to_string(),
        volume: single(0.5),
        muted: false,
        state: SessionState::Active,
    }
}

fn snapshot(
    endpoints: Vec<EndpointView>,
    default: Option<&str>,
    sessions: Vec<SessionView>,
) -> Snapshot {
    Snapshot {
        endpoints,
        default_endpoint: default.map(str::to_string),
        live_sessions: sessions,
        revision: 1,
    }
}

fn pressed(key: Key, ctrl: bool) -> KeyEvent {
    KeyEvent { key, pressed: true, ctrl, alt: false, shift: false }
}

#[test]
fn opacity_is_clamped_into_the_usable_range() {
    let mut s = state();

    s.set_opacity(single(5.0));
    assert_eq!(s.opacity, single(1.0));

    s.set_opacity(single(-1.0));
    assert_eq!(s.opacity, single(MIN_OPACITY));
    assert_eq!(MIN_OPACITY.to_bits(), MIN_OPACITY_BITS);
}

#[test]
fn opaque_mode_forces_a_solid_backdrop() {
    let mut s = state();
    s.set_opacity(single(MIN_OPACITY));
    assert!(s.backdrop_alpha() < 255);

    s.opaque_mode = true;
    assert_eq!(s.backdrop_alpha(), 255);
}

#[test]
fn backdrop_alpha_tracks_opacity_when_transparent() {
    let mut s = state();
    s.set_opacity(single(1.0));
    assert_eq!(s.backdrop_alpha(), 255);

    s.set_opacity(single(0.5));
    assert_eq!(s.backdrop_alpha(), 128);
}

#[test]
fn the_backdrop_alpha_is_the_scaled_opacity() {
    let mut s = state();
    assert_eq!(s.opacity, single(0.88));
    // Every value at which rounding decides, and many others.
    let mut bits = MIN_OPACITY_BITS;
    while bits <= 1.0f32.to_bits() {
        let opacity = f32::from_bits(bits);
        s.set_opacity(single(opacity));
        assert_eq!(s.backdrop_alpha(), (opacity * 255.0).round() as u8, "{opacity}");
        bits += 1021;
    }
    for byte in 64..=255u32 {
        for bits in [0x3F00_0000 + byte * 0x1_0101, 0x3E80_0000 + byte * 0x1_0101] {
            let opacity = f32::from_bits(bits);
            if opacity <= 1.0 {
                s.set_opacity(single(opacity));
                assert_eq!(s.backdrop_alpha(), (opacity * 255.0).round() as u8);
            }
        }
    }
    s.set_opacity(single(f32::NAN));
    assert_eq!(s.backdrop_alpha(), 0);
}

#[test]
fn an_opaque_backdrop_is_exactly_the_surface_colour() {
    let mut s = state();
    s.opaque_mode = true;

    // In opaque mode the window's surface is cleared to the surface colour and
    // the panel is painted over every pixel of it, so the two have to be the
    // same colour or they disagree along the panel's edge.
    assert_eq!(s.backdrop_color(), rgba(Paint::Surface));
    assert_eq!(s.clear_paint(), Paint::Surface);
    s.opaque_mode = false;
    assert_eq!(s.clear_paint(), Paint::Transparent);
}

#[test]
fn switching_to_opaque_mode_asks_for_a_rebuilt_window() {
    let mut s = state();
    assert!(!s.take_restart_request());

    s.restart_requested = true;
    assert!(s.take_restart_request());
    assert!(!s.take_restart_request());

    s.set_opaque_mode(true);
    assert!(s.opaque_mode());
    assert!(s.take_restart_request());
}

#[test]
fn the_window_is_transparent_unless_opaque_mode_is_on() {
    let mut s = state();
    assert!(s.overlay_viewport().transparent);

    s.opaque_mode = true;
    assert!(!s.overlay_viewport().transparent);
}

#[test]
fn selection_falls_back_to_the_default_endpoint() {
    let s = state();
    let snap = snapshot(
        vec![endpoint("a", "Speakers"), endpoint("b", "Headphones")],
        Some("b"),
        vec![],
    );

    assert_eq!(s.resolved_selection(&snap).as_deref(), Some("b"));
}

#[test]
fn selection_falls_back_to_the_first_endpoint_without_a_default() {
    let s = state();
    let snap = snapshot(vec![endpoint("a", "Speakers")], None, vec![]);

    assert_eq!(s.resolved_selection(&snap).as_deref(), Some("a"));
}

#[test]
fn an_explicit_selection_wins_while_the_endpoint_exists() {
    let mut s = state();
    s.selected_endpoint = Some("a".to_string());
    let snap = snapshot(
        vec![endpoint("a", "Speakers"), endpoint("b", "Headphones")],
        Some("b"),
        vec![],
    );

    assert_eq!(s.resolved_selection(&snap).as_deref(), Some("a"));
}

#[test]
fn a_selection_of_a_vanished_endpoint_is_dropped() {
    let mut s = state();
    s.selected_endpoint = Some("gone".to_string());
    let snap = snapshot(vec![endpoint("a", "Speakers")], Some("a"), vec![]);

    assert_eq!(s.resolved_selection(&snap).as_deref(), Some("a"));
}

#[test]
fn selection_is_none_when_there_are_no_endpoints() {
    let s = state();
    let snap = snapshot(vec![], None, vec![]);

    assert!(s.resolved_selection(&snap).is_none());
}

#[test]
fn the_overlay_shows_what_there_is() {
    let mut s = state();
    assert!(matches!(s.contents(), Contents::Waiting));
    s.set_snapshot(snapshot(vec![], None, vec![]));
    assert!(matches!(s.contents(), Contents::NoDevices));
    s.set_snapshot(snapshot(vec![endpoint("a", "A"), endpoint("b", "B")], Some("a"), vec![]));
    s.select_endpoint(&"b".to_string());
    match s.contents() {
        Contents::Devices(id) => assert_eq!(id, "b"),
        _ => panic!("expected devices"),
    }
}

#[test]
fn sessions_are_filtered_by_endpoint() {
    let snap = snapshot(
        vec![endpoint("a", "Speakers"), endpoint("b", "Headphones")],
        Some("a"),
        vec![
            session("s1", "spotify.exe", "a"),
            session("s2", "chrome.exe", "b"),
            session("s3", "discord.exe", "a"),
        ],
    );

    let on_a = sessions_for(&snap, &"a".to_string());
    let names: Vec<&str> = on_a.iter().map(|s| s.process.as_str()).collect();
    assert_eq!(names, vec!["spotify.exe", "discord.exe"]);
}

#[test]
fn recording_can_be_left_the_way_it_was_entered() {
    let mut s = state();
    assert!(!s.recording_hotkey);

    s.start_recording_hotkey();
    assert!(s.recording_hotkey);

    s.cancel_recording_hotkey();
    assert!(!s.recording_hotkey);
}

#[test]
fn a_combination_without_a_modifier_is_not_stored() {
    let mut s = state();
    s.start_recording_hotkey();

    let left = s.store_recorded_hotkey(
        HotkeyConfig { ctrl: false, alt: false, shift: false, win: false, key: 0x56 },
        &control(),
    );

    // Still recording, so the next combination pressed is read as well.
    assert!(s.recording_hotkey);
    assert_eq!(s.hotkey_notice, Some(Notice::ModifierRequired));
    assert!(matches!(left, Recorded::Nothing), "nothing may be saved");
}

#[test]
fn a_combination_is_saved_once_the_system_has_accepted_it() {
    let mut s = state();
    let mut control = control();
    s.start_recording_hotkey();
    let config = HotkeyConfig { ctrl: true, alt: false, shift: false, win: false, key: 0x4B };
    match s.store_recorded_hotkey(config, &control) {
        Recorded::Register { config: asked, request } => {
            assert_eq!(asked, config);
            assert_eq!((request.flags, request.key), (0x4002, 0x4B));
        }
        _ => panic!("expected a registration"),
    }
    assert!(s.hotkey_answered(config, false, &mut control).is_none());
    assert!(s.recording_hotkey, "a refusal leaves the recorder open");
    assert_eq!(s.hotkey_notice, Some(Notice::ShortcutUnavailable));

    match s.hotkey_answered(config, true, &mut control) {
        Some(UiCommand::SetHotkey(saved)) => assert_eq!(saved, config),
        _ => panic!("expected the command"),
    }
    assert!(!s.recording_hotkey);
    assert_eq!(s.hotkey_notice(&control), None);

    // The combination in effect is saved without being registered again.
    s.start_recording_hotkey();
    assert!(matches!(
        s.store_recorded_hotkey(config, &control),
        Recorded::Send(UiCommand::SetHotkey(_))
    ));
}

#[test]
fn an_unregistered_shortcut_is_reported_without_recording() {
    let s = state();
    let control = control();

    assert!(!control.is_registered());
    assert_eq!(s.hotkey_notice(&control), Some(Notice::ShortcutUnavailable));
}

#[test]
fn the_recorder_shows_its_own_feedback_while_it_is_open() {
    let mut s = state();
    let control = control();
    s.start_recording_hotkey();

    // The startup notice is replaced by what the recorder has to say, so the row
    // never carries two messages at once.
    assert_eq!(s.hotkey_notice(&control), None);

    s.hotkey_notice = Some(Notice::KeyNotSupported);
    assert_eq!(s.hotkey_notice(&control), Some(Notice::KeyNotSupported));
    assert_eq!(
        Notice::KeyNotSupported.text(),
        "That key cannot be used. Try a letter, a digit or a function key."
    );
    assert_eq!(Notice::ModifierRequired.text(), "Hold Ctrl, Alt or Shift as well.");
    assert_eq!(
        Notice::ShortcutUnavailable.text(),
        "Could not register that shortcut; it may be in use."
    );
}

#[test]
fn the_recorder_reads_the_first_complete_combination() {
    let control = control();
    let released = KeyEvent { key: Key::Q, pressed: false, ctrl: true, alt: false, shift: false };

    let mut s = state();
    s.start_recording_hotkey();
    let events =
        vec![released, pressed(Key::Backtick, true), pressed(Key::K, true), pressed(Key::L, true)];
    match s.read_recorded_hotkey(&events, &control) {
        Recorded::Register { config, .. } => {
            assert_eq!(config.key, 0x4B);
            assert!(config.ctrl && !config.alt && !config.shift && !config.win);
        }
        _ => panic!("expected a registration"),
    }
    assert_eq!(s.hotkey_notice, Some(Notice::KeyNotSupported));

    let mut s = state();
    s.start_recording_hotkey();
    let events = vec![pressed(Key::Backtick, true), released];
    assert!(matches!(s.read_recorded_hotkey(&events, &control), Recorded::Nothing));
    assert!(s.recording_hotkey);
    assert_eq!(s.hotkey_notice, Some(Notice::KeyNotSupported));

    let events = vec![pressed(Key::Escape, false), pressed(Key::K, true)];
    assert!(matches!(s.read_recorded_hotkey(&events, &control), Recorded::Nothing));
    assert!(!s.recording_hotkey);
    assert_eq!(s.hotkey_notice, None);

    s.start_recording_hotkey();
    assert!(matches!(
        s.read_recorded_hotkey(&vec![pressed(Key::K, false)], &control),
        Recorded::Nothing
    ));
    assert_eq!(s.hotkey_notice, Some(Notice::ModifierRequired));
}

#[test]
fn the_shortcut_row_says_what_its_button_does() {
    let mut s = state();
    let mut control = control();
    control.answer(HotkeyConfig::default(), true);
    let row = s.hotkey_row(&control);
    assert_eq!((row.button, row.text.as_str(), row.paint), ("Change", "Ctrl+Alt+V", Paint::TextSecondary));
    assert_eq!(row.notice, None);
    assert!(s.press_hotkey_button(), "recording began");
    let row = s.hotkey_row(&control);
    assert_eq!((row.button, row.hint), ("Cancel", "Keep the current shortcut"));
    assert_eq!(row.text, "Press a combination\u{2026}");
    assert_eq!((row.paint, row.notice_paint), (Paint::Accent, Paint::Danger));
    assert!(!s.press_hotkey_button());
    assert!(!s.recording_hotkey);
}

#[test]
fn a_close_request_is_reported_once() {
    let mut s = state();
    assert!(!s.take_close_request());

    s.close_requested = true;
    assert!(s.take_close_request());
    assert!(!s.take_close_request());

    s.request_close();
    assert!(s.take_close_request());
}

#[test]
fn the_window_comes_back_where_it_was() {
    let mut s = state();
    s.remember_position(Some((single(10.0), single(20.0))));
    s.remember_position(None);
    assert_eq!(s.overlay_viewport().position, Some((single(10.0), single(20.0))));
    s.toggle_settings();
    assert!(s.settings_open);
    s.toggle_settings();
    assert!(!s.settings_open);
}

#[test]
fn only_another_active_device_can_be_switched_to() {
    let a = endpoint("a", "Speakers");
    let mut b = endpoint("b", "Headphones");
    let id = "a".to_string();
    let tab = endpoint_tab(&a, Some(&id), Some(&id), true);
    assert!(tab.is_selected && tab.is_default && !tab.can_switch);
    assert_eq!((tab.fill, tab.edge), (Paint::AccentTint, Paint::AccentEdge));
    let tab = endpoint_tab(&b, Some(&id), Some(&id), true);
    assert!(tab.can_switch);
    assert_eq!((tab.fill, tab.edge), (Paint::FillHover, Paint::Transparent));
    b.state = EndpointState::Unplugged;
    let tab = endpoint_tab(&b, None, None, false);
    assert!(!tab.can_switch);
    assert_eq!((tab.fill, tab.name), (Paint::Transparent, Paint::TextDisabled));
    assert_eq!(endpoint_state_text(EndpointState::NotPresent), "Not present");
}

#[test]
fn controls_show_their_state() {
    assert_eq!(icon_button_faces(false, false).fill, Paint::Transparent);
    assert_eq!(icon_button_faces(true, true).fill, Paint::FillPressed);
    assert_eq!(icon_button_faces(false, true).ink, Paint::TextPrimary);
    assert_eq!(row_button_faces(true, true, true, true).fill, Paint::DangerTint);
    assert_eq!(row_button_faces(false, true, true, true).ink, Paint::TextDisabled);
    assert_eq!(row_button_faces(true, false, false, true).fill, Paint::FillPressed);
    assert_eq!(row_button_faces(true, false, false, false).fill, Paint::FillRaised);
    assert_eq!(switch_off_paint(true), Paint::FillPressed);
    assert_eq!(switch_off_paint(false), Paint::FillTrack);
    let mut playing = session("s1", "a.exe", "a");
    let card = session_card(&playing);
    assert_eq!((card.name, card.name_hint, card.mute_hint), (Paint::TextPrimary, None, "Mute"));
    playing.state = SessionState::Expired;
    playing.muted = true;
    let card = session_card(&playing);
    assert_eq!(card.name, Paint::TextDisabled);
    assert_eq!(card.name_hint, Some("This session is not currently playing"));
    assert_eq!(card.mute_hint, "Unmute");
}

#[test]
fn what_is_done_to_a_card_leaves_as_a_command() {
    let endpoint = "a".to_string();
    let card = session("s1", "spotify.exe", "a");
    match card_command(&endpoint, &card, CardAction::ToggleMute) {
        UiCommand::SetSessionMute { endpoint, process, muted } => {
            assert_eq!((endpoint.as_str(), process.as_str(), muted), ("a", "spotify.exe", true));
        }
        _ => panic!("expected a mute"),
    }
    match card_command(&endpoint, &card, CardAction::Volume(single(0.25))) {
        UiCommand::SetSessionVolume { volume, .. } => assert_eq!(volume, single(0.25)),
        _ => panic!("expected a volume"),
    }
    assert!(matches!(
        card_command(&endpoint, &card, CardAction::Forget),
        UiCommand::ForgetProfileEntry { .. }
    ));
}
