use resonance::hotkey::{
    describe, egui_key_to_vk, has_modifier, key_name, modifier_flags, HotkeyControl, Key,
    MOD_ALT, MOD_CONTROL, MOD_NOREPEAT, MOD_SHIFT, MOD_WIN,
};
use resonance::messages::HotkeyConfig;

const ACCEPTED_KEYS: [Key; 62] = [
    Key::A,
    Key::B,
    Key::C,
    Key::D,
    Key::E,
    Key::F,
    Key::G,
    Key::H,
    Key::I,
    Key::J,
    Key::K,
    Key::L,
    Key::M,
    Key::N,
    Key::O,
    Key::P,
    Key::Q,
    Key::R,
    Key::S,
    Key::T,
    Key::U,
    Key::V,
    Key::W,
    Key::X,
    Key::Y,
    Key::Z,
    Key::Num0,
    Key::Num1,
    Key::Num2,
    Key::Num3,
    Key::Num4,
    Key::Num5,
    Key::Num6,
    Key::Num7,
    Key::Num8,
    Key::Num9,
    Key::F1,
    Key::F2,
    Key::F3,
    Key::F4,
    Key::F5,
    Key::F6,
    Key::F7,
    Key::F8,
    Key::F9,
    Key::F10,
    Key::F11,
    Key::F12,
    Key::Space,
    Key::Tab,
    Key::Enter,
    Key::Backspace,
    Key::Insert,
    Key::Delete,
    Key::Home,
    Key::End,
    Key::PageUp,
    Key::PageDown,
    Key::ArrowLeft,
    Key::ArrowRight,
    Key::ArrowUp,
    Key::ArrowDown,
];

fn config(key: u32) -> HotkeyConfig {
    HotkeyConfig { ctrl: true, alt: true, shift: false, win: false, key }
}

#[test]
fn letters_map_to_their_ascii_codes() {
    assert_eq!(egui_key_to_vk(Key::A), Some(0x41));
    assert_eq!(egui_key_to_vk(Key::V), Some(0x56));
    assert_eq!(egui_key_to_vk(Key::Z), Some(0x5A));
}

#[test]
fn digits_map_to_their_ascii_codes() {
    assert_eq!(egui_key_to_vk(Key::Num0), Some(0x30));
    assert_eq!(egui_key_to_vk(Key::Num9), Some(0x39));
}

#[test]
fn function_keys_run_from_the_f1_code() {
    assert_eq!(egui_key_to_vk(Key::F1), Some(0x70));
    assert_eq!(egui_key_to_vk(Key::F12), Some(0x7B));
}

#[test]
fn named_keys_map_to_their_own_codes() {
    assert_eq!(egui_key_to_vk(Key::Space), Some(0x20));
    assert_eq!(egui_key_to_vk(Key::ArrowUp), Some(0x26));
}

#[test]
fn a_key_outside_the_accepted_set_is_refused() {
    assert_eq!(egui_key_to_vk(Key::Escape), None);
    assert_eq!(egui_key_to_vk(Key::Backtick), None);
    assert_eq!(egui_key_to_vk(Key::Other), None);
}

#[test]
fn every_accepted_key_survives_the_round_trip() {
    for key in ACCEPTED_KEYS {
        let vk = egui_key_to_vk(key).expect("an accepted key has a code");
        assert_ne!(
            key_name(vk),
            format!("Key 0x{vk:02X}"),
            "{key:?} has a code but no name"
        );
    }
}

#[test]
fn a_shortcut_reads_the_way_it_is_printed() {
    assert_eq!(describe(HotkeyConfig::default()), "Ctrl+Alt+V");
    assert_eq!(
        describe(HotkeyConfig { ctrl: false, alt: false, shift: true, win: true, key: 0x70 }),
        "Shift+Win+F1"
    );
}

#[test]
fn keys_with_a_word_are_written_as_the_word() {
    assert_eq!(key_name(0x20), "Space");
    assert_eq!(key_name(0x21), "Page Up");
    assert_eq!(key_name(0x08), "Backspace");
    assert_eq!(key_name(0x7B), "F12");
    assert_eq!(key_name(0x39), "9");
}

#[test]
fn an_unknown_key_is_shown_as_its_code() {
    assert_eq!(describe(config(0xFF)), "Ctrl+Alt+Key 0xFF");
    assert_eq!(key_name(0x7), "Key 0x07");
    assert_eq!(key_name(0x7C), "Key 0x7C");
    assert_eq!(key_name(0xABCD_1234), "Key 0xABCD1234");
}

#[test]
fn a_combination_without_a_modifier_is_rejected() {
    assert!(has_modifier(HotkeyConfig::default()));
    assert!(!has_modifier(HotkeyConfig {
        ctrl: false,
        alt: false,
        shift: false,
        win: false,
        key: 0x56,
    }));
}

#[test]
fn modifier_flags_always_include_no_repeat() {
    let flags = modifier_flags(HotkeyConfig::default());
    assert_ne!(flags & MOD_NOREPEAT, 0);
    assert_ne!(flags & MOD_CONTROL, 0);
    assert_ne!(flags & MOD_ALT, 0);
    assert_eq!(flags & MOD_SHIFT, 0);
    assert_eq!(flags & MOD_WIN, 0);
    assert_eq!(flags, 0x4003);
}

#[test]
fn a_fresh_control_holds_no_registration() {
    let control = HotkeyControl::new(HotkeyConfig::default());

    assert!(!control.is_registered());
    assert_eq!(control.config(), HotkeyConfig::default());
}

#[test]
fn a_refused_combination_leaves_the_previous_one_in_effect() {
    let mut control = HotkeyControl::new(config(0x56));
    let request = control.apply(config(0x56)).expect("nothing is registered yet");
    assert_eq!((request.flags, request.key), (0x4003, 0x56));
    assert!(control.answer(config(0x56), true));

    // The combination that is held is not asked for again.
    assert!(control.apply(config(0x56)).is_none());

    assert!(control.apply(config(0x57)).is_some());
    assert!(!control.answer(config(0x57), false));
    assert!(control.is_registered());
    assert_eq!(control.config(), config(0x56));

    assert!(control.answer(config(0x57), true));
    assert_eq!(control.config(), config(0x57));
}
