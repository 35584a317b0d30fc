use lapse::config::Config;
use lapse::hotkeys::{
    bind_pressed_key, KeyPress,
    apply_hotkey_binding, daemon_hotkey_action, format_hotkey, hotkey_event, key_code_name,
    modifier_bits, modifiers_from_bits, HotkeyEvent, ModifierKeys,
};
use lapse::recorder::{Recorder, RecorderAction, RecordingMode};

#[test]
fn modifier_bits_from_held_keys() {
    assert_eq!(modifier_bits(false, false, false, false, false), 0);
    assert_eq!(modifier_bits(true, false, false, false, false), 1);
    assert_eq!(modifier_bits(false, true, false, false, false), 2);
    assert_eq!(modifier_bits(false, false, true, false, false), 4);
    assert_eq!(modifier_bits(false, false, false, true, false), 8);
    assert_eq!(modifier_bits(false, false, false, false, true), 8);
    assert_eq!(modifier_bits(true, true, true, true, true), 15);
}

#[test]
fn modifiers_read_from_bits() {
    assert_eq!(modifiers_from_bits(0), None);
    assert_eq!(modifiers_from_bits(16), None);
    assert_eq!(
        modifiers_from_bits(5),
        Some(ModifierKeys { alt: true, control: false, shift: true, super_key: false })
    );
    assert_eq!(
        modifiers_from_bits(0xFFFF_FFFF),
        Some(ModifierKeys { alt: true, control: true, shift: true, super_key: true })
    );
}

#[test]
fn modifier_round_trip() {
    for bits in 0..16u32 {
        let (a, c, s, m) = (bits & 1 != 0, bits & 2 != 0, bits & 4 != 0, bits & 8 != 0);
        let back = modifiers_from_bits(modifier_bits(a, c, s, m, false));
        if bits == 0 {
            assert_eq!(back, None);
        } else {
            assert_eq!(back, Some(ModifierKeys { alt: a, control: c, shift: s, super_key: m }));
        }
    }
}

#[test]
fn hotkey_labels() {
    assert_eq!(format_hotkey(0, "F10"), "F10");
    assert_eq!(format_hotkey(3, "KeyS"), "Ctrl + Alt + S");
    assert_eq!(format_hotkey(15, "Digit1"), "Ctrl + Alt + Shift + Super + Digit1");
    assert_eq!(format_hotkey(4, "KeyKeyK"), "Shift + K");
}

#[test]
fn key_codes_of_pressed_keys() {
    assert_eq!(key_code_name("A"), "KeyA");
    assert_eq!(key_code_name("Z"), "KeyZ");
    assert_eq!(key_code_name("Num0"), "Digit0");
    assert_eq!(key_code_name("Num9"), "Digit9");
    assert_eq!(key_code_name("F12"), "F12");
    assert_eq!(key_code_name("ArrowDown"), "ArrowDown");
    assert_eq!(key_code_name("PageUp"), "PageUp");
    assert_eq!(key_code_name("Comma"), "F10");
    assert_eq!(key_code_name("F13"), "F10");
    assert_eq!(key_code_name("a"), "F10");
    assert_eq!(key_code_name("NumX"), "F10");
}

#[test]
fn a_letter_key_is_shown_as_the_letter() {
    let bits = modifier_bits(false, true, false, false, false);
    assert_eq!(format_hotkey(bits, &key_code_name("K")), "Ctrl + K");
}

#[test]
fn binding_a_key_changes_only_the_replay_hotkey() {
    let mut c = Config::for_home("/h");
    apply_hotkey_binding(&mut c, "R", true, false, true, false, false);
    assert_eq!(c.hotkey_replay, "KeyR");
    assert_eq!(c.hotkey_replay_mod, 5);
    assert_eq!(c.hotkey_record, "F9");
    assert_eq!(c.save_path, "/h/Videos/Lapse");
}

#[test]
fn hotkey_events() {
    assert_eq!(hotkey_event(1, false, 1, 2), Some(HotkeyEvent::SaveReplay));
    assert_eq!(hotkey_event(2, false, 1, 2), Some(HotkeyEvent::ToggleRecord));
    assert_eq!(hotkey_event(1, true, 1, 2), None);
    assert_eq!(hotkey_event(3, false, 1, 2), None);
}

#[test]
fn daemon_reacts_to_both_hotkeys() {
    let mut r = Recorder::new(Config::for_home("/h"));
    assert!(matches!(daemon_hotkey_action(HotkeyEvent::SaveReplay, &mut r, "x.mp4"), RecorderAction::Nothing));
    r.launched(9, RecordingMode::Replay);
    assert!(matches!(
        daemon_hotkey_action(HotkeyEvent::SaveReplay, &mut r, "x.mp4"),
        RecorderAction::SaveClip { pid: 9, .. }
    ));
    assert!(matches!(
        daemon_hotkey_action(HotkeyEvent::ToggleRecord, &mut r, "x.mp4"),
        RecorderAction::Launch { mode: RecordingMode::Recording, replacing: Some(9), .. }
    ));
    assert!(!r.is_running());
}

#[test]
fn default_hotkey_saves_the_last_seconds() {
    let c = Config::for_home("/home/ana");
    assert_eq!(format_hotkey(c.hotkey_replay_mod, &c.hotkey_replay), "F10");
    let mut r = Recorder::new(c);
    r.launched(100, RecordingMode::Replay);
    let event = hotkey_event(17, false, 17, 18).unwrap();
    match daemon_hotkey_action(event, &mut r, "x.mp4") {
        RecorderAction::SaveClip { kill_args, save_dir, .. } => {
            assert_eq!(kill_args, vec!["-SIGUSR1".to_string(), "100".to_string()]);
            assert_eq!(save_dir, "/home/ana/Videos/Lapse");
        }
        _ => panic!("expected a save"),
    }
}

#[test]
fn binding_takes_one_key_while_armed() {
    let press = |name: &str| KeyPress {
        key_name: name.to_string(),
        alt: false,
        ctrl: true,
        shift: false,
        mac_cmd: false,
        command: false,
    };
    let mut c = Config::for_home("/h");
    let mut armed = false;
    bind_pressed_key(&mut c, &mut armed, Some(press("Q")));
    assert_eq!(c.hotkey_replay, "F10");
    armed = true;
    bind_pressed_key(&mut c, &mut armed, None);
    assert!(armed);
    assert_eq!(c.hotkey_replay, "F10");
    bind_pressed_key(&mut c, &mut armed, Some(press("Q")));
    assert!(!armed);
    assert_eq!(c.hotkey_replay, "KeyQ");
    assert_eq!(c.hotkey_replay_mod, 2);
}
