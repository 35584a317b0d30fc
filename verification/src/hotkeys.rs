//! Global hotkeys: the modifier bits kept in the settings, how a key press
//! is recorded and shown, and which event a pressed hotkey raises.

use vstd::prelude::*;
use crate::config::Config;
use crate::recorder::{
    launches, recording_args, recording_output, replay_args, saves_clip, Recorder, RecorderAction,
    RecordingMode,
};
use crate::text::{chars_of, push_chars, push_str, replace_all, replace_all_exec, same_chars};

verus! {

broadcast use vstd::string::group_string_axioms;

/// What a global hotkey asks for.
#[derive(Clone, Copy, PartialEq, Eq, Structural, Debug)]
pub enum HotkeyEvent {
    SaveReplay,
    ToggleRecord,
}

/// The modifier keys of a hotkey.
#[derive(Clone, Copy, PartialEq, Eq, Structural, Debug)]
pub struct ModifierKeys {
    pub alt: bool,
    pub control: bool,
    pub shift: bool,
    pub super_key: bool,
}

/// Whether bit `k` of `bits` is set.
pub open spec fn bit(bits: u32, k: nat) -> bool {
    (bits as nat / vstd::arithmetic::power2::pow2(k)) % 2 == 1
}

/// The modifier bits of the settings: bit 0 for Alt, 1 for Ctrl, 2 for
/// Shift and 3 for Super.
pub open spec fn modifier_value(alt: bool, ctrl: bool, shift: bool, sup: bool) -> u32 {
    ((if alt { 1u32 } else { 0u32 }) + (if ctrl { 2u32 } else { 0u32 }) + (if shift {
        4u32
    } else {
        0u32
    }) + (if sup { 8u32 } else { 0u32 })) as u32
}

/// The modifier keys that modifier bits select; `None` where they select
/// none.
pub open spec fn modifiers_of(bits: u32) -> Option<ModifierKeys> {
    let m = ModifierKeys { alt: bit(bits, 0), control: bit(bits, 1), shift: bit(bits, 2), super_key: bit(bits, 3) };
    if !m.alt && !m.control && !m.shift && !m.super_key {
        None
    } else {
        Some(m)
    }
}

proof fn lemma_pow2_small()
    ensures
        vstd::arithmetic::power2::pow2(0) == 1,
        vstd::arithmetic::power2::pow2(1) == 2,
        vstd::arithmetic::power2::pow2(2) == 4,
        vstd::arithmetic::power2::pow2(3) == 8,
{
    vstd::arithmetic::power2::lemma2_to64();
}

/// The modifier keys that modifier bits select.
pub fn modifiers_from_bits(bits: u32) -> (m: Option<ModifierKeys>)
    ensures
        m == modifiers_of(bits),
{
    proof {
        lemma_pow2_small();
    }
    assert(((bits & 1u32) != 0) == (bits % 2 == 1)) by (bit_vector);
    assert(((bits & 2u32) != 0) == ((bits / 2) % 2 == 1)) by (bit_vector);
    assert(((bits & 4u32) != 0) == ((bits / 4) % 2 == 1)) by (bit_vector);
    assert(((bits & 8u32) != 0) == ((bits / 8) % 2 == 1)) by (bit_vector);
    let m = ModifierKeys {
        alt: bits & (1u32 << 0u32) != 0,
        control: bits & (1u32 << 1u32) != 0,
        shift: bits & (1u32 << 2u32) != 0,
        super_key: bits & (1u32 << 3u32) != 0,
    };
    assert(1u32 << 0u32 == 1u32) by (bit_vector);
    assert(1u32 << 1u32 == 2u32) by (bit_vector);
    assert(1u32 << 2u32 == 4u32) by (bit_vector);
    assert(1u32 << 3u32 == 8u32) by (bit_vector);
    if !m.alt && !m.control && !m.shift && !m.super_key {
        None
    } else {
        Some(m)
    }
}

/// The modifier bits for a key press, from the modifiers held with it;
/// the Mac command key and the platform command key both count as Super.
pub fn modifier_bits(alt: bool, ctrl: bool, shift: bool, mac_cmd: bool, command: bool) -> (b: u32)
    ensures
        b == modifier_value(alt, ctrl, shift, mac_cmd || command),
{
    let mut b: u32 = 0;
    if alt {
        b = b + 1;
    }
    if ctrl {
        b = b + 2;
    }
    if shift {
        b = b + 4;
    }
    if mac_cmd || command {
        b = b + 8;
    }
    b
}

/// Reading modifier bits back gives the keys that were held, and none
/// where none was.
pub proof fn lemma_modifier_bits_round_trip(alt: bool, ctrl: bool, shift: bool, sup: bool)
    ensures
        modifiers_of(modifier_value(alt, ctrl, shift, sup)) == if !alt && !ctrl && !shift && !sup {
            None
        } else {
            Some(ModifierKeys { alt, control: ctrl, shift, super_key: sup })
        },
{
    lemma_pow2_small();
}

/// The label of a hotkey: `Ctrl + `, `Alt + `, `Shift + ` and `Super + `
/// for the modifiers held, in that order, then the key's name with every
/// `Key` removed.
pub open spec fn hotkey_label(bits: u32, key_name: Seq<char>) -> Seq<char> {
    (if bit(bits, 1) { "Ctrl + "@ } else { seq![] }) + (if bit(bits, 0) { "Alt + "@ } else { seq![] })
        + (if bit(bits, 2) { "Shift + "@ } else { seq![] }) + (if bit(bits, 3) {
        "Super + "@
    } else {
        seq![]
    }) + replace_all(key_name, "Key"@, seq![])
}

/// The label of a hotkey, from its modifier bits and the name of its key
/// code.
pub fn format_hotkey(bits: u32, key_name: &str) -> (s: String)
    ensures
        s@ == hotkey_label(bits, key_name@),
{
    let m = modifiers_from_bits(bits);
    let (alt, ctrl, shift, sup) = match m {
        Some(k) => (k.alt, k.control, k.shift, k.super_key),
        None => (false, false, false, false),
    };
    let mut s = String::new();
    if ctrl {
        push_str(&mut s, "Ctrl + ");
    }
    if alt {
        push_str(&mut s, "Alt + ");
    }
    if shift {
        push_str(&mut s, "Shift + ");
    }
    if sup {
        push_str(&mut s, "Super + ");
    }
    let key = chars_of(key_name);
    let pat = chars_of("Key");
    let nothing: Vec<char> = Vec::new();
    proof {
        reveal_strlit("Key");
    }
    let rest = replace_all_exec(&key, &pat, &nothing);
    assert(nothing@ =~= Seq::<char>::empty());
    push_chars(&mut s, &rest);
    assert(s@ =~= hotkey_label(bits, key_name@));
    s
}

/// A letter key bound by pressing it is shown as the keys held with it and
/// the letter itself.
pub proof fn lemma_letter_key_label(alt: bool, ctrl: bool, shift: bool, sup: bool, k: Seq<char>)
    requires
        is_letter_key(k),
    ensures
        hotkey_label(modifier_value(alt, ctrl, shift, sup), key_code_of(k)) == (if ctrl {
            "Ctrl + "@
        } else {
            seq![]
        }) + (if alt { "Alt + "@ } else { seq![] }) + (if shift { "Shift + "@ } else { seq![] }) + (
        if sup {
            "Super + "@
        } else {
            seq![]
        }) + k,
{
    lemma_pow2_small();
    reveal_strlit("Key");
    let code = key_code_of(k);
    assert(code =~= "Key"@ + k);
    assert(code.take(3) =~= "Key"@);
    assert(code.skip(3) =~= k);
    assert(replace_all(k, "Key"@, seq![]) == k);
    assert(replace_all(code, "Key"@, seq![]) =~= k);
}

/// The key names that keep their name as key codes.
pub open spec fn same_name_keys() -> Seq<Seq<char>> {
    seq![
        "F1"@, "F2"@, "F3"@, "F4"@, "F5"@, "F6"@, "F7"@, "F8"@, "F9"@, "F10"@, "F11"@, "F12"@,
        "Space"@, "Enter"@, "Escape"@, "Backspace"@, "Tab"@, "Insert"@, "Delete"@, "Home"@,
        "End"@, "PageUp"@, "PageDown"@, "ArrowLeft"@, "ArrowRight"@, "ArrowUp"@, "ArrowDown"@,
    ]
}

/// Whether a key name is a single capital letter.
pub open spec fn is_letter_key(k: Seq<char>) -> bool {
    k.len() == 1 && 'A' <= k[0] <= 'Z'
}

/// Whether a key name is `Num` and a digit.
pub open spec fn is_digit_key(k: Seq<char>) -> bool {
    k.len() == 4 && k.take(3) == "Num"@ && '0' <= k[3] <= '9'
}

/// The key code name for a pressed key's name: letters become `Key` and
/// the letter, `Num` digits become `Digit` and the digit, function keys,
/// whitespace, editing and arrow keys keep their name, and any other key
/// becomes `F10`.
pub open spec fn key_code_of(k: Seq<char>) -> Seq<char> {
    if is_letter_key(k) {
        "Key"@ + k
    } else if is_digit_key(k) {
        "Digit"@ + k.skip(3)
    } else if same_name_keys().contains(k) {
        k
    } else {
        "F10"@
    }
}

/// The function keys, whitespace, editing and arrow keys keep their own
/// name as key codes: F1 to F12, Space, Enter, Escape, Backspace, Tab,
/// Insert, Delete, Home, End, PageUp, PageDown and the four arrow keys.
pub proof fn lemma_named_keys_keep_name(k: Seq<char>)
    requires
        k == "F1"@
            || k == "F2"@
            || k == "F3"@
            || k == "F4"@
            || k == "F5"@
            || k == "F6"@
            || k == "F7"@
            || k == "F8"@
            || k == "F9"@
            || k == "F10"@
            || k == "F11"@
            || k == "F12"@
            || k == "Space"@
            || k == "Enter"@
            || k == "Escape"@
            || k == "Backspace"@
            || k == "Tab"@
            || k == "Insert"@
            || k == "Delete"@
            || k == "Home"@
            || k == "End"@
            || k == "PageUp"@
            || k == "PageDown"@
            || k == "ArrowLeft"@
            || k == "ArrowRight"@
            || k == "ArrowUp"@
            || k == "ArrowDown"@
    ensures
        key_code_of(k) == k,
{
    reveal_strlit("Num");
    reveal_strlit("F1");
    reveal_strlit("F2");
    reveal_strlit("F3");
    reveal_strlit("F4");
    reveal_strlit("F5");
    reveal_strlit("F6");
    reveal_strlit("F7");
    reveal_strlit("F8");
    reveal_strlit("F9");
    reveal_strlit("F10");
    reveal_strlit("F11");
    reveal_strlit("F12");
    reveal_strlit("Space");
    reveal_strlit("Enter");
    reveal_strlit("Escape");
    reveal_strlit("Backspace");
    reveal_strlit("Tab");
    reveal_strlit("Insert");
    reveal_strlit("Delete");
    reveal_strlit("Home");
    reveal_strlit("End");
    reveal_strlit("PageUp");
    reveal_strlit("PageDown");
    reveal_strlit("ArrowLeft");
    reveal_strlit("ArrowRight");
    reveal_strlit("ArrowUp");
    reveal_strlit("ArrowDown");
    assert(!is_letter_key(k));
    assert(!is_digit_key(k)) by {
        if k.len() == 4 {
            assert(k.take(3)[0] == k[0]);
        }
    }
    if k == "F1"@ {
        assert(same_name_keys()[0] == k);
    }
    if k == "F2"@ {
        assert(same_name_keys()[1] == k);
    }
    if k == "F3"@ {
        assert(same_name_keys()[2] == k);
    }
    if k == "F4"@ {
        assert(same_name_keys()[3] == k);
    }
    if k == "F5"@ {
        assert(same_name_keys()[4] == k);
    }
    if k == "F6"@ {
        assert(same_name_keys()[5] == k);
    }
    if k == "F7"@ {
        assert(same_name_keys()[6] == k);
    }
    if k == "F8"@ {
        assert(same_name_keys()[7] == k);
    }
    if k == "F9"@ {
        assert(same_name_keys()[8] == k);
    }
    if k == "F10"@ {
        assert(same_name_keys()[9] == k);
    }
    if k == "F11"@ {
        assert(same_name_keys()[10] == k);
    }
    if k == "F12"@ {
        assert(same_name_keys()[11] == k);
    }
    if k == "Space"@ {
        assert(same_name_keys()[12] == k);
    }
    if k == "Enter"@ {
        assert(same_name_keys()[13] == k);
    }
    if k == "Escape"@ {
        assert(same_name_keys()[14] == k);
    }
    if k == "Backspace"@ {
        assert(same_name_keys()[15] == k);
    }
    if k == "Tab"@ {
        assert(same_name_keys()[16] == k);
    }
    if k == "Insert"@ {
        assert(same_name_keys()[17] == k);
    }
    if k == "Delete"@ {
        assert(same_name_keys()[18] == k);
    }
    if k == "Home"@ {
        assert(same_name_keys()[19] == k);
    }
    if k == "End"@ {
        assert(same_name_keys()[20] == k);
    }
    if k == "PageUp"@ {
        assert(same_name_keys()[21] == k);
    }
    if k == "PageDown"@ {
        assert(same_name_keys()[22] == k);
    }
    if k == "ArrowLeft"@ {
        assert(same_name_keys()[23] == k);
    }
    if k == "ArrowRight"@ {
        assert(same_name_keys()[24] == k);
    }
    if k == "ArrowUp"@ {
        assert(same_name_keys()[25] == k);
    }
    if k == "ArrowDown"@ {
        assert(same_name_keys()[26] == k);
    }
}

/// A capital letter key becomes `Key` and the letter, and the key `Num`
/// followed by a digit becomes `Digit` and the digit.
pub proof fn lemma_letter_and_digit_codes(letter: char, digit: char)
    requires
        'A' <= letter <= 'Z',
        '0' <= digit <= '9',
    ensures
        key_code_of(seq![letter]) == "Key"@ + seq![letter],
        key_code_of("Num"@ + seq![digit]) == "Digit"@ + seq![digit],
{
    reveal_strlit("Num");
    let k = "Num"@ + seq![digit];
    assert(k.take(3) =~= "Num"@);
    assert(k.skip(3) =~= seq![digit]);
    assert(!is_letter_key(k));
}

/// Any other key name, neither a capital letter, nor `Num` and a digit,
/// nor one of the function, whitespace, editing and arrow keys, falls back
/// to `F10`.
pub proof fn lemma_other_keys_fall_back(k: Seq<char>)
    requires
        !(k.len() == 1 && 'A' <= k[0] <= 'Z'),
        !(k.len() == 4 && k[0] == 'N' && k[1] == 'u' && k[2] == 'm' && '0' <= k[3] <= '9'),
        k != "F1"@,
        k != "F2"@,
        k != "F3"@,
        k != "F4"@,
        k != "F5"@,
        k != "F6"@,
        k != "F7"@,
        k != "F8"@,
        k != "F9"@,
        k != "F10"@,
        k != "F11"@,
        k != "F12"@,
        k != "Space"@,
        k != "Enter"@,
        k != "Escape"@,
        k != "Backspace"@,
        k != "Tab"@,
        k != "Insert"@,
        k != "Delete"@,
        k != "Home"@,
        k != "End"@,
        k != "PageUp"@,
        k != "PageDown"@,
        k != "ArrowLeft"@,
        k != "ArrowRight"@,
        k != "ArrowUp"@,
        k != "ArrowDown"@,
    ensures
        key_code_of(k) == "F10"@,
{
    reveal_strlit("Num");
    reveal_strlit("F1");
    reveal_strlit("F2");
    reveal_strlit("F3");
    reveal_strlit("F4");
    reveal_strlit("F5");
    reveal_strlit("F6");
    reveal_strlit("F7");
    reveal_strlit("F8");
    reveal_strlit("F9");
    reveal_strlit("F10");
    reveal_strlit("F11");
    reveal_strlit("F12");
    reveal_strlit("Space");
    reveal_strlit("Enter");
    reveal_strlit("Escape");
    reveal_strlit("Backspace");
    reveal_strlit("Tab");
    reveal_strlit("Insert");
    reveal_strlit("Delete");
    reveal_strlit("Home");
    reveal_strlit("End");
    reveal_strlit("PageUp");
    reveal_strlit("PageDown");
    reveal_strlit("ArrowLeft");
    reveal_strlit("ArrowRight");
    reveal_strlit("ArrowUp");
    reveal_strlit("ArrowDown");
    assert(!is_digit_key(k)) by {
        if is_digit_key(k) {
            assert(k.take(3)[0] == k[0]);
            assert(k.take(3)[1] == k[1]);
            assert(k.take(3)[2] == k[2]);
        }
    }
    assert(!same_name_keys().contains(k)) by {
        if same_name_keys().contains(k) {
            let i = choose|i: int| 0 <= i < same_name_keys().len() && same_name_keys()[i] == k;
            assert(0 <= i < 27);
        }
    }
}

fn same_name_list() -> (v: Vec<Vec<char>>)
    ensures
        crate::text::holds_seqs(v@, same_name_keys()),
{
    let mut v: Vec<Vec<char>> = Vec::new();
    v.push(chars_of("F1"));
    v.push(chars_of("F2"));
    v.push(chars_of("F3"));
    v.push(chars_of("F4"));
    v.push(chars_of("F5"));
    v.push(chars_of("F6"));
    v.push(chars_of("F7"));
    v.push(chars_of("F8"));
    v.push(chars_of("F9"));
    v.push(chars_of("F10"));
    v.push(chars_of("F11"));
    v.push(chars_of("F12"));
    v.push(chars_of("Space"));
    v.push(chars_of("Enter"));
    v.push(chars_of("Escape"));
    v.push(chars_of("Backspace"));
    v.push(chars_of("Tab"));
    v.push(chars_of("Insert"));
    v.push(chars_of("Delete"));
    v.push(chars_of("Home"));
    v.push(chars_of("End"));
    v.push(chars_of("PageUp"));
    v.push(chars_of("PageDown"));
    v.push(chars_of("ArrowLeft"));
    v.push(chars_of("ArrowRight"));
    v.push(chars_of("ArrowUp"));
    v.push(chars_of("ArrowDown"));
    v
}

/// The key code name to register for a pressed key, from the key's name.
pub fn key_code_name(key_name: &str) -> (s: String)
    ensures
        s@ == key_code_of(key_name@),
{
    let k = chars_of(key_name);
    let mut s = String::new();
    if k.len() == 1 && 'A' <= k[0] && k[0] <= 'Z' {
        push_str(&mut s, "Key");
        push_chars(&mut s, &k);
        assert(s@ =~= key_code_of(key_name@));
        return s;
    }
    let num = chars_of("Num");
    proof {
        reveal_strlit("Num");
    }
    if k.len() == 4 && k[0] == num[0] && k[1] == num[1] && k[2] == num[2] && '0' <= k[3] && k[3]
        <= '9' {
        assert(k@.take(3) =~= "Num"@);
        push_str(&mut s, "Digit");
        crate::text::push_char(&mut s, k[3]);
        assert(k@.skip(3) =~= seq![k@[3]]);
        assert(s@ =~= key_code_of(key_name@));
        return s;
    }
    assert(!is_digit_key(k@)) by {
        if is_digit_key(k@) {
            assert(k@.take(3)[0] == k@[0]);
            assert(k@.take(3)[1] == k@[1]);
            assert(k@.take(3)[2] == k@[2]);
        }
    }
    let names = same_name_list();
    let mut i: usize = 0;
    while i < names.len()
        invariant
            i <= names.len(),
            crate::text::holds_seqs(names@, same_name_keys()),
            forall|j: int| 0 <= j < i ==> same_name_keys()[j] != k@,
            !is_letter_key(k@),
            !is_digit_key(k@),
            k@ == key_name@,
            s@ == Seq::<char>::empty(),
        decreases names.len() - i,
    {
        if same_chars(&names[i], &k) {
            assert(same_name_keys().contains(k@)) by {
                assert(same_name_keys()[i as int] == k@);
            }
            push_chars(&mut s, &k);
            assert(s@ =~= key_code_of(key_name@));
            return s;
        }
        i = i + 1;
    }
    assert(!same_name_keys().contains(k@));
    push_str(&mut s, "F10");
    assert(s@ =~= key_code_of(key_name@));
    s
}

/// The event that a global hotkey raises: none when the key is released,
/// saving the replay for the replay hotkey, toggling recording for the
/// record hotkey, and none for any other hotkey.
pub fn hotkey_event(id: u32, released: bool, replay_id: u32, record_id: u32) -> (e: Option<
    HotkeyEvent,
>)
    ensures
        e == (if released {
            None
        } else if id == replay_id {
            Some(HotkeyEvent::SaveReplay)
        } else if id == record_id {
            Some(HotkeyEvent::ToggleRecord)
        } else {
            None
        }),
{
    if released {
        None
    } else if id == replay_id {
        Some(HotkeyEvent::SaveReplay)
    } else if id == record_id {
        Some(HotkeyEvent::ToggleRecord)
    } else {
        None
    }
}

/// What the daemon does for a hotkey event: the replay hotkey saves the
/// replay; the record hotkey starts a manual recording into
/// `recording_file`, or ends the running one and brings the replay buffer
/// back.
pub fn daemon_hotkey_action(event: HotkeyEvent, recorder: &mut Recorder, recording_file: &str) -> (a:
    RecorderAction)
    ensures
        final(recorder).settings() == old(recorder).settings(),
        event == HotkeyEvent::SaveReplay ==> *final(recorder) == *old(recorder) && match old(
            recorder,
        ).process() {
            Some(pid) => if old(recorder).mode() == RecordingMode::Replay {
                saves_clip(a, pid, old(recorder).settings())
            } else {
                a is Nothing
            },
            None => a is Nothing,
        },
        event == HotkeyEvent::ToggleRecord ==> {
            &&& final(recorder).process() is None
            &&& old(recorder).mode() == RecordingMode::Recording ==> launches(
                a,
                old(recorder).settings(),
                replay_args(old(recorder).settings()),
                RecordingMode::Replay,
                old(recorder).process(),
            )
            &&& old(recorder).mode() != RecordingMode::Recording ==> launches(
                a,
                old(recorder).settings(),
                recording_args(
                    old(recorder).settings(),
                    recording_output(old(recorder).settings(), recording_file@),
                ),
                RecordingMode::Recording,
                old(recorder).process(),
            )
        },
{
    match event {
        HotkeyEvent::SaveReplay => recorder.save_replay(),
        HotkeyEvent::ToggleRecord => recorder.toggle_recording(recording_file),
    }
}

/// Records a key pressed while the replay hotkey is being bound: its key
/// code and the modifiers held with it become the replay hotkey; the rest
/// of the settings stay.
pub fn apply_hotkey_binding(
    cfg: &mut Config,
    key_name: &str,
    alt: bool,
    ctrl: bool,
    shift: bool,
    mac_cmd: bool,
    command: bool,
)
    ensures
        final(cfg).hotkey_replay@ == key_code_of(key_name@),
        final(cfg).hotkey_replay_mod == modifier_value(alt, ctrl, shift, mac_cmd || command),
        final(cfg).save_path == old(cfg).save_path,
        final(cfg).recorder_path == old(cfg).recorder_path,
        final(cfg).replay_seconds == old(cfg).replay_seconds,
        final(cfg).hotkey_record == old(cfg).hotkey_record,
        final(cfg).hotkey_record_mod == old(cfg).hotkey_record_mod,
        final(cfg).audio_output == old(cfg).audio_output,
        final(cfg).audio_input == old(cfg).audio_input,
        final(cfg).quality == old(cfg).quality,
        final(cfg).fps == old(cfg).fps,
        final(cfg).resolution == old(cfg).resolution,
        final(cfg).monitor == old(cfg).monitor,
        final(cfg).gpu == old(cfg).gpu,
{
    cfg.hotkey_replay = key_code_name(key_name);
    cfg.hotkey_replay_mod = modifier_bits(alt, ctrl, shift, mac_cmd, command);
}


/// A key press handed to the window while it waits for the replay hotkey:
/// the key's name and the modifiers held with it.
pub struct KeyPress {
    pub key_name: String,
    pub alt: bool,
    pub ctrl: bool,
    pub shift: bool,
    pub mac_cmd: bool,
    pub command: bool,
}

/// One frame of binding the replay hotkey: while `armed`, a pressed key
/// becomes the replay hotkey and disarms the binding; otherwise, or when no
/// key was pressed, nothing changes.
pub fn bind_pressed_key(cfg: &mut Config, armed: &mut bool, pressed: Option<KeyPress>)
    ensures
        *old(armed) && pressed is Some ==> {
            let k = pressed->0;
            &&& !*final(armed)
            &&& final(cfg).hotkey_replay@ == key_code_of(k.key_name@)
            &&& final(cfg).hotkey_replay_mod == modifier_value(
                k.alt,
                k.ctrl,
                k.shift,
                k.mac_cmd || k.command,
            )
            &&& final(cfg).save_path == old(cfg).save_path
            &&& final(cfg).recorder_path == old(cfg).recorder_path
            &&& final(cfg).replay_seconds == old(cfg).replay_seconds
            &&& final(cfg).hotkey_record == old(cfg).hotkey_record
            &&& final(cfg).hotkey_record_mod == old(cfg).hotkey_record_mod
            &&& final(cfg).audio_output == old(cfg).audio_output
            &&& final(cfg).audio_input == old(cfg).audio_input
            &&& final(cfg).quality == old(cfg).quality
            &&& final(cfg).fps == old(cfg).fps
            &&& final(cfg).resolution == old(cfg).resolution
            &&& final(cfg).monitor == old(cfg).monitor
            &&& final(cfg).gpu == old(cfg).gpu
        },
        !(*old(armed) && pressed is Some) ==> *final(cfg) == *old(cfg) && *final(armed)
            == *old(armed),
{
    if *armed {
        match pressed {
            Some(k) => {
                apply_hotkey_binding(
                    cfg,
                    k.key_name.as_str(),
                    k.alt,
                    k.ctrl,
                    k.shift,
                    k.mac_cmd,
                    k.command,
                );
                *armed = false;
            },
            None => {},
        }
    }
}

} // verus!
