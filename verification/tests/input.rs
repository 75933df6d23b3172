use navigator::input::{hotkey_after_reregister, reregister_step, ReregisterStep};
use navigator::chord::{chord_is_plain_slash_only, chord_registration, parse_chord, ChordError};
use navigator::input::{
    hotkey_mods_satisfied, load_hotkey, low_level_keyboard_proc, qpc_delta_to_micros, store_hotkey, vk_session_char,
    HookAction, HookFlags, KeyMessage, ModifierKeys, SessionKey, LLKHF_ALTDOWN, LLKHF_INJECTED, MOD_ALT, MOD_CONTROL,
    MOD_NOREPEAT, MOD_SHIFT, MOD_WIN, VK_A, VK_BACK, VK_DIVIDE, VK_ESCAPE, VK_OEM_2,
};

const NO_KEYS: ModifierKeys = ModifierKeys { alt: false, ctrl: false, shift: false, lwin: false, rwin: false };

#[test]
fn default_alt_slash() {
    let (m, vk) = parse_chord("alt+/").expect("parse");
    assert_eq!(vk, VK_OEM_2);
    assert_ne!(m & MOD_ALT, 0);
    assert_ne!(m & MOD_NOREPEAT, 0);
}

#[test]
fn ctrl_shift_a() {
    let (m, vk) = parse_chord("ctrl+shift+a").expect("parse");
    assert_eq!(vk, VK_A);
    assert_ne!(m & MOD_CONTROL, 0);
    assert_ne!(m & MOD_SHIFT, 0);
}

#[test]
fn rejects_plain_key() {
    assert!(parse_chord("a").is_err());
}

#[test]
fn chord_exact_codes() {
    assert_eq!(parse_chord(" Win + F12 "), Ok((MOD_NOREPEAT | MOD_WIN, 0x7B)));
    assert_eq!(parse_chord("alt+;"), Ok((MOD_NOREPEAT | MOD_ALT, 0xBA)));
    assert_eq!(parse_chord("ctrl++esc"), Ok((MOD_NOREPEAT | MOD_CONTROL, 0x1B)));
    assert_eq!(parse_chord("shift+7"), Ok((MOD_NOREPEAT | MOD_SHIFT, 0x37)));
    assert_eq!(parse_chord("control+meta+Space"), Ok((MOD_NOREPEAT | MOD_CONTROL | MOD_WIN, 0x20)));
    assert_eq!(parse_chord("alt+back"), Ok((MOD_NOREPEAT | MOD_ALT, 0x08)));
    assert_eq!(parse_chord("alt+f01"), Ok((MOD_NOREPEAT | MOD_ALT, 0x70)));
}

#[test]
fn chord_error_variants() {
    assert_eq!(parse_chord("   "), Err(ChordError::Empty));
    assert_eq!(parse_chord("+a+"), Err(ChordError::NeedModifierAndKey));
    assert_eq!(parse_chord("hyper+a"), Err(ChordError::UnknownModifier("hyper".to_string())));
    assert_eq!(parse_chord("alt+f13"), Err(ChordError::FunctionKeyOutOfRange));
    assert_eq!(parse_chord("alt+foo"), Err(ChordError::InvalidFunctionKey("foo".to_string())));
    assert_eq!(parse_chord("alt+f99999999999"), Err(ChordError::InvalidFunctionKey("f99999999999".to_string())));
    assert_eq!(parse_chord("alt+home"), Err(ChordError::UnknownKey("home".to_string())));
    assert_eq!(parse_chord("alt+*"), Err(ChordError::UnsupportedKey('*')));
    assert_eq!(parse_chord("alt+x+ctrl+k").unwrap_err(), ChordError::UnknownModifier("x".to_string()));
}

#[test]
fn plain_slash_chord_registers_slash_without_modifiers() {
    assert!(chord_is_plain_slash_only(" / "));
    assert!(!chord_is_plain_slash_only("alt+/"));
    assert_eq!(chord_registration("/"), Ok((MOD_NOREPEAT, VK_OEM_2)));
    assert_eq!(chord_registration("alt+/"), Ok((MOD_NOREPEAT | MOD_ALT, VK_OEM_2)));
}

#[test]
fn session_chars_cover_letters_only() {
    assert_eq!(vk_session_char(0x41), Some('a'));
    assert_eq!(vk_session_char(0x5A), Some('z'));
    assert_eq!(vk_session_char(0x40), None);
    assert_eq!(vk_session_char(0x5B), None);
}

#[test]
fn qpc_micros_truncates_and_clamps() {
    assert_eq!(qpc_delta_to_micros(0, 0, 100), 0);
    assert_eq!(qpc_delta_to_micros(3, 0, 1), 333_333);
    assert_eq!(qpc_delta_to_micros(10_000_000, 100, 50), 0);
    assert_eq!(qpc_delta_to_micros(10_000_000, 0, 12_345), 1_234);
}

#[test]
fn packed_hotkey_round_trips() {
    let v = store_hotkey(MOD_ALT | MOD_NOREPEAT, VK_OEM_2);
    assert_eq!(load_hotkey(v), (MOD_ALT | MOD_NOREPEAT, VK_OEM_2));
    assert_eq!(v, ((0x4001u64) << 32) | 0xBF);
}

#[test]
fn mods_satisfied_ignores_norepeat() {
    let alt = ModifierKeys { alt: true, ..NO_KEYS };
    assert!(hotkey_mods_satisfied(MOD_ALT | MOD_NOREPEAT, alt));
    assert!(!hotkey_mods_satisfied(MOD_ALT | MOD_CONTROL, alt));
    assert!(hotkey_mods_satisfied(MOD_WIN, ModifierKeys { rwin: true, ..NO_KEYS }));
    assert!(hotkey_mods_satisfied(MOD_NOREPEAT, NO_KEYS));
}

fn flags(hint_mode: bool) -> HookFlags {
    HookFlags {
        hint_mode,
        keyboard_passthrough: false,
        plain_slash_only: false,
        reg_mods: MOD_ALT | MOD_NOREPEAT,
        reg_vk: VK_OEM_2,
    }
}

#[test]
fn hint_mode_keys_become_session_keys() {
    let mut awaiting = false;
    assert_eq!(
        low_level_keyboard_proc(KeyMessage::KeyDown, 0x44, 0, flags(true), NO_KEYS, &mut awaiting),
        HookAction::SendKey(SessionKey::Char('d'))
    );
    assert_eq!(
        low_level_keyboard_proc(KeyMessage::KeyDown, VK_BACK, 0, flags(true), NO_KEYS, &mut awaiting),
        HookAction::SendKey(SessionKey::Backspace)
    );
    assert_eq!(
        low_level_keyboard_proc(KeyMessage::KeyDown, VK_ESCAPE, 0, flags(true), NO_KEYS, &mut awaiting),
        HookAction::SendKey(SessionKey::Escape)
    );
    assert_eq!(
        low_level_keyboard_proc(KeyMessage::KeyDown, 0x31, 0, flags(true), NO_KEYS, &mut awaiting),
        HookAction::PassThrough
    );
    let ctrl = ModifierKeys { ctrl: true, ..NO_KEYS };
    assert_eq!(
        low_level_keyboard_proc(KeyMessage::KeyDown, 0x44, 0, flags(true), ctrl, &mut awaiting),
        HookAction::PassThrough
    );
    assert_eq!(
        low_level_keyboard_proc(KeyMessage::KeyDown, 0x44, LLKHF_ALTDOWN, flags(true), NO_KEYS, &mut awaiting),
        HookAction::PassThrough
    );
    let alt = ModifierKeys { alt: true, ..NO_KEYS };
    assert_eq!(
        low_level_keyboard_proc(KeyMessage::KeyDown, VK_OEM_2, 0, flags(true), alt, &mut awaiting),
        HookAction::PassThrough
    );
    assert!(!awaiting);
}

#[test]
fn plain_slash_activates_once_until_key_up() {
    let mut awaiting = false;
    let f = flags(false);
    assert_eq!(low_level_keyboard_proc(KeyMessage::KeyDown, VK_OEM_2, 0, f, NO_KEYS, &mut awaiting), HookAction::Activate);
    assert!(awaiting);
    assert_eq!(low_level_keyboard_proc(KeyMessage::KeyDown, VK_DIVIDE, 0, f, NO_KEYS, &mut awaiting), HookAction::Swallow);
    assert_eq!(low_level_keyboard_proc(KeyMessage::KeyUp, VK_OEM_2, 0, f, NO_KEYS, &mut awaiting), HookAction::Swallow);
    assert!(!awaiting);
    assert_eq!(low_level_keyboard_proc(KeyMessage::KeyUp, VK_OEM_2, 0, f, NO_KEYS, &mut awaiting), HookAction::PassThrough);
    assert_eq!(
        low_level_keyboard_proc(KeyMessage::KeyDown, VK_OEM_2, LLKHF_INJECTED, f, NO_KEYS, &mut awaiting),
        HookAction::PassThrough
    );
    let shift = ModifierKeys { shift: true, ..NO_KEYS };
    assert_eq!(low_level_keyboard_proc(KeyMessage::KeyDown, VK_OEM_2, 0, f, shift, &mut awaiting), HookAction::PassThrough);
    assert_eq!(low_level_keyboard_proc(KeyMessage::Other, VK_OEM_2, 0, f, NO_KEYS, &mut awaiting), HookAction::PassThrough);
}

#[test]
fn passthrough_mode_only_takes_escape() {
    let mut awaiting = false;
    let f = HookFlags { keyboard_passthrough: true, ..flags(true) };
    assert_eq!(
        low_level_keyboard_proc(KeyMessage::KeyDown, VK_ESCAPE, 0, f, NO_KEYS, &mut awaiting),
        HookAction::SendKey(SessionKey::Escape)
    );
    assert_eq!(low_level_keyboard_proc(KeyMessage::KeyDown, 0x41, 0, f, NO_KEYS, &mut awaiting), HookAction::PassThrough);
    let s = HookFlags { plain_slash_only: true, ..flags(true) };
    assert_eq!(low_level_keyboard_proc(KeyMessage::KeyDown, VK_OEM_2, 0, s, NO_KEYS, &mut awaiting), HookAction::Activate);
    assert!(!awaiting);
}

#[test]
fn failed_reregistration_keeps_old_chord() {
    assert_eq!(reregister_step(true), ReregisterStep::StoreOnly);
    assert_eq!(reregister_step(false), ReregisterStep::Register);
    assert_eq!(hotkey_after_reregister(false, false, (1, 2), (3, 4)), (1, 2));
    assert_eq!(hotkey_after_reregister(false, true, (1, 2), (3, 4)), (3, 4));
    assert_eq!(hotkey_after_reregister(true, false, (1, 2), (3, 4)), (3, 4));
}
