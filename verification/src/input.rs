//! Input events, the activation chord and the keyboard-hook decisions of hint mode.
//!
//! Key and modifier codes are the Win32 virtual-key and `RegisterHotKey` values.

use vstd::prelude::*;

verus! {

/// `RegisterHotKey` id of the primary chord.
pub const PRIMARY_HOTKEY_ID: i32 = 1;

/// `MOD_ALT`.
pub const MOD_ALT: u32 = 0x0001;
/// `MOD_CONTROL`.
pub const MOD_CONTROL: u32 = 0x0002;
/// `MOD_SHIFT`.
pub const MOD_SHIFT: u32 = 0x0004;
/// `MOD_WIN`.
pub const MOD_WIN: u32 = 0x0008;
/// `MOD_NOREPEAT`.
pub const MOD_NOREPEAT: u32 = 0x4000;

pub const VK_BACK: u32 = 0x08;
pub const VK_TAB: u32 = 0x09;
pub const VK_ESCAPE: u32 = 0x1B;
pub const VK_SPACE: u32 = 0x20;
pub const VK_0: u32 = 0x30;
pub const VK_A: u32 = 0x41;
pub const VK_Z: u32 = 0x5A;
/// Numpad `/`.
pub const VK_DIVIDE: u32 = 0x6F;
pub const VK_F1: u32 = 0x70;
/// `;:` on US layouts.
pub const VK_OEM_1: u32 = 0xBA;
pub const VK_OEM_PLUS: u32 = 0xBB;
pub const VK_OEM_COMMA: u32 = 0xBC;
pub const VK_OEM_MINUS: u32 = 0xBD;
pub const VK_OEM_PERIOD: u32 = 0xBE;
/// `/?` on US layouts.
pub const VK_OEM_2: u32 = 0xBF;
pub const VK_OEM_3: u32 = 0xC0;
pub const VK_OEM_4: u32 = 0xDB;
pub const VK_OEM_5: u32 = 0xDC;
pub const VK_OEM_6: u32 = 0xDD;
pub const VK_OEM_7: u32 = 0xDE;

/// Low-level hook flag: the event was injected.
pub const LLKHF_INJECTED: u32 = 0x10;
/// Low-level hook flag: Alt is down.
pub const LLKHF_ALTDOWN: u32 = 0x20;

/// Snapshot emitted when the primary hotkey fires.
#[derive(Debug, Clone, Copy, PartialEq, Eq, Structural)]
pub struct HotkeyPress {
    /// `RegisterHotKey` id; the primary id for plain-`/` activations too.
    pub id: i32,
    /// Foreground window at trigger time.
    pub captured_hwnd: usize,
    /// Time spent reading the foreground window, in microseconds.
    pub latency_us: u64,
    /// The activation used plain `/` because focus was not in a text field.
    pub from_plain_slash: bool,
}

/// Keystrokes delivered while hint mode is active.
#[derive(Debug, Clone, Copy, PartialEq, Eq, Structural)]
pub enum SessionKey {
    Char(char),
    Escape,
    Backspace,
}

/// Events from the input worker.
#[derive(Debug, Clone, Copy, PartialEq, Eq, Structural)]
pub enum InputEvent {
    Hotkey(HotkeyPress),
    SessionKey(SessionKey),
}

/// `t1 - t0`, saturating at the `i64` bounds.
pub open spec fn qpc_saturating_delta(t0: int, t1: int) -> int {
    if t1 - t0 > i64::MAX { i64::MAX as int } else if t1 - t0 < i64::MIN { i64::MIN as int } else { t1 - t0 }
}

/// `t1 - t0` between two performance-counter readings, saturating at the `i64` bounds.
pub fn qpc_delta(t0: i64, t1: i64) -> (r: i64)
    ensures
        r == qpc_saturating_delta(t0 as int, t1 as int),
{
    let d = (t1 as i128) - (t0 as i128);
    if d > i64::MAX as i128 {
        i64::MAX
    } else if d < i64::MIN as i128 {
        i64::MIN
    } else {
        d as i64
    }
}

/// Microseconds elapsed between two performance-counter readings, rounded toward zero and
/// never negative (before it is cast to `u64`).
pub open spec fn qpc_micros_spec(freq: int, t0: int, t1: int) -> int {
    if freq <= 0 {
        0
    } else {
        let dt = qpc_saturating_delta(t0, t1);
        let q = crate::geom::tdiv(dt * 1_000_000, freq);
        if q < 0 { 0 } else { q }
    }
}

/// Converts a performance-counter delta to microseconds (`0` when the frequency is not positive).
pub fn qpc_delta_to_micros(freq: i64, t0: i64, t1: i64) -> (r: u64)
    ensures
        r == qpc_micros_spec(freq as int, t0 as int, t1 as int) as u64,
{
    if freq <= 0 {
        return 0;
    }
    let dt = qpc_delta(t0, t1) as i128;
    let num = dt * 1_000_000;
    let q = num / (freq as i128);
    proof {
        assert(num as int == dt * 1_000_000);
        assert(q == crate::geom::tdiv(num as int, freq as int));
        assert(q <= i64::MAX as int * 1_000_000) by (nonlinear_arith)
            requires q == crate::geom::tdiv(dt * 1_000_000, freq as int), freq >= 1, dt <= i64::MAX as int, dt >= i64::MIN as int;
    }
    if q < 0 {
        0
    } else {
        #[verifier::truncate] (q as u64)
    }
}

/// Whether `vk` is the `/` key or numpad `/`.
pub open spec fn is_plain_slash_vk_spec(vk: u32) -> bool {
    vk == VK_OEM_2 || vk == VK_DIVIDE
}

/// Whether `vk` is the `/` key or numpad `/`.
pub fn is_plain_slash_vk(vk: u32) -> (r: bool)
    ensures
        r == is_plain_slash_vk_spec(vk),
{
    vk == VK_OEM_2 || vk == VK_DIVIDE
}

/// The lowercase letter a virtual key stands for in hint mode (`A`..`Z`), if any.
pub open spec fn vk_session_char_spec(vk: u32) -> Option<char> {
    if VK_A <= vk <= VK_Z {
        Some((vk - VK_A + 0x61) as char)
    } else {
        None
    }
}

/// The lowercase letter a virtual key stands for in hint mode (`A`..`Z`), if any.
pub fn vk_session_char(vk: u32) -> (r: Option<char>)
    ensures
        r == vk_session_char_spec(vk),
{
    if VK_A <= vk && vk <= VK_Z {
        let b: u8 = (vk - VK_A + 0x61) as u8;
        Some(b as char)
    } else {
        None
    }
}

/// Which physical modifier keys are down (high bit of `GetAsyncKeyState`).
#[derive(Debug, Clone, Copy, PartialEq, Eq, Structural)]
pub struct ModifierKeys {
    pub alt: bool,
    pub ctrl: bool,
    pub shift: bool,
    pub lwin: bool,
    pub rwin: bool,
}

/// Every modifier of the registered chord `reg` is held (`MOD_NOREPEAT` is ignored).
pub open spec fn mods_satisfied_spec(reg: u32, keys: ModifierKeys) -> bool {
    &&& (reg & MOD_ALT != 0 ==> keys.alt)
    &&& (reg & MOD_CONTROL != 0 ==> keys.ctrl)
    &&& (reg & MOD_SHIFT != 0 ==> keys.shift)
    &&& (reg & MOD_WIN != 0 ==> keys.lwin || keys.rwin)
}

/// Whether every modifier of the registered chord `reg` is held.
pub fn hotkey_mods_satisfied(reg: u32, keys: ModifierKeys) -> (r: bool)
    ensures
        r == mods_satisfied_spec(reg, keys),
{
    let m = reg & !MOD_NOREPEAT;
    proof {
        assert(m & MOD_ALT == reg & MOD_ALT) by (bit_vector)
            requires m == reg & !0x4000u32;
        assert(m & MOD_CONTROL == reg & MOD_CONTROL) by (bit_vector)
            requires m == reg & !0x4000u32;
        assert(m & MOD_SHIFT == reg & MOD_SHIFT) by (bit_vector)
            requires m == reg & !0x4000u32;
        assert(m & MOD_WIN == reg & MOD_WIN) by (bit_vector)
            requires m == reg & !0x4000u32;
    }
    if (m & MOD_ALT) != 0 && !keys.alt {
        return false;
    }
    if (m & MOD_CONTROL) != 0 && !keys.ctrl {
        return false;
    }
    if (m & MOD_SHIFT) != 0 && !keys.shift {
        return false;
    }
    if (m & MOD_WIN) != 0 && !(keys.lwin || keys.rwin) {
        return false;
    }
    true
}

/// Any modifier held means a `/` press is not a plain-`/` activation.
pub fn modifiers_preclude_plain_slash_activator(keys: ModifierKeys) -> (r: bool)
    ensures
        r == (keys.alt || keys.ctrl || keys.shift || keys.lwin || keys.rwin),
{
    keys.alt || keys.ctrl || keys.shift || keys.lwin || keys.rwin
}

/// The registered chord packed into one word: modifiers high, key low.
pub open spec fn pack_hotkey_spec(mods: u32, vk: u32) -> u64 {
    ((mods as u64) << 32u64) | (vk as u64)
}

/// Packs a registered chord into one word (as the hook thread shares it).
pub fn store_hotkey(mods: u32, vk: u32) -> (r: u64)
    ensures
        r == pack_hotkey_spec(mods, vk),
{
    ((mods as u64) << 32u64) | (vk as u64)
}

/// Unpacks a word written by [`store_hotkey`] into `(modifiers, key)`.
pub fn load_hotkey(v: u64) -> (r: (u32, u32))
    ensures
        r.0 == (v >> 32u64) as u32,
        r.1 == (v & 0xFFFF_FFFFu64) as u32,
{
    (((v >> 32u64) as u32), ((v & 0xFFFF_FFFFu64) as u32))
}

/// Loading a packed chord gives back the modifiers and key that were stored.
pub proof fn lemma_hotkey_pack_roundtrip(mods: u32, vk: u32)
    ensures
        ((pack_hotkey_spec(mods, vk) >> 32u64) as u32) == mods,
        ((pack_hotkey_spec(mods, vk) & 0xFFFF_FFFFu64) as u32) == vk,
{
    assert(((((mods as u64) << 32u64) | (vk as u64)) >> 32u64) as u32 == mods) by (bit_vector);
    assert(((((mods as u64) << 32u64) | (vk as u64)) & 0xFFFF_FFFFu64) as u32 == vk) by (bit_vector);
}

/// Which kind of keyboard message the low-level hook received.
#[derive(Debug, Clone, Copy, PartialEq, Eq, Structural)]
pub enum KeyMessage {
    /// `WM_KEYDOWN` or `WM_SYSKEYDOWN`.
    KeyDown,
    /// `WM_KEYUP` or `WM_SYSKEYUP`.
    KeyUp,
    /// Any other message.
    Other,
}

/// Shared input state the hook reads.
#[derive(Debug, Clone, Copy, PartialEq, Eq, Structural)]
pub struct HookFlags {
    /// Hint mode is active.
    pub hint_mode: bool,
    /// In hint mode, keys go to the focused application except Esc.
    pub keyboard_passthrough: bool,
    /// The chord is plain `/`.
    pub plain_slash_only: bool,
    /// Registered chord modifiers (with `MOD_NOREPEAT`).
    pub reg_mods: u32,
    /// Registered chord key.
    pub reg_vk: u32,
}

/// What the hook does with a keyboard event.
#[derive(Debug, Clone, Copy, PartialEq, Eq, Structural)]
pub enum HookAction {
    /// Hand the event to the next hook.
    PassThrough,
    /// Swallow the event.
    Swallow,
    /// Swallow the event and deliver this key to the hint session.
    SendKey(SessionKey),
    /// Swallow the event and fire a plain-`/` activation.
    Activate,
}

/// The hint-session key a pressed virtual key stands for, if any.
pub open spec fn session_key_for_vk(vk: u32) -> Option<SessionKey> {
    if vk == VK_ESCAPE {
        Some(SessionKey::Escape)
    } else if vk == VK_BACK {
        Some(SessionKey::Backspace)
    } else if VK_A <= vk <= VK_Z {
        Some(SessionKey::Char(vk_session_char_spec(vk).unwrap()))
    } else {
        None
    }
}

/// The hook's decision and the new "swallow the next `/` key-up" flag.
pub open spec fn hook_decision(
    msg: KeyMessage,
    vk: u32,
    flags: u32,
    st: HookFlags,
    keys: ModifierKeys,
    awaiting_keyup: bool,
) -> (HookAction, bool) {
    let injected = flags & LLKHF_INJECTED != 0;
    let any_mod = keys.alt || keys.ctrl || keys.shift || keys.lwin || keys.rwin;
    match msg {
        KeyMessage::KeyUp => if is_plain_slash_vk_spec(vk) && awaiting_keyup {
            (HookAction::Swallow, false)
        } else {
            (HookAction::PassThrough, awaiting_keyup)
        },
        KeyMessage::Other => (HookAction::PassThrough, awaiting_keyup),
        KeyMessage::KeyDown => if st.hint_mode {
            if st.keyboard_passthrough {
                if vk == VK_ESCAPE {
                    (HookAction::SendKey(SessionKey::Escape), awaiting_keyup)
                } else {
                    (HookAction::PassThrough, awaiting_keyup)
                }
            } else if st.plain_slash_only && is_plain_slash_vk_spec(vk) && !injected && !any_mod {
                (HookAction::Activate, awaiting_keyup)
            } else if vk == st.reg_vk && mods_satisfied_spec(st.reg_mods, keys) {
                (HookAction::PassThrough, awaiting_keyup)
            } else if flags & LLKHF_ALTDOWN != 0 {
                (HookAction::PassThrough, awaiting_keyup)
            } else if keys.ctrl || keys.lwin || keys.rwin {
                (HookAction::PassThrough, awaiting_keyup)
            } else {
                match session_key_for_vk(vk) {
                    Some(k) => (HookAction::SendKey(k), awaiting_keyup),
                    None => (HookAction::PassThrough, awaiting_keyup),
                }
            }
        } else if !is_plain_slash_vk_spec(vk) || injected || any_mod {
            (HookAction::PassThrough, awaiting_keyup)
        } else if awaiting_keyup {
            (HookAction::Swallow, true)
        } else {
            (HookAction::Activate, true)
        },
    }
}

/// Decides what the low-level keyboard hook does with one event.
///
/// `awaiting_keyup` is set after a plain `/` activation so that key repeats and the
/// matching key-up never reach the focused application.
pub fn low_level_keyboard_proc(
    msg: KeyMessage,
    vk: u32,
    flags: u32,
    st: HookFlags,
    keys: ModifierKeys,
    awaiting_keyup: &mut bool,
) -> (r: HookAction)
    ensures
        (r, *final(awaiting_keyup)) == hook_decision(msg, vk, flags, st, keys, *old(awaiting_keyup)),
{
    match msg {
        KeyMessage::KeyUp => {
            if is_plain_slash_vk(vk) && *awaiting_keyup {
                *awaiting_keyup = false;
                return HookAction::Swallow;
            }
            return HookAction::PassThrough;
        },
        KeyMessage::Other => {
            return HookAction::PassThrough;
        },
        KeyMessage::KeyDown => {},
    }
    if st.hint_mode {
        if st.keyboard_passthrough {
            if vk == VK_ESCAPE {
                return HookAction::SendKey(SessionKey::Escape);
            }
            return HookAction::PassThrough;
        }
        if st.plain_slash_only && is_plain_slash_vk(vk) && (flags & LLKHF_INJECTED) == 0
            && !modifiers_preclude_plain_slash_activator(keys) {
            return HookAction::Activate;
        }
        if vk == st.reg_vk && hotkey_mods_satisfied(st.reg_mods, keys) {
            return HookAction::PassThrough;
        }
        if (flags & LLKHF_ALTDOWN) != 0 {
            return HookAction::PassThrough;
        }
        if keys.ctrl || keys.lwin || keys.rwin {
            return HookAction::PassThrough;
        }
        let event = if vk == VK_ESCAPE {
            Some(SessionKey::Escape)
        } else if vk == VK_BACK {
            Some(SessionKey::Backspace)
        } else if VK_A <= vk && vk <= VK_Z {
            match vk_session_char(vk) {
                Some(c) => Some(SessionKey::Char(c)),
                None => None,
            }
        } else {
            None
        };
        return match event {
            Some(sk) => HookAction::SendKey(sk),
            None => HookAction::PassThrough,
        };
    }
    if !is_plain_slash_vk(vk) {
        return HookAction::PassThrough;
    }
    if (flags & LLKHF_INJECTED) != 0 {
        return HookAction::PassThrough;
    }
    if modifiers_preclude_plain_slash_activator(keys) {
        return HookAction::PassThrough;
    }
    if *awaiting_keyup {
        return HookAction::Swallow;
    }
    *awaiting_keyup = true;
    HookAction::Activate
}

/// What a chord change registers and stores.
#[derive(Debug, Clone, Copy, PartialEq, Eq, Structural)]
pub enum ReregisterStep {
    /// Plain `/` is handled by the hook: store the new chord without registering it.
    StoreOnly,
    /// Register the new chord; report the result with [`hotkey_after_reregister`].
    Register,
}

/// A plain-`/` chord is never registered with the system.
pub fn reregister_step(slash_only: bool) -> (r: ReregisterStep)
    ensures
        r == (if slash_only { ReregisterStep::StoreOnly } else { ReregisterStep::Register }),
{
    if slash_only { ReregisterStep::StoreOnly } else { ReregisterStep::Register }
}

/// The chord stored after trying to register `new`: the new one when it registered (or
/// needs no registration), else the old one, which is registered again.
pub fn hotkey_after_reregister(slash_only: bool, registered: bool, old: (u32, u32), new: (u32, u32)) -> (r: (u32, u32))
    ensures
        r == (if slash_only || registered { new } else { old }),
{
    if slash_only || registered { new } else { old }
}

} // verus!
