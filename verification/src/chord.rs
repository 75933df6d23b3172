//! Parsing `[hotkey].chord` strings (`alt+/`, `ctrl+shift+a`, `win+f5`) into
//! `RegisterHotKey` modifiers and a virtual-key code.

use vstd::prelude::*;
use crate::input::{MOD_ALT, MOD_CONTROL, MOD_SHIFT, MOD_WIN, MOD_NOREPEAT, VK_A, VK_0, VK_OEM_1,
    VK_OEM_PLUS, VK_OEM_MINUS, VK_OEM_COMMA, VK_OEM_PERIOD, VK_OEM_2, VK_OEM_3, VK_OEM_4, VK_OEM_5,
    VK_OEM_6, VK_OEM_7, VK_F1, VK_SPACE, VK_TAB, VK_ESCAPE, VK_BACK};
use crate::text::{trim_start_ws, trim_end_ws, ascii_lower, ascii_lower_char, trim_ws, str_trim, to_ascii_lowercase, str_eq,
    char_to_ascii_lowercase, string_push};

verus! {

/// Why a chord string was refused.
#[derive(Debug, Clone, PartialEq, Eq)]
pub enum ChordError {
    /// The chord is empty or blank.
    Empty,
    /// Fewer than one modifier plus a key.
    NeedModifierAndKey,
    /// A modifier word other than alt, ctrl, shift, win (as written).
    UnknownModifier(String),
    /// No modifier bit would be set.
    NoModifier,
    /// Nothing after the last `+`.
    MissingKey,
    /// `f` followed by something that is not a decimal number (the key as written).
    InvalidFunctionKey(String),
    /// A function key other than F1 to F12.
    FunctionKeyOutOfRange,
    /// A key word that is neither one character nor a known name (as written).
    UnknownKey(String),
    /// A single character without a key code (lowercased).
    UnsupportedKey(char),
}

/// [`ChordError`] over string views.
pub enum ChordFault {
    Empty,
    NeedModifierAndKey,
    UnknownModifier(Seq<char>),
    NoModifier,
    MissingKey,
    InvalidFunctionKey(Seq<char>),
    FunctionKeyOutOfRange,
    UnknownKey(Seq<char>),
    UnsupportedKey(char),
}

impl View for ChordError {
    type V = ChordFault;

    open spec fn view(&self) -> ChordFault {
        match self {
            ChordError::Empty => ChordFault::Empty,
            ChordError::NeedModifierAndKey => ChordFault::NeedModifierAndKey,
            ChordError::UnknownModifier(s) => ChordFault::UnknownModifier(s@),
            ChordError::NoModifier => ChordFault::NoModifier,
            ChordError::MissingKey => ChordFault::MissingKey,
            ChordError::InvalidFunctionKey(s) => ChordFault::InvalidFunctionKey(s@),
            ChordError::FunctionKeyOutOfRange => ChordFault::FunctionKeyOutOfRange,
            ChordError::UnknownKey(s) => ChordFault::UnknownKey(s@),
            ChordError::UnsupportedKey(c) => ChordFault::UnsupportedKey(*c),
        }
    }
}

/// `s` split at every `sep` (as `str::split` does: `n` separators give `n + 1` pieces).
pub open spec fn split_on(s: Seq<char>, sep: char) -> Seq<Seq<char>>
    decreases s.len(),
{
    if s.len() == 0 {
        seq![Seq::empty()]
    } else {
        let r = split_on(s.drop_last(), sep);
        if s.last() == sep {
            r.push(Seq::empty())
        } else {
            r.update(r.len() - 1, r.last().push(s.last()))
        }
    }
}

proof fn lemma_split_nonempty(s: Seq<char>, sep: char)
    ensures
        split_on(s, sep).len() >= 1,
    decreases s.len(),
{
    if s.len() > 0 {
        lemma_split_nonempty(s.drop_last(), sep);
    }
}

/// The pieces trimmed, blank ones dropped.
pub open spec fn kept_parts(x: Seq<Seq<char>>) -> Seq<Seq<char>>
    decreases x.len(),
{
    if x.len() == 0 {
        x
    } else {
        let r = kept_parts(x.drop_last());
        let t = trim_ws(x.last());
        if t.len() > 0 {
            r.push(t)
        } else {
            r
        }
    }
}

/// The words of a trimmed chord: split at `+`, trimmed, blanks dropped.
pub open spec fn chord_parts(s: Seq<char>) -> Seq<Seq<char>> {
    kept_parts(split_on(s, '+'))
}

/// The modifier bit a word names, ignoring ASCII case.
pub open spec fn modifier_bit(p: Seq<char>) -> Option<u32> {
    let l = ascii_lower(p);
    if l == "alt"@ {
        Some(MOD_ALT)
    } else if l == "ctrl"@ || l == "control"@ {
        Some(MOD_CONTROL)
    } else if l == "shift"@ {
        Some(MOD_SHIFT)
    } else if l == "win"@ || l == "meta"@ || l == "windows"@ {
        Some(MOD_WIN)
    } else {
        None
    }
}

/// The modifier words folded into `MOD_NOREPEAT | bits`, or the first unknown word.
pub open spec fn fold_modifiers(ps: Seq<Seq<char>>) -> Result<u32, Seq<char>>
    decreases ps.len(),
{
    if ps.len() == 0 {
        Ok(MOD_NOREPEAT)
    } else {
        match fold_modifiers(ps.drop_last()) {
            Err(e) => Err(e),
            Ok(m) => match modifier_bit(ps.last()) {
                Some(b) => Ok(m | b),
                None => Err(ps.last()),
            },
        }
    }
}

pub open spec fn is_ascii_digit(c: char) -> bool {
    '0' <= c <= '9'
}

pub open spec fn all_ascii_digits(x: Seq<char>) -> bool {
    forall|i: int| 0 <= i < x.len() ==> is_ascii_digit(#[trigger] x[i])
}

/// The value of a string of decimal digits.
pub open spec fn decimal_value(x: Seq<char>) -> int
    decreases x.len(),
{
    if x.len() == 0 {
        0
    } else {
        decimal_value(x.drop_last()) * 10 + (x.last() as int - '0' as int)
    }
}

/// The key code of one character (ASCII case ignored).
pub open spec fn single_char_vk_spec(c0: char) -> Result<u32, ChordFault> {
    let c = ascii_lower_char(c0);
    if 'a' <= c <= 'z' {
        Ok((VK_A + (c as u32 - 'a' as u32)) as u32)
    } else if '0' <= c <= '9' {
        Ok((VK_0 + (c as u32 - '0' as u32)) as u32)
    } else if c == ';' {
        Ok(VK_OEM_1)
    } else if c == '=' {
        Ok(VK_OEM_PLUS)
    } else if c == '-' {
        Ok(VK_OEM_MINUS)
    } else if c == ',' {
        Ok(VK_OEM_COMMA)
    } else if c == '.' {
        Ok(VK_OEM_PERIOD)
    } else if c == '/' {
        Ok(VK_OEM_2)
    } else if c == '`' {
        Ok(VK_OEM_3)
    } else if c == '[' {
        Ok(VK_OEM_4)
    } else if c == '\\' {
        Ok(VK_OEM_5)
    } else if c == ']' {
        Ok(VK_OEM_6)
    } else if c == '\'' {
        Ok(VK_OEM_7)
    } else {
        Err(ChordFault::UnsupportedKey(c))
    }
}

/// The key code a key word names: `f1`..`f12`, `space`, `tab`, `esc`, `backspace`, or one
/// character.
pub open spec fn key_token_vk(tok: Seq<char>) -> Result<u32, ChordFault> {
    let t = trim_ws(tok);
    let tl = ascii_lower(t);
    if t.len() == 0 {
        Err(ChordFault::MissingKey)
    } else if tl.len() >= 2 && tl[0] == 'f' {
        let x = tl.subrange(1, tl.len() as int);
        if !all_ascii_digits(x) || decimal_value(x) > u32::MAX {
            Err(ChordFault::InvalidFunctionKey(t))
        } else if 1 <= decimal_value(x) <= 12 {
            Ok((VK_F1 + decimal_value(x) - 1) as u32)
        } else {
            Err(ChordFault::FunctionKeyOutOfRange)
        }
    } else if tl == "space"@ {
        Ok(VK_SPACE)
    } else if tl == "tab"@ {
        Ok(VK_TAB)
    } else if tl == "escape"@ || tl == "esc"@ {
        Ok(VK_ESCAPE)
    } else if tl == "backspace"@ || tl == "back"@ {
        Ok(VK_BACK)
    } else if t.len() > 1 {
        Err(ChordFault::UnknownKey(t))
    } else {
        single_char_vk_spec(t[0])
    }
}

/// What a chord string means: `(MOD_NOREPEAT | modifier bits, key code)`, or why it is refused.
pub open spec fn chord_spec(raw: Seq<char>) -> Result<(u32, u32), ChordFault> {
    let s = trim_ws(raw);
    let parts = chord_parts(s);
    if s.len() == 0 {
        Err(ChordFault::Empty)
    } else if parts.len() < 2 {
        Err(ChordFault::NeedModifierAndKey)
    } else {
        match fold_modifiers(parts.drop_last()) {
            Err(p) => Err(ChordFault::UnknownModifier(p)),
            Ok(m) => if m & (MOD_ALT | MOD_CONTROL | MOD_SHIFT | MOD_WIN) == 0 {
                Err(ChordFault::NoModifier)
            } else {
                match key_token_vk(parts.last()) {
                    Ok(vk) => Ok((m, vk)),
                    Err(e) => Err(e),
                }
            },
        }
    }
}

/// Splits a trimmed chord into its words.
fn split_chord(s: &str) -> (r: Vec<String>)
    ensures
        r@.map_values(|p: String| p@) == chord_parts(s@),
{
    let n = s.unicode_len();
    let mut parts: Vec<String> = Vec::new();
    let mut cur = String::new();
    let mut i: usize = 0;
    proof {
        assert(s@.take(0) =~= Seq::<char>::empty());
        assert(split_on(Seq::<char>::empty(), '+').drop_last() =~= Seq::<Seq<char>>::empty());
    }
    while i < n
        invariant
            n == s@.len(),
            i <= n,
            split_on(s@.take(i as int), '+').len() >= 1,
            parts@.map_values(|p: String| p@) == kept_parts(split_on(s@.take(i as int), '+').drop_last()),
            cur@ == split_on(s@.take(i as int), '+').last(),
        decreases n - i,
    {
        let c = s.get_char(i);
        let ghost pre = s@.take(i as int);
        let ghost nxt = s@.take(i as int + 1);
        proof {
            assert(nxt.drop_last() =~= pre);
            assert(nxt.last() == c);
            lemma_split_nonempty(pre, '+');
        }
        if c == '+' {
            let ghost done = split_on(pre, '+').drop_last();
            let t = str_trim(cur.as_str()).to_owned();
            proof {
                assert(split_on(nxt, '+').drop_last() =~= split_on(pre, '+'));
                assert(split_on(pre, '+') =~= done.push(cur@));
                assert(done.push(cur@).drop_last() =~= done);
            }
            if t.unicode_len() > 0 {
                parts.push(t);
                proof {
                    assert(parts@.map_values(|p: String| p@) =~= kept_parts(done).push(t@));
                }
            }
            cur = String::new();
        } else {
            string_push(&mut cur, c);
            proof {
                assert(split_on(nxt, '+').drop_last() =~= split_on(pre, '+').drop_last());
            }
        }
        i += 1;
    }
    proof {
        assert(s@.take(n as int) =~= s@);
        lemma_split_nonempty(s@, '+');
        let all = split_on(s@, '+');
        assert(all =~= all.drop_last().push(cur@));
    }
    let t = str_trim(cur.as_str()).to_owned();
    if t.unicode_len() > 0 {
        parts.push(t);
        proof {
            let all = split_on(s@, '+');
            assert(parts@.map_values(|p: String| p@) =~= kept_parts(all.drop_last()).push(t@));
        }
    }
    parts
}

/// The key code of one character (ASCII case ignored).
fn single_char_vk(c0: char) -> (r: Result<u32, ChordError>)
    ensures
        match r {
            Ok(v) => single_char_vk_spec(c0) == Ok::<u32, ChordFault>(v),
            Err(e) => single_char_vk_spec(c0) == Err::<u32, ChordFault>(e@),
        },
{
    let c = char_to_ascii_lowercase(c0);
    if 'a' <= c && c <= 'z' {
        Ok(VK_A + (c as u32 - 'a' as u32))
    } else if '0' <= c && c <= '9' {
        Ok(VK_0 + (c as u32 - '0' as u32))
    } else if c == ';' {
        Ok(VK_OEM_1)
    } else if c == '=' {
        Ok(VK_OEM_PLUS)
    } else if c == '-' {
        Ok(VK_OEM_MINUS)
    } else if c == ',' {
        Ok(VK_OEM_COMMA)
    } else if c == '.' {
        Ok(VK_OEM_PERIOD)
    } else if c == '/' {
        Ok(VK_OEM_2)
    } else if c == '`' {
        Ok(VK_OEM_3)
    } else if c == '[' {
        Ok(VK_OEM_4)
    } else if c == '\\' {
        Ok(VK_OEM_5)
    } else if c == ']' {
        Ok(VK_OEM_6)
    } else if c == '\'' {
        Ok(VK_OEM_7)
    } else {
        Err(ChordError::UnsupportedKey(c))
    }
}

proof fn lemma_decimal_grows(x: Seq<char>, j: int)
    requires
        0 <= j <= x.len(),
        all_ascii_digits(x),
    ensures
        decimal_value(x.take(j)) <= decimal_value(x),
        decimal_value(x.take(j)) >= 0,
    decreases x.len() - j,
{
    if j < x.len() {
        lemma_decimal_grows(x, j + 1);
        let y = x.take(j + 1);
        assert(y.drop_last() =~= x.take(j));
        assert(is_ascii_digit(x[j]));
        assert(y.last() == x[j]);
    } else {
        assert(x.take(j) =~= x);
        lemma_decimal_nonneg(x);
    }
}

proof fn lemma_decimal_nonneg(x: Seq<char>)
    requires
        all_ascii_digits(x),
    ensures
        decimal_value(x) >= 0,
    decreases x.len(),
{
    if x.len() > 0 {
        let y = x.drop_last();
        assert(all_ascii_digits(y)) by {
            assert forall|i: int| 0 <= i < y.len() implies is_ascii_digit(#[trigger] y[i]) by {
                assert(y[i] == x[i]);
            }
        }
        lemma_decimal_nonneg(y);
        assert(is_ascii_digit(x[x.len() - 1]));
    }
}

/// The value of a decimal number `x` when it has only digits and fits in `u32`.
fn parse_u32_decimal(x: &str) -> (r: Option<u32>)
    ensures
        match r {
            Some(v) => all_ascii_digits(x@) && decimal_value(x@) == v,
            None => !all_ascii_digits(x@) || decimal_value(x@) > u32::MAX,
        },
{
    let n = x.unicode_len();
    let mut v: u64 = 0;
    let mut i: usize = 0;
    while i < n
        invariant
            n == x@.len(),
            i <= n,
            all_ascii_digits(x@.take(i as int)),
            v == decimal_value(x@.take(i as int)),
            v <= u32::MAX,
        decreases n - i,
    {
        let c = x.get_char(i);
        let ghost nxt = x@.take(i as int + 1);
        proof {
            assert(nxt.drop_last() =~= x@.take(i as int));
            assert(nxt.last() == c);
        }
        if !('0' <= c && c <= '9') {
            return None;
        }
        v = v * 10 + (c as u64 - '0' as u64);
        proof {
            assert(all_ascii_digits(nxt)) by {
                assert forall|k: int| 0 <= k < nxt.len() implies is_ascii_digit(#[trigger] nxt[k]) by {
                    if k < i {
                        assert(nxt[k] == x@.take(i as int)[k]);
                    }
                }
            }
        }
        if v > 0xFFFF_FFFFu64 {
            proof {
                if all_ascii_digits(x@) {
                    lemma_decimal_grows(x@, i as int + 1);
                }
            }
            return None;
        }
        i += 1;
    }
    proof {
        assert(x@.take(n as int) =~= x@);
    }
    Some(v as u32)
}

/// The key code a key word names.
fn parse_key_token(tok: &str) -> (r: Result<u32, ChordError>)
    ensures
        match r {
            Ok(v) => key_token_vk(tok@) == Ok::<u32, ChordFault>(v),
            Err(e) => key_token_vk(tok@) == Err::<u32, ChordFault>(e@),
        },
{
    let t = str_trim(tok);
    if t.unicode_len() == 0 {
        return Err(ChordError::MissingKey);
    }
    let tl_s = to_ascii_lowercase(t);
    let tl = tl_s.as_str();
    let tn = tl.unicode_len();
    if tn >= 2 && tl.get_char(0) == 'f' {
        let digits = tl.substring_char(1, tn);
        match parse_u32_decimal(digits) {
            None => {
                return Err(ChordError::InvalidFunctionKey(t.to_owned()));
            },
            Some(n) => {
                if 1 <= n && n <= 12 {
                    return Ok(VK_F1 + n - 1);
                }
                return Err(ChordError::FunctionKeyOutOfRange);
            },
        }
    }
    if str_eq(tl, "space") {
        return Ok(VK_SPACE);
    }
    if str_eq(tl, "tab") {
        return Ok(VK_TAB);
    }
    if str_eq(tl, "escape") || str_eq(tl, "esc") {
        return Ok(VK_ESCAPE);
    }
    if str_eq(tl, "backspace") || str_eq(tl, "back") {
        return Ok(VK_BACK);
    }
    if t.unicode_len() > 1 {
        return Err(ChordError::UnknownKey(t.to_owned()));
    }
    single_char_vk(t.get_char(0))
}

/// The modifier bit a word names, ignoring ASCII case.
fn modifier_bit_of(p: &str) -> (r: Option<u32>)
    ensures
        r == modifier_bit(p@),
{
    let l_s = to_ascii_lowercase(p);
    let l = l_s.as_str();
    if str_eq(l, "alt") {
        Some(MOD_ALT)
    } else if str_eq(l, "ctrl") || str_eq(l, "control") {
        Some(MOD_CONTROL)
    } else if str_eq(l, "shift") {
        Some(MOD_SHIFT)
    } else if str_eq(l, "win") || str_eq(l, "meta") || str_eq(l, "windows") {
        Some(MOD_WIN)
    } else {
        None
    }
}

/// Parses a chord into `(MOD_NOREPEAT | modifier bits, virtual-key code)`.
///
/// At least one modifier (alt, ctrl, shift, win; case ignored) must precede the key,
/// joined by `+`.
pub fn parse_chord(raw: &str) -> (r: Result<(u32, u32), ChordError>)
    ensures
        match r {
            Ok(v) => chord_spec(raw@) == Ok::<(u32, u32), ChordFault>(v),
            Err(e) => chord_spec(raw@) == Err::<(u32, u32), ChordFault>(e@),
        },
{
    let s = str_trim(raw);
    if s.unicode_len() == 0 {
        return Err(ChordError::Empty);
    }
    let parts = split_chord(s);
    let ghost ps = parts@.map_values(|p: String| p@);
    if parts.len() < 2 {
        return Err(ChordError::NeedModifierAndKey);
    }
    let last = parts.len() - 1;
    let mut mods: u32 = MOD_NOREPEAT;
    let mut i: usize = 0;
    proof {
        assert(ps.drop_last().take(0) =~= Seq::<Seq<char>>::empty());
    }
    while i < last
        invariant
            last == parts.len() - 1,
            ps == parts@.map_values(|p: String| p@),
            ps == chord_parts(trim_ws(raw@)),
            trim_ws(raw@).len() != 0,
            parts.len() >= 2,
            i <= last,
            fold_modifiers(ps.drop_last().take(i as int)) == Ok::<u32, Seq<char>>(mods),
        decreases last - i,
    {
        let ghost pre = ps.drop_last().take(i as int);
        let ghost nxt = ps.drop_last().take(i as int + 1);
        proof {
            assert(nxt.drop_last() =~= pre);
            assert(nxt.last() == parts@[i as int]@);
        }
        match modifier_bit_of(parts[i].as_str()) {
            Some(b) => {
                mods = mods | b;
            },
            None => {
                let m = parts[i].clone();
                proof {
                    assert(fold_modifiers(nxt) == Err::<u32, Seq<char>>(parts@[i as int]@));
                    lemma_fold_err_sticks(ps.drop_last(), i as int + 1);
                    assert(ps.drop_last() =~= parts@.map_values(|p: String| p@).drop_last());
                    assert(m@ == parts@[i as int]@);
                    assert(ps == chord_parts(trim_ws(raw@)));
                    assert(fold_modifiers(chord_parts(trim_ws(raw@)).drop_last()) == Err::<u32, Seq<char>>(m@));
                }
                return Err(ChordError::UnknownModifier(m));
            },
        }
        i += 1;
    }
    proof {
        assert(ps.drop_last().take(last as int) =~= ps.drop_last());
    }
    if mods & (MOD_ALT | MOD_CONTROL | MOD_SHIFT | MOD_WIN) == 0 {
        return Err(ChordError::NoModifier);
    }
    match parse_key_token(parts[last].as_str()) {
        Ok(vk) => Ok((mods, vk)),
        Err(e) => Err(e),
    }
}

proof fn lemma_fold_err_sticks(ps: Seq<Seq<char>>, j: int)
    requires
        0 <= j <= ps.len(),
        fold_modifiers(ps.take(j)) is Err,
    ensures
        fold_modifiers(ps) == fold_modifiers(ps.take(j)),
    decreases ps.len() - j,
{
    if j < ps.len() {
        let y = ps.take(j + 1);
        assert(y.drop_last() =~= ps.take(j));
        lemma_fold_err_sticks(ps, j + 1);
    } else {
        assert(ps.take(j) =~= ps);
    }
}

/// The chord is plain `/` (no modifiers): activation comes from the keyboard hook.
pub fn chord_is_plain_slash_only(raw: &str) -> (r: bool)
    ensures
        r == (trim_ws(raw@) == "/"@),
{
    str_eq(str_trim(raw), "/")
}

/// The registration a chord asks for: plain `/` registers `/` with `MOD_NOREPEAT` alone.
pub fn chord_registration(raw: &str) -> (r: Result<(u32, u32), ChordError>)
    ensures
        trim_ws(raw@) == "/"@ ==> r == Ok::<(u32, u32), ChordError>((MOD_NOREPEAT, VK_OEM_2)),
        trim_ws(raw@) != "/"@ ==> match r {
            Ok(v) => chord_spec(raw@) == Ok::<(u32, u32), ChordFault>(v),
            Err(e) => chord_spec(raw@) == Err::<(u32, u32), ChordFault>(e@),
        },
{
    if chord_is_plain_slash_only(raw) {
        Ok((MOD_NOREPEAT, VK_OEM_2))
    } else {
        parse_chord(raw)
    }
}


/// The character a Windows OEM virtual-key code stands for (US layout), as the
/// virtual-key code table documents it: `VK_OEM_1` (0xBA) `;`, `VK_OEM_PLUS` (0xBB) `=`,
/// `VK_OEM_COMMA` (0xBC) `,`, `VK_OEM_MINUS` (0xBD) `-`, `VK_OEM_PERIOD` (0xBE) `.`,
/// `VK_OEM_2` (0xBF) `/`, `VK_OEM_3` (0xC0) `` ` ``, `VK_OEM_4` (0xDB) `[`, `VK_OEM_5` (0xDC)
/// `\`, `VK_OEM_6` (0xDD) `]`, `VK_OEM_7` (0xDE) `'`.
pub open spec fn oem_key_char(vk: int) -> Option<char> {
    if vk == 0xBA {
        Some(';')
    } else if vk == 0xBB {
        Some('=')
    } else if vk == 0xBC {
        Some(',')
    } else if vk == 0xBD {
        Some('-')
    } else if vk == 0xBE {
        Some('.')
    } else if vk == 0xBF {
        Some('/')
    } else if vk == 0xC0 {
        Some('`')
    } else if vk == 0xDB {
        Some('[')
    } else if vk == 0xDC {
        Some('\\')
    } else if vk == 0xDD {
        Some(']')
    } else if vk == 0xDE {
        Some('\'')
    } else {
        None
    }
}

/// The key code of a character names the key that types it: a letter gives the letter
/// key (the key hint mode reads back as that letter), a digit the digit key, and any other
/// accepted character the OEM key that stands for it; conversely every OEM key's
/// character is accepted and gives that key, and `/` gives the key the keyboard hook
/// treats as the plain slash.
pub proof fn lemma_char_key_codes(c: char, vk: u32)
    ensures
        single_char_vk_spec(c) == Ok::<u32, ChordFault>(vk) ==> {
            let l = ascii_lower_char(c);
            &&& 'a' <= l <= 'z' ==> vk == 0x41 + (l as int - 'a' as int)
                && crate::input::vk_session_char_spec(vk) == Some(l)
            &&& '0' <= l <= '9' ==> vk == 0x30 + (l as int - '0' as int)
            &&& !('a' <= l <= 'z') && !('0' <= l <= '9') ==> oem_key_char(vk as int) == Some(l)
            &&& l == '/' ==> crate::input::is_plain_slash_vk_spec(vk)
        },
        oem_key_char(vk as int) == Some(c) ==> single_char_vk_spec(c) == Ok::<u32, ChordFault>(vk),
{
}

/// Distinct keys for distinct characters: two characters that give the same key code are
/// the same character up to ASCII case.
pub proof fn lemma_char_key_codes_distinct(c: char, d: char)
    requires
        single_char_vk_spec(c) is Ok,
        single_char_vk_spec(c) == single_char_vk_spec(d),
    ensures
        ascii_lower_char(c) == ascii_lower_char(d),
{
    let v = single_char_vk_spec(c)->Ok_0;
    lemma_char_key_codes(c, v);
    lemma_char_key_codes(d, v);
}


/// A key word of one character other than white space names that character's key.
pub proof fn lemma_one_char_key_word(c: char)
    requires
        !crate::text::is_white_space(c),
    ensures
        key_token_vk(seq![c]) == single_char_vk_spec(c),
{
    let t = seq![c];
    assert(trim_start_ws(t) == t);
    assert(trim_end_ws(t) == t);
    assert(trim_ws(t) == t);
    let tl = ascii_lower(t);
    assert(tl.len() == 1);
    reveal_strlit("space");
    reveal_strlit("tab");
    reveal_strlit("escape");
    reveal_strlit("esc");
    reveal_strlit("backspace");
    reveal_strlit("back");
    assert(tl != "space"@);
    assert(tl != "tab"@);
    assert(tl != "escape"@);
    assert(tl != "esc"@);
    assert(tl != "backspace"@);
    assert(tl != "back"@);
}

} // verus!
