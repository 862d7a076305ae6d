//! Keys and chords: what a key press holds, the text a chord is shown as, and the text a chord
//! is read back from.

use vstd::prelude::*;

use crate::text::{decimal, digit, one_char, same, to_decimal};

verus! {

broadcast use {vstd::string::group_string_axioms, vstd::seq_lib::group_seq_properties};

/// A media key.
#[derive(Clone, Copy, Debug, PartialEq, Eq, Structural)]
pub enum MediaKeyCode {
    Play,
    Pause,
    PlayPause,
    Reverse,
    Stop,
    FastForward,
    Rewind,
    TrackNext,
    TrackPrevious,
    Record,
    LowerVolume,
    RaiseVolume,
    MuteVolume,
}

/// A modifier key pressed on its own.
#[derive(Clone, Copy, Debug, PartialEq, Eq, Structural)]
pub enum ModifierKeyCode {
    LeftShift,
    LeftControl,
    LeftAlt,
    LeftSuper,
    LeftHyper,
    LeftMeta,
    RightShift,
    RightControl,
    RightAlt,
    RightSuper,
    RightHyper,
    RightMeta,
    IsoLevel3Shift,
    IsoLevel5Shift,
}

/// The key a press names.
#[derive(Clone, Copy, Debug, PartialEq, Eq, Structural)]
pub enum KeyCode {
    Enter,
    Esc,
    Tab,
    BackTab,
    Backspace,
    Up,
    Down,
    Left,
    Right,
    Home,
    End,
    PageUp,
    PageDown,
    Delete,
    Insert,
    Null,
    CapsLock,
    ScrollLock,
    NumLock,
    PrintScreen,
    Pause,
    Menu,
    KeypadBegin,
    /// A function key, by its number.
    F(u8),
    /// A key that types a character.
    Char(char),
    Media(MediaKeyCode),
    Modifier(ModifierKeyCode),
}

/// The modifiers held during a press.
#[derive(Clone, Copy, Debug, PartialEq, Eq, Structural)]
pub struct KeyModifiers {
    pub shift: bool,
    pub control: bool,
    pub alt: bool,
    pub super_key: bool,
    pub hyper: bool,
    pub meta: bool,
}

/// No modifier held.
#[verifier::allow_in_spec]
pub fn none() -> KeyModifiers
    returns
        (KeyModifiers {
            shift: false,
            control: false,
            alt: false,
            super_key: false,
            hyper: false,
            meta: false,
        }),
{
    KeyModifiers {
        shift: false,
        control: false,
        alt: false,
        super_key: false,
        hyper: false,
        meta: false,
    }
}

/// The modifier an uppercase letter carries.
#[verifier::allow_in_spec]
pub fn shift() -> KeyModifiers
    returns
        (KeyModifiers {
            shift: true,
            control: false,
            alt: false,
            super_key: false,
            hyper: false,
            meta: false,
        }),
{
    KeyModifiers {
        shift: true,
        control: false,
        alt: false,
        super_key: false,
        hyper: false,
        meta: false,
    }
}

/// A Ctrl chord arrives as the lowercase letter with only this held.
#[verifier::allow_in_spec]
pub fn ctrl() -> KeyModifiers
    returns
        (KeyModifiers {
            shift: false,
            control: true,
            alt: false,
            super_key: false,
            hyper: false,
            meta: false,
        }),
{
    KeyModifiers {
        shift: false,
        control: true,
        alt: false,
        super_key: false,
        hyper: false,
        meta: false,
    }
}

/// An Alt chord arrives as the lowercase letter with only this held.
#[verifier::allow_in_spec]
pub fn alt() -> KeyModifiers
    returns
        (KeyModifiers {
            shift: false,
            control: false,
            alt: true,
            super_key: false,
            hyper: false,
            meta: false,
        }),
{
    KeyModifiers {
        shift: false,
        control: false,
        alt: true,
        super_key: false,
        hyper: false,
        meta: false,
    }
}

/// One key press.
#[derive(Clone, Copy, Debug, PartialEq, Eq, Structural)]
pub struct KeyEvent {
    pub code: KeyCode,
    pub modifiers: KeyModifiers,
}

impl KeyEvent {
    pub fn new(code: KeyCode, modifiers: KeyModifiers) -> (key: KeyEvent)
        ensures
            key == (KeyEvent { code, modifiers }),
    {
        KeyEvent { code, modifiers }
    }
}

/// The character a press types: every press of a character key that does not hold Ctrl.
pub open spec fn printable_spec(key: KeyEvent) -> Option<char> {
    match key.code {
        KeyCode::Char(c) if !key.modifiers.control => Some(c),
        _ => None,
    }
}

/// A character an input field can hold: printable, and typed without Ctrl.
pub fn printable(key: KeyEvent) -> (typed: Option<char>)
    ensures
        typed == printable_spec(key),
{
    match key.code {
        KeyCode::Char(c) => if key.modifiers.control {
            None
        } else {
            Some(c)
        },
        _ => None,
    }
}

/// The name of a media key.
pub open spec fn media_name_text(key: MediaKeyCode) -> Seq<char> {
    match key {
        MediaKeyCode::Play => "Play"@,
        MediaKeyCode::Pause => "Pause"@,
        MediaKeyCode::PlayPause => "PlayPause"@,
        MediaKeyCode::Reverse => "Reverse"@,
        MediaKeyCode::Stop => "Stop"@,
        MediaKeyCode::FastForward => "FastForward"@,
        MediaKeyCode::Rewind => "Rewind"@,
        MediaKeyCode::TrackNext => "TrackNext"@,
        MediaKeyCode::TrackPrevious => "TrackPrevious"@,
        MediaKeyCode::Record => "Record"@,
        MediaKeyCode::LowerVolume => "LowerVolume"@,
        MediaKeyCode::RaiseVolume => "RaiseVolume"@,
        MediaKeyCode::MuteVolume => "MuteVolume"@,
    }
}

fn media_name(key: MediaKeyCode) -> (name: &'static str)
    ensures
        name@ == media_name_text(key),
{
    match key {
        MediaKeyCode::Play => "Play",
        MediaKeyCode::Pause => "Pause",
        MediaKeyCode::PlayPause => "PlayPause",
        MediaKeyCode::Reverse => "Reverse",
        MediaKeyCode::Stop => "Stop",
        MediaKeyCode::FastForward => "FastForward",
        MediaKeyCode::Rewind => "Rewind",
        MediaKeyCode::TrackNext => "TrackNext",
        MediaKeyCode::TrackPrevious => "TrackPrevious",
        MediaKeyCode::Record => "Record",
        MediaKeyCode::LowerVolume => "LowerVolume",
        MediaKeyCode::RaiseVolume => "RaiseVolume",
        MediaKeyCode::MuteVolume => "MuteVolume",
    }
}

/// The name of a modifier key.
pub open spec fn modifier_name_text(key: ModifierKeyCode) -> Seq<char> {
    match key {
        ModifierKeyCode::LeftShift => "LeftShift"@,
        ModifierKeyCode::LeftControl => "LeftControl"@,
        ModifierKeyCode::LeftAlt => "LeftAlt"@,
        ModifierKeyCode::LeftSuper => "LeftSuper"@,
        ModifierKeyCode::LeftHyper => "LeftHyper"@,
        ModifierKeyCode::LeftMeta => "LeftMeta"@,
        ModifierKeyCode::RightShift => "RightShift"@,
        ModifierKeyCode::RightControl => "RightControl"@,
        ModifierKeyCode::RightAlt => "RightAlt"@,
        ModifierKeyCode::RightSuper => "RightSuper"@,
        ModifierKeyCode::RightHyper => "RightHyper"@,
        ModifierKeyCode::RightMeta => "RightMeta"@,
        ModifierKeyCode::IsoLevel3Shift => "IsoLevel3Shift"@,
        ModifierKeyCode::IsoLevel5Shift => "IsoLevel5Shift"@,
    }
}

fn modifier_name(key: ModifierKeyCode) -> (name: &'static str)
    ensures
        name@ == modifier_name_text(key),
{
    match key {
        ModifierKeyCode::LeftShift => "LeftShift",
        ModifierKeyCode::LeftControl => "LeftControl",
        ModifierKeyCode::LeftAlt => "LeftAlt",
        ModifierKeyCode::LeftSuper => "LeftSuper",
        ModifierKeyCode::LeftHyper => "LeftHyper",
        ModifierKeyCode::LeftMeta => "LeftMeta",
        ModifierKeyCode::RightShift => "RightShift",
        ModifierKeyCode::RightControl => "RightControl",
        ModifierKeyCode::RightAlt => "RightAlt",
        ModifierKeyCode::RightSuper => "RightSuper",
        ModifierKeyCode::RightHyper => "RightHyper",
        ModifierKeyCode::RightMeta => "RightMeta",
        ModifierKeyCode::IsoLevel3Shift => "IsoLevel3Shift",
        ModifierKeyCode::IsoLevel5Shift => "IsoLevel5Shift",
    }
}

/// The word for a key on its own, no modifier named.
pub open spec fn key_text(code: KeyCode) -> Seq<char> {
    match code {
        KeyCode::Enter => "enter"@,
        KeyCode::Esc => "esc"@,
        KeyCode::Tab => "tab"@,
        KeyCode::BackTab => "shift-tab"@,
        KeyCode::Backspace => "backspace"@,
        KeyCode::Up => "up"@,
        KeyCode::Down => "down"@,
        KeyCode::Left => "left"@,
        KeyCode::Right => "right"@,
        KeyCode::Home => "home"@,
        KeyCode::End => "end"@,
        KeyCode::PageUp => "pageup"@,
        KeyCode::PageDown => "pagedown"@,
        KeyCode::Delete => "Delete"@,
        KeyCode::Insert => "Insert"@,
        KeyCode::Null => "Null"@,
        KeyCode::CapsLock => "CapsLock"@,
        KeyCode::ScrollLock => "ScrollLock"@,
        KeyCode::NumLock => "NumLock"@,
        KeyCode::PrintScreen => "PrintScreen"@,
        KeyCode::Pause => "Pause"@,
        KeyCode::Menu => "Menu"@,
        KeyCode::KeypadBegin => "KeypadBegin"@,
        KeyCode::F(n) => "f"@ + decimal(n as nat),
        KeyCode::Char(c) => if c == ' ' {
            "space"@
        } else {
            seq![c]
        },
        KeyCode::Media(key) => "Media("@ + media_name_text(key) + ")"@,
        KeyCode::Modifier(key) => "Modifier("@ + modifier_name_text(key) + ")"@,
    }
}

/// The text a chord is shown as: the key's word, behind `ctrl-` when Ctrl is held, else behind
/// `alt-` when Alt is.
pub open spec fn chord_text(code: KeyCode, modifiers: KeyModifiers) -> Seq<char> {
    if modifiers.control {
        "ctrl-"@ + key_text(code)
    } else if modifiers.alt {
        "alt-"@ + key_text(code)
    } else {
        key_text(code)
    }
}

fn key_label(code: KeyCode) -> (label: String)
    ensures
        label@ == key_text(code),
{
    match code {
        KeyCode::Enter => "enter".to_owned(),
        KeyCode::Esc => "esc".to_owned(),
        KeyCode::Tab => "tab".to_owned(),
        KeyCode::BackTab => "shift-tab".to_owned(),
        KeyCode::Backspace => "backspace".to_owned(),
        KeyCode::Up => "up".to_owned(),
        KeyCode::Down => "down".to_owned(),
        KeyCode::Left => "left".to_owned(),
        KeyCode::Right => "right".to_owned(),
        KeyCode::Home => "home".to_owned(),
        KeyCode::End => "end".to_owned(),
        KeyCode::PageUp => "pageup".to_owned(),
        KeyCode::PageDown => "pagedown".to_owned(),
        KeyCode::Delete => "Delete".to_owned(),
        KeyCode::Insert => "Insert".to_owned(),
        KeyCode::Null => "Null".to_owned(),
        KeyCode::CapsLock => "CapsLock".to_owned(),
        KeyCode::ScrollLock => "ScrollLock".to_owned(),
        KeyCode::NumLock => "NumLock".to_owned(),
        KeyCode::PrintScreen => "PrintScreen".to_owned(),
        KeyCode::Pause => "Pause".to_owned(),
        KeyCode::Menu => "Menu".to_owned(),
        KeyCode::KeypadBegin => "KeypadBegin".to_owned(),
        KeyCode::F(n) => "f".to_owned().concat(to_decimal(n as u64).as_str()),
        KeyCode::Char(c) => if c == ' ' {
            "space".to_owned()
        } else {
            one_char(c)
        },
        KeyCode::Media(key) => "Media(".to_owned().concat(media_name(key)).concat(")"),
        KeyCode::Modifier(key) => "Modifier(".to_owned().concat(modifier_name(key)).concat(")"),
    }
}

/// The chord text a human reads, e.g. `"ctrl-r"` or `"?"` or `"enter"`. The one place a chord
/// turns into a word, so every surface that shows one agrees on its spelling.
pub fn chord_label(code: KeyCode, modifiers: KeyModifiers) -> (label: String)
    ensures
        label@ == chord_text(code, modifiers),
{
    let base = key_label(code);
    if modifiers.control {
        "ctrl-".to_owned().concat(base.as_str())
    } else if modifiers.alt {
        "alt-".to_owned().concat(base.as_str())
    } else {
        base
    }
}

/// `s` starts with `prefix`.
pub open spec fn has_prefix(s: Seq<char>, prefix: Seq<char>) -> bool {
    s.len() >= prefix.len() && s.take(prefix.len() as int) == prefix
}

/// What follows `prefix` in `s`, where `s` starts with it.
pub fn strip_prefix<'a>(s: &'a str, prefix: &str) -> (rest: Option<&'a str>)
    ensures
        rest is Some <==> has_prefix(s@, prefix@),
        rest matches Some(rest) ==> rest@ == s@.skip(prefix@.len() as int),
{
    let whole: usize = s.unicode_len();
    let count: usize = prefix.unicode_len();
    if whole < count {
        return None;
    }
    if same(s.substring_char(0, count), prefix) {
        Some(s.substring_char(count, whole))
    } else {
        None
    }
}

/// The number a run of decimal digits writes.
pub open spec fn digits_value(s: Seq<char>) -> nat
    decreases s.len(),
{
    if s.len() == 0 {
        0
    } else {
        digits_value(s.drop_last()) * 10 + (s.last() as nat - '0' as nat) as nat
    }
}

/// The function key `base` names: `f` and a number from 1 to 24, written as [`chord_label`]
/// writes it, without a sign and without leading zeros.
pub open spec fn function_key_spec(base: Seq<char>) -> Option<KeyCode> {
    let n = digits_value(base.skip(1));
    if base.len() > 0 && base[0] == 'f' && 1 <= n <= 24 && base.skip(1) == decimal(n) {
        Some(KeyCode::F(n as u8))
    } else {
        None
    }
}

/// The key `base` names, no modifier prefix in front of it.
pub open spec fn named_key_spec(base: Seq<char>) -> Option<KeyCode> {
    if base == "enter"@ {
        Some(KeyCode::Enter)
    } else if base == "esc"@ {
        Some(KeyCode::Esc)
    } else if base == "tab"@ {
        Some(KeyCode::Tab)
    } else if base == "shift-tab"@ {
        Some(KeyCode::BackTab)
    } else if base == "backspace"@ {
        Some(KeyCode::Backspace)
    } else if base == "up"@ {
        Some(KeyCode::Up)
    } else if base == "down"@ {
        Some(KeyCode::Down)
    } else if base == "left"@ {
        Some(KeyCode::Left)
    } else if base == "right"@ {
        Some(KeyCode::Right)
    } else if base == "home"@ {
        Some(KeyCode::Home)
    } else if base == "end"@ {
        Some(KeyCode::End)
    } else if base == "pageup"@ {
        Some(KeyCode::PageUp)
    } else if base == "pagedown"@ {
        Some(KeyCode::PageDown)
    } else if base == "space"@ {
        Some(KeyCode::Char(' '))
    } else if base.len() == 1 {
        Some(KeyCode::Char(base[0]))
    } else {
        function_key_spec(base)
    }
}

/// The modifiers a prefix names, with the Shift an uppercase letter carries.
pub open spec fn with_implied_shift(code: KeyCode, modifiers: KeyModifiers) -> KeyModifiers {
    match code {
        KeyCode::Char(c) if 'A' <= c <= 'Z' => KeyModifiers { shift: true, ..modifiers },
        _ => modifiers,
    }
}

/// The chord `text` names, or nothing where it names none.
pub open spec fn parse_chord_spec(text: Seq<char>) -> Option<(KeyCode, KeyModifiers)> {
    let (prefix, base) = if has_prefix(text, "ctrl-"@) {
        (ctrl(), text.skip(5))
    } else if has_prefix(text, "alt-"@) {
        (alt(), text.skip(4))
    } else {
        (none(), text)
    };
    match named_key_spec(base) {
        Some(code) => Some((code, with_implied_shift(code, prefix))),
        None => None,
    }
}

/// `"f1"` through `"f24"`, case-sensitive lowercase, exactly as [`chord_label`] renders them.
fn function_key(base: &str) -> (code: Option<KeyCode>)
    ensures
        code == function_key_spec(base@),
        forall|n: u8|
            code == Some(KeyCode::F(n)) <==> 1 <= n <= 24 && base@ == #[trigger] key_text(
                KeyCode::F(n),
            ),
{
    proof {
        assert forall|n: u8|
            function_key_spec(base@) == Some(KeyCode::F(n)) <==> 1 <= n <= 24 && base@
                == #[trigger] key_text(KeyCode::F(n)) by {
            lemma_function_key_is_its_word(base@, n);
        }
    }
    let whole: usize = base.unicode_len();
    if whole == 0 || base.get_char(0) != 'f' {
        return None;
    }
    let digits = base.substring_char(1, whole);
    proof {
        assert(digits@ =~= base@.skip(1));
    }
    let mut n: u8 = 1;
    while n <= 24
        invariant
            1 <= n <= 25,
            base@.len() > 0,
            base@[0] == 'f',
            digits@ == base@.skip(1),
            forall|k: nat| 1 <= k < n ==> digits@ != #[trigger] decimal(k),
            forall|k: u8|
                function_key_spec(base@) == Some(KeyCode::F(k)) <==> 1 <= k <= 24 && base@
                    == #[trigger] key_text(KeyCode::F(k)),
        decreases 25 - n,
    {
        if same(digits, to_decimal(n as u64).as_str()) {
            proof {
                lemma_decimal_reads_back(n as nat);
            }
            return Some(KeyCode::F(n));
        }
        n = n + 1;
    }
    None
}

/// The named-key half of [`parse_chord`]'s grammar: the words [`chord_label`] renders, a bare
/// single character, or a function key.
fn named_key_code(base: &str) -> (code: Option<KeyCode>)
    ensures
        code == named_key_spec(base@),
{
    if same(base, "enter") {
        Some(KeyCode::Enter)
    } else if same(base, "esc") {
        Some(KeyCode::Esc)
    } else if same(base, "tab") {
        Some(KeyCode::Tab)
    } else if same(base, "shift-tab") {
        Some(KeyCode::BackTab)
    } else if same(base, "backspace") {
        Some(KeyCode::Backspace)
    } else if same(base, "up") {
        Some(KeyCode::Up)
    } else if same(base, "down") {
        Some(KeyCode::Down)
    } else if same(base, "left") {
        Some(KeyCode::Left)
    } else if same(base, "right") {
        Some(KeyCode::Right)
    } else if same(base, "home") {
        Some(KeyCode::Home)
    } else if same(base, "end") {
        Some(KeyCode::End)
    } else if same(base, "pageup") {
        Some(KeyCode::PageUp)
    } else if same(base, "pagedown") {
        Some(KeyCode::PageDown)
    } else if same(base, "space") {
        Some(KeyCode::Char(' '))
    } else if base.unicode_len() == 1 {
        Some(KeyCode::Char(base.get_char(0)))
    } else {
        function_key(base)
    }
}

/// A chord as a user types it: [`chord_label`]'s own output. `ctrl-` and `alt-` are the
/// modifier prefixes; an uppercase single letter carries an implied Shift. `None` means the
/// text names no chord.
pub fn parse_chord(text: &str) -> (chord: Option<(KeyCode, KeyModifiers)>)
    ensures
        chord == parse_chord_spec(text@),
{
    proof {
        reveal_strlit("ctrl-");
        reveal_strlit("alt-");
    }
    let (prefix, base) = match strip_prefix(text, "ctrl-") {
        Some(rest) => (ctrl(), rest),
        None => match strip_prefix(text, "alt-") {
            Some(rest) => (alt(), rest),
            None => (none(), text),
        },
    };
    let code = match named_key_code(base) {
        Some(code) => code,
        None => {
            return None;
        },
    };
    let mut modifiers = prefix;
    match code {
        KeyCode::Char(c) => {
            if 'A' <= c && c <= 'Z' {
                modifiers.shift = true;
            }
        },
        _ => {},
    }
    Some((code, modifiers))
}

/// The keys a chord text can name.
pub open spec fn is_named(code: KeyCode) -> bool {
    match code {
        KeyCode::Enter => true,
        KeyCode::Esc => true,
        KeyCode::Tab => true,
        KeyCode::BackTab => true,
        KeyCode::Backspace => true,
        KeyCode::Up => true,
        KeyCode::Down => true,
        KeyCode::Left => true,
        KeyCode::Right => true,
        KeyCode::Home => true,
        KeyCode::End => true,
        KeyCode::PageUp => true,
        KeyCode::PageDown => true,
        KeyCode::Char(_) => true,
        KeyCode::F(n) => 1 <= n <= 24,
        _ => false,
    }
}

/// The chords a chord text can name: a named key under Ctrl, Alt or neither, and Shift exactly
/// where the key is an uppercase ASCII letter.
pub open spec fn is_canonical(code: KeyCode, modifiers: KeyModifiers) -> bool {
    &&& is_named(code)
    &&& {
        ||| modifiers == with_implied_shift(code, none())
        ||| modifiers == with_implied_shift(code, ctrl())
        ||| modifiers == with_implied_shift(code, alt())
    }
}

/// What the decimal digits of a number write is that number.
proof fn lemma_decimal_reads_back(n: nat)
    ensures
        decimal(n).len() > 0,
        digits_value(decimal(n)) == n,
    decreases n,
{
    if n < 10 {
        assert(decimal(n).drop_last() =~= Seq::<char>::empty());
        assert(digits_value(decimal(n)) == digits_value(Seq::<char>::empty()) * 10 + n);
    } else {
        lemma_decimal_reads_back(n / 10);
        assert(decimal(n).drop_last() =~= decimal(n / 10));
        assert(decimal(n).last() == digit(n % 10));
    }
}

/// A function key's word is read back as that key.
proof fn lemma_function_key_reads_back(n: u8)
    requires
        1 <= n <= 24,
    ensures
        function_key_spec("f"@ + decimal(n as nat)) == Some(KeyCode::F(n)),
        ("f"@ + decimal(n as nat)).len() >= 2,
        ("f"@ + decimal(n as nat))[0] == 'f',
{
    reveal_strlit("f");
    lemma_decimal_reads_back(n as nat);
    assert(("f"@ + decimal(n as nat)).skip(1) =~= decimal(n as nat));
}

/// A text names a function key exactly where it is that key's own word.
proof fn lemma_function_key_is_its_word(base: Seq<char>, n: u8)
    ensures
        function_key_spec(base) == Some(KeyCode::F(n)) <==> 1 <= n <= 24 && base == key_text(
            KeyCode::F(n),
        ),
{
    reveal_strlit("f");
    if 1 <= n <= 24 && base == key_text(KeyCode::F(n)) {
        lemma_function_key_reads_back(n);
    }
    if function_key_spec(base) == Some(KeyCode::F(n)) {
        assert(base =~= "f"@ + base.skip(1));
    }
}

/// The words of the named keys, character by character.
proof fn lemma_words()
    ensures
        "enter"@ == seq!['e', 'n', 't', 'e', 'r'],
        "esc"@ == seq!['e', 's', 'c'],
        "tab"@ == seq!['t', 'a', 'b'],
        "shift-tab"@ == seq!['s', 'h', 'i', 'f', 't', '-', 't', 'a', 'b'],
        "backspace"@ == seq!['b', 'a', 'c', 'k', 's', 'p', 'a', 'c', 'e'],
        "up"@ == seq!['u', 'p'],
        "down"@ == seq!['d', 'o', 'w', 'n'],
        "left"@ == seq!['l', 'e', 'f', 't'],
        "right"@ == seq!['r', 'i', 'g', 'h', 't'],
        "home"@ == seq!['h', 'o', 'm', 'e'],
        "end"@ == seq!['e', 'n', 'd'],
        "pageup"@ == seq!['p', 'a', 'g', 'e', 'u', 'p'],
        "pagedown"@ == seq!['p', 'a', 'g', 'e', 'd', 'o', 'w', 'n'],
        "space"@ == seq!['s', 'p', 'a', 'c', 'e'],
{
    reveal_strlit("enter");
    assert("enter"@ =~= seq!['e', 'n', 't', 'e', 'r']);
    reveal_strlit("esc");
    assert("esc"@ =~= seq!['e', 's', 'c']);
    reveal_strlit("tab");
    assert("tab"@ =~= seq!['t', 'a', 'b']);
    reveal_strlit("shift-tab");
    assert("shift-tab"@ =~= seq!['s', 'h', 'i', 'f', 't', '-', 't', 'a', 'b']);
    reveal_strlit("backspace");
    assert("backspace"@ =~= seq!['b', 'a', 'c', 'k', 's', 'p', 'a', 'c', 'e']);
    reveal_strlit("up");
    assert("up"@ =~= seq!['u', 'p']);
    reveal_strlit("down");
    assert("down"@ =~= seq!['d', 'o', 'w', 'n']);
    reveal_strlit("left");
    assert("left"@ =~= seq!['l', 'e', 'f', 't']);
    reveal_strlit("right");
    assert("right"@ =~= seq!['r', 'i', 'g', 'h', 't']);
    reveal_strlit("home");
    assert("home"@ =~= seq!['h', 'o', 'm', 'e']);
    reveal_strlit("end");
    assert("end"@ =~= seq!['e', 'n', 'd']);
    reveal_strlit("pageup");
    assert("pageup"@ =~= seq!['p', 'a', 'g', 'e', 'u', 'p']);
    reveal_strlit("pagedown");
    assert("pagedown"@ =~= seq!['p', 'a', 'g', 'e', 'd', 'o', 'w', 'n']);
    reveal_strlit("space");
    assert("space"@ =~= seq!['s', 'p', 'a', 'c', 'e']);
}

/// The word of a named key is read back as that key.
proof fn lemma_key_reads_back(code: KeyCode)
    requires
        is_named(code),
    ensures
        named_key_spec(key_text(code)) == Some(code),
{
    lemma_words();
    match code {
        KeyCode::F(n) => {
            lemma_function_key_reads_back(n);
        },
        KeyCode::Char(c) => {},
        _ => {},
    }
}

/// No named key's word starts like a modifier prefix.
proof fn lemma_no_word_starts_with_a_prefix(code: KeyCode)
    requires
        is_named(code),
    ensures
        !has_prefix(key_text(code), "ctrl-"@),
        !has_prefix(key_text(code), "alt-"@),
        forall|word: Seq<char>| !has_prefix(#[trigger] ("alt-"@ + word), "ctrl-"@),
{
    reveal_strlit("ctrl-");
    reveal_strlit("alt-");
    lemma_words();
    match code {
        KeyCode::F(n) => {
            lemma_function_key_reads_back(n);
        },
        _ => {},
    }
    let text = key_text(code);
    if has_prefix(text, "ctrl-"@) {
        assert(text[0] == text.take(5)[0]);
        assert(text[1] == text.take(5)[1]);
        assert(text[4] == text.take(5)[4]);
    }
    if has_prefix(text, "alt-"@) {
        assert(text[0] == text.take(4)[0]);
        assert(text[3] == text.take(4)[3]);
    }
    assert forall|word: Seq<char>| !has_prefix(#[trigger] ("alt-"@ + word), "ctrl-"@) by {
        let text = "alt-"@ + word;
        if has_prefix(text, "ctrl-"@) {
            assert(text[0] == text.take(5)[0]);
            assert(text[0] == 'a');
        }
    }
}

/// Whatever a canonical chord is shown as is what a user types back to name it.
pub proof fn law_a_chord_label_is_read_back(code: KeyCode, modifiers: KeyModifiers)
    requires
        is_canonical(code, modifiers),
    ensures
        parse_chord_spec(chord_text(code, modifiers)) == Some((code, modifiers)),
{
    reveal_strlit("ctrl-");
    reveal_strlit("alt-");
    lemma_key_reads_back(code);
    lemma_no_word_starts_with_a_prefix(code);
    let text = chord_text(code, modifiers);
    let word = key_text(code);
    if modifiers.control {
        assert(text.take(5) =~= "ctrl-"@);
        assert(text.skip(5) =~= word);
    } else if modifiers.alt {
        assert(text.take(4) =~= "alt-"@);
        assert(text.skip(4) =~= word);
    }
}

/// Every chord a text names is a canonical one, so showing it and reading it again changes
/// nothing.
pub proof fn law_every_parsed_chord_is_canonical(text: Seq<char>)
    ensures
        parse_chord_spec(text) matches Some((code, modifiers)) ==> is_canonical(code, modifiers)
            && parse_chord_spec(chord_text(code, modifiers)) == Some((code, modifiers)),
{
    if let Some((code, modifiers)) = parse_chord_spec(text) {
        law_a_chord_label_is_read_back(code, modifiers);
    }
}

/// A chord is read from no text but its own label; only the space bar has a second spelling, the
/// character itself.
pub proof fn law_a_chord_is_read_from_its_own_label(text: Seq<char>)
    ensures
        parse_chord_spec(text) matches Some((code, modifiers)) ==> code != KeyCode::Char(' ')
            ==> text == chord_text(code, modifiers),
{
    reveal_strlit("ctrl-");
    reveal_strlit("alt-");
    if let Some((code, modifiers)) = parse_chord_spec(text) {
        let base = if has_prefix(text, "ctrl-"@) {
            text.skip(5)
        } else if has_prefix(text, "alt-"@) {
            text.skip(4)
        } else {
            text
        };
        lemma_words();
        if let KeyCode::F(n) = code {
            lemma_function_key_is_its_word(base, n);
        }
        if base.len() == 1 {
            assert(base =~= seq![base[0]]);
        }
        assert(code != KeyCode::Char(' ') ==> base == key_text(code));
        if has_prefix(text, "ctrl-"@) {
            assert(text =~= text.take(5) + text.skip(5));
        } else if has_prefix(text, "alt-"@) {
            assert(text =~= text.take(4) + text.skip(4));
        }
    }
}

/// A text is accepted as a function key exactly where it is the label of that key's chord: `f1`
/// to `f24`, alone or behind `ctrl-` or `alt-`.
pub proof fn law_a_function_key_is_accepted_only_as_its_label(
    text: Seq<char>,
    n: u8,
    modifiers: KeyModifiers,
)
    ensures
        parse_chord_spec(text) == Some((KeyCode::F(n), modifiers)) <==> is_canonical(
            KeyCode::F(n),
            modifiers,
        ) && text == chord_text(KeyCode::F(n), modifiers),
{
    law_every_parsed_chord_is_canonical(text);
    law_a_chord_is_read_from_its_own_label(text);
    if is_canonical(KeyCode::F(n), modifiers) {
        law_a_chord_label_is_read_back(KeyCode::F(n), modifiers);
    }
}

/// The word each key is shown as: a word of its own for those a chord text can name, the character
/// for a character other than the space, `f` and the number for a function key, and the key's own
/// name for the others.
pub proof fn law_the_word_for_each_key(c: char, n: u8)
    ensures
        key_text(KeyCode::Enter) == "enter"@,
        key_text(KeyCode::Esc) == "esc"@,
        key_text(KeyCode::Tab) == "tab"@,
        key_text(KeyCode::BackTab) == "shift-tab"@,
        key_text(KeyCode::Backspace) == "backspace"@,
        key_text(KeyCode::Up) == "up"@,
        key_text(KeyCode::Down) == "down"@,
        key_text(KeyCode::Left) == "left"@,
        key_text(KeyCode::Right) == "right"@,
        key_text(KeyCode::Home) == "home"@,
        key_text(KeyCode::End) == "end"@,
        key_text(KeyCode::PageUp) == "pageup"@,
        key_text(KeyCode::PageDown) == "pagedown"@,
        key_text(KeyCode::Delete) == "Delete"@,
        key_text(KeyCode::Insert) == "Insert"@,
        key_text(KeyCode::Null) == "Null"@,
        key_text(KeyCode::CapsLock) == "CapsLock"@,
        key_text(KeyCode::ScrollLock) == "ScrollLock"@,
        key_text(KeyCode::NumLock) == "NumLock"@,
        key_text(KeyCode::PrintScreen) == "PrintScreen"@,
        key_text(KeyCode::Pause) == "Pause"@,
        key_text(KeyCode::Menu) == "Menu"@,
        key_text(KeyCode::KeypadBegin) == "KeypadBegin"@,
        key_text(KeyCode::Char(' ')) == "space"@,
        c != ' ' ==> key_text(KeyCode::Char(c)) == seq![c],
        key_text(KeyCode::F(n)) == "f"@ + decimal(n as nat),
        key_text(KeyCode::Media(MediaKeyCode::Play)) == "Media("@ + "Play"@ + ")"@,
        key_text(KeyCode::Media(MediaKeyCode::Pause)) == "Media("@ + "Pause"@ + ")"@,
        key_text(KeyCode::Media(MediaKeyCode::PlayPause)) == "Media("@ + "PlayPause"@ + ")"@,
        key_text(KeyCode::Media(MediaKeyCode::Reverse)) == "Media("@ + "Reverse"@ + ")"@,
        key_text(KeyCode::Media(MediaKeyCode::Stop)) == "Media("@ + "Stop"@ + ")"@,
        key_text(KeyCode::Media(MediaKeyCode::FastForward)) == "Media("@ + "FastForward"@ + ")"@,
        key_text(KeyCode::Media(MediaKeyCode::Rewind)) == "Media("@ + "Rewind"@ + ")"@,
        key_text(KeyCode::Media(MediaKeyCode::TrackNext)) == "Media("@ + "TrackNext"@ + ")"@,
        key_text(KeyCode::Media(MediaKeyCode::TrackPrevious)) == "Media("@ + "TrackPrevious"@ + ")"@,
        key_text(KeyCode::Media(MediaKeyCode::Record)) == "Media("@ + "Record"@ + ")"@,
        key_text(KeyCode::Media(MediaKeyCode::LowerVolume)) == "Media("@ + "LowerVolume"@ + ")"@,
        key_text(KeyCode::Media(MediaKeyCode::RaiseVolume)) == "Media("@ + "RaiseVolume"@ + ")"@,
        key_text(KeyCode::Media(MediaKeyCode::MuteVolume)) == "Media("@ + "MuteVolume"@ + ")"@,
        key_text(KeyCode::Modifier(ModifierKeyCode::LeftShift)) == "Modifier("@ + "LeftShift"@ + ")"@,
        key_text(KeyCode::Modifier(ModifierKeyCode::LeftControl)) == "Modifier("@ + "LeftControl"@ + ")"@,
        key_text(KeyCode::Modifier(ModifierKeyCode::LeftAlt)) == "Modifier("@ + "LeftAlt"@ + ")"@,
        key_text(KeyCode::Modifier(ModifierKeyCode::LeftSuper)) == "Modifier("@ + "LeftSuper"@ + ")"@,
        key_text(KeyCode::Modifier(ModifierKeyCode::LeftHyper)) == "Modifier("@ + "LeftHyper"@ + ")"@,
        key_text(KeyCode::Modifier(ModifierKeyCode::LeftMeta)) == "Modifier("@ + "LeftMeta"@ + ")"@,
        key_text(KeyCode::Modifier(ModifierKeyCode::RightShift)) == "Modifier("@ + "RightShift"@ + ")"@,
        key_text(KeyCode::Modifier(ModifierKeyCode::RightControl)) == "Modifier("@ + "RightControl"@ + ")"@,
        key_text(KeyCode::Modifier(ModifierKeyCode::RightAlt)) == "Modifier("@ + "RightAlt"@ + ")"@,
        key_text(KeyCode::Modifier(ModifierKeyCode::RightSuper)) == "Modifier("@ + "RightSuper"@ + ")"@,
        key_text(KeyCode::Modifier(ModifierKeyCode::RightHyper)) == "Modifier("@ + "RightHyper"@ + ")"@,
        key_text(KeyCode::Modifier(ModifierKeyCode::RightMeta)) == "Modifier("@ + "RightMeta"@ + ")"@,
        key_text(KeyCode::Modifier(ModifierKeyCode::IsoLevel3Shift)) == "Modifier("@ + "IsoLevel3Shift"@ + ")"@,
        key_text(KeyCode::Modifier(ModifierKeyCode::IsoLevel5Shift)) == "Modifier("@ + "IsoLevel5Shift"@ + ")"@,
{
}

/// A chord is shown as its key behind the one modifier that is named: Ctrl where it is held, else
/// Alt where that is. The others are not shown.
pub proof fn law_a_chord_is_shown_by_its_first_modifier(code: KeyCode, modifiers: KeyModifiers)
    ensures
        modifiers.control ==> chord_text(code, modifiers) == "ctrl-"@ + key_text(code),
        !modifiers.control && modifiers.alt ==> chord_text(code, modifiers) == "alt-"@ + key_text(
            code,
        ),
        !modifiers.control && !modifiers.alt ==> chord_text(code, modifiers) == key_text(code),
{
}

/// One character names its own key, with Shift exactly where it is an uppercase ASCII letter.
pub proof fn law_a_character_names_its_own_key(c: char)
    ensures
        parse_chord_spec(seq![c]) == Some(
            (
                KeyCode::Char(c),
                KeyModifiers {
                    shift: 'A' <= c <= 'Z',
                    control: false,
                    alt: false,
                    super_key: false,
                    hyper: false,
                    meta: false,
                },
            ),
        ),
{
    reveal_strlit("ctrl-");
    reveal_strlit("alt-");
    lemma_words();
    assert(seq![c].len() == 1);
    assert(seq![c][0] == c);
}

/// Each word names its key with no modifier held, and so does `f` with a number from 1 to 24.
pub proof fn law_each_word_names_its_key(n: u8)
    ensures
        parse_chord_spec("enter"@) == Some((KeyCode::Enter, none())),
        parse_chord_spec("esc"@) == Some((KeyCode::Esc, none())),
        parse_chord_spec("tab"@) == Some((KeyCode::Tab, none())),
        parse_chord_spec("shift-tab"@) == Some((KeyCode::BackTab, none())),
        parse_chord_spec("backspace"@) == Some((KeyCode::Backspace, none())),
        parse_chord_spec("up"@) == Some((KeyCode::Up, none())),
        parse_chord_spec("down"@) == Some((KeyCode::Down, none())),
        parse_chord_spec("left"@) == Some((KeyCode::Left, none())),
        parse_chord_spec("right"@) == Some((KeyCode::Right, none())),
        parse_chord_spec("home"@) == Some((KeyCode::Home, none())),
        parse_chord_spec("end"@) == Some((KeyCode::End, none())),
        parse_chord_spec("pageup"@) == Some((KeyCode::PageUp, none())),
        parse_chord_spec("pagedown"@) == Some((KeyCode::PageDown, none())),
        parse_chord_spec("space"@) == Some((KeyCode::Char(' '), none())),
        1 <= n <= 24 ==> parse_chord_spec("f"@ + decimal(n as nat)) == Some(
            (KeyCode::F(n), none()),
        ),
        none() == (KeyModifiers {
            shift: false,
            control: false,
            alt: false,
            super_key: false,
            hyper: false,
            meta: false,
        }),
{
    law_a_chord_label_is_read_back(KeyCode::Enter, none());
    law_a_chord_label_is_read_back(KeyCode::Esc, none());
    law_a_chord_label_is_read_back(KeyCode::Tab, none());
    law_a_chord_label_is_read_back(KeyCode::BackTab, none());
    law_a_chord_label_is_read_back(KeyCode::Backspace, none());
    law_a_chord_label_is_read_back(KeyCode::Up, none());
    law_a_chord_label_is_read_back(KeyCode::Down, none());
    law_a_chord_label_is_read_back(KeyCode::Left, none());
    law_a_chord_label_is_read_back(KeyCode::Right, none());
    law_a_chord_label_is_read_back(KeyCode::Home, none());
    law_a_chord_label_is_read_back(KeyCode::End, none());
    law_a_chord_label_is_read_back(KeyCode::PageUp, none());
    law_a_chord_label_is_read_back(KeyCode::PageDown, none());
    law_a_chord_label_is_read_back(KeyCode::Char(' '), none());
    if 1 <= n <= 24 {
        law_a_chord_label_is_read_back(KeyCode::F(n), none());
    }
}

/// A text behind `ctrl-` or `alt-` names the key it names alone, with that one modifier held
/// besides; alone it names its key with no modifier but a Shift an uppercase letter implies.
pub proof fn law_a_prefix_holds_its_modifier(base: Seq<char>)
    requires
        !has_prefix(base, "ctrl-"@),
        !has_prefix(base, "alt-"@),
    ensures
        parse_chord_spec("ctrl-"@ + base) is Some <==> parse_chord_spec(base) is Some,
        parse_chord_spec("alt-"@ + base) is Some <==> parse_chord_spec(base) is Some,
        parse_chord_spec(base) matches Some((code, modifiers)) ==> {
            &&& !modifiers.control && !modifiers.alt && !modifiers.super_key && !modifiers.hyper
                && !modifiers.meta
            &&& modifiers.shift <==> (code matches KeyCode::Char(c) && 'A' <= c <= 'Z')
            &&& parse_chord_spec("ctrl-"@ + base) == Some(
                (code, KeyModifiers { control: true, ..modifiers }),
            )
            &&& parse_chord_spec("alt-"@ + base) == Some(
                (code, KeyModifiers { alt: true, ..modifiers }),
            )
        },
{
    reveal_strlit("ctrl-");
    reveal_strlit("alt-");
    let controlled = "ctrl-"@ + base;
    let alternate = "alt-"@ + base;
    assert(controlled.take(5) =~= "ctrl-"@);
    assert(controlled.skip(5) =~= base);
    assert(alternate.take(4) =~= "alt-"@);
    assert(alternate.skip(4) =~= base);
    if has_prefix(alternate, "ctrl-"@) {
        assert(alternate[0] == alternate.take(5)[0]);
        assert(alternate[0] == 'a');
    }
}

/// A key types a character exactly where it is that character's and Ctrl is not held.
pub proof fn law_what_a_key_types(key: KeyEvent, c: char)
    ensures
        printable_spec(key) == Some(c) <==> key.code == KeyCode::Char(c) && !key.modifiers.control,
        printable_spec(key) is None <==> key.modifiers.control || !(key.code is Char),
{
}

} // verus!
