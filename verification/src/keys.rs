//! Key presses as the curator's screens read them: the key and the modifier
//! keys held, and the tests that decide which command a press means.
use crate::strings::append_str;
use vstd::prelude::*;

verus! {

/// A key, as far as the screens tell keys apart.
#[derive(Debug, Clone, Copy, PartialEq, Eq, Structural)]
pub enum KeyCode {
    Char(char),
    Enter,
    Esc,
    Backspace,
    Left,
    Right,
    Up,
    Down,
    Tab,
    BackTab,
    Home,
    End,
    PageUp,
    PageDown,
    Delete,
    Insert,
    /// A function key, by its number.
    F(u8),
    Null,
    CapsLock,
    ScrollLock,
    NumLock,
    PrintScreen,
    Pause,
    Menu,
    KeypadBegin,
    /// A media key.
    Media(MediaKey),
    /// A modifier key pressed on its own.
    Modifier(ModifierKey),
}

/// A media key.
#[derive(Debug, Clone, Copy, PartialEq, Eq, Structural)]
pub enum MediaKey {
    Play,
    Pause,
    PlayPause,
    Reverse,
    Stop,
    FastForward,
    Rewind,
    TrackNext,
    TrackPrevious,
    Record,
    LowerVolume,
    RaiseVolume,
    MuteVolume,
}

/// A modifier key.
#[derive(Debug, Clone, Copy, PartialEq, Eq, Structural)]
pub enum ModifierKey {
    LeftShift,
    LeftControl,
    LeftAlt,
    LeftSuper,
    LeftHyper,
    LeftMeta,
    RightShift,
    RightControl,
    RightAlt,
    RightSuper,
    RightHyper,
    RightMeta,
    IsoLevel3Shift,
    IsoLevel5Shift,
}

/// The name of a media key, as its variant is written.
pub open spec fn media_key_name(m: MediaKey) -> Seq<char> {
    match m {
        MediaKey::Play => "Play"@,
        MediaKey::Pause => "Pause"@,
        MediaKey::PlayPause => "PlayPause"@,
        MediaKey::Reverse => "Reverse"@,
        MediaKey::Stop => "Stop"@,
        MediaKey::FastForward => "FastForward"@,
        MediaKey::Rewind => "Rewind"@,
        MediaKey::TrackNext => "TrackNext"@,
        MediaKey::TrackPrevious => "TrackPrevious"@,
        MediaKey::Record => "Record"@,
        MediaKey::LowerVolume => "LowerVolume"@,
        MediaKey::RaiseVolume => "RaiseVolume"@,
        MediaKey::MuteVolume => "MuteVolume"@,
    }
}

/// The name of a media key (see `media_key_name`).
pub fn media_key_str(m: MediaKey) -> (r: &'static str)
    ensures
        r@ == media_key_name(m),
{
    match m {
        MediaKey::Play => "Play",
        MediaKey::Pause => "Pause",
        MediaKey::PlayPause => "PlayPause",
        MediaKey::Reverse => "Reverse",
        MediaKey::Stop => "Stop",
        MediaKey::FastForward => "FastForward",
        MediaKey::Rewind => "Rewind",
        MediaKey::TrackNext => "TrackNext",
        MediaKey::TrackPrevious => "TrackPrevious",
        MediaKey::Record => "Record",
        MediaKey::LowerVolume => "LowerVolume",
        MediaKey::RaiseVolume => "RaiseVolume",
        MediaKey::MuteVolume => "MuteVolume",
    }
}

/// The name of a modifier key, as its variant is written.
pub open spec fn modifier_key_name(m: ModifierKey) -> Seq<char> {
    match m {
        ModifierKey::LeftShift => "LeftShift"@,
        ModifierKey::LeftControl => "LeftControl"@,
        ModifierKey::LeftAlt => "LeftAlt"@,
        ModifierKey::LeftSuper => "LeftSuper"@,
        ModifierKey::LeftHyper => "LeftHyper"@,
        ModifierKey::LeftMeta => "LeftMeta"@,
        ModifierKey::RightShift => "RightShift"@,
        ModifierKey::RightControl => "RightControl"@,
        ModifierKey::RightAlt => "RightAlt"@,
        ModifierKey::RightSuper => "RightSuper"@,
        ModifierKey::RightHyper => "RightHyper"@,
        ModifierKey::RightMeta => "RightMeta"@,
        ModifierKey::IsoLevel3Shift => "IsoLevel3Shift"@,
        ModifierKey::IsoLevel5Shift => "IsoLevel5Shift"@,
    }
}

/// The name of a modifier key (see `modifier_key_name`).
pub fn modifier_key_str(m: ModifierKey) -> (r: &'static str)
    ensures
        r@ == modifier_key_name(m),
{
    match m {
        ModifierKey::LeftShift => "LeftShift",
        ModifierKey::LeftControl => "LeftControl",
        ModifierKey::LeftAlt => "LeftAlt",
        ModifierKey::LeftSuper => "LeftSuper",
        ModifierKey::LeftHyper => "LeftHyper",
        ModifierKey::LeftMeta => "LeftMeta",
        ModifierKey::RightShift => "RightShift",
        ModifierKey::RightControl => "RightControl",
        ModifierKey::RightAlt => "RightAlt",
        ModifierKey::RightSuper => "RightSuper",
        ModifierKey::RightHyper => "RightHyper",
        ModifierKey::RightMeta => "RightMeta",
        ModifierKey::IsoLevel3Shift => "IsoLevel3Shift",
        ModifierKey::IsoLevel5Shift => "IsoLevel5Shift",
    }
}

/// A key press with the modifier keys held.
#[derive(Debug, Clone, Copy, PartialEq, Eq, Structural)]
pub struct Key {
    pub code: KeyCode,
    pub ctrl: bool,
    pub alt: bool,
    pub shift: bool,
}

/// The ASCII lowercase of `c`, as a code point.
pub open spec fn ascii_lower(c: char) -> u32 {
    if 65 <= (c as u32) <= 90 {
        (c as u32 + 32) as u32
    } else {
        c as u32
    }
}

/// Whether `c` is an ASCII uppercase letter.
pub open spec fn is_ascii_upper(c: char) -> bool {
    65 <= (c as u32) <= 90
}

/// Whether `c` is an ASCII letter.
pub open spec fn is_ascii_alpha(c: char) -> bool {
    65 <= (c as u32) <= 90 || 97 <= (c as u32) <= 122
}

/// The ASCII lowercase of `c`, as a code point.
pub fn ascii_lower_code(c: char) -> (r: u32)
    ensures
        r == ascii_lower(c),
{
    let u = c as u32;
    if 65 <= u && u <= 90 {
        u + 32
    } else {
        u
    }
}

/// Whether `c` is an ASCII uppercase letter.
pub fn is_ascii_uppercase(c: char) -> (r: bool)
    ensures
        r == is_ascii_upper(c),
{
    let u = c as u32;
    65 <= u && u <= 90
}

/// Whether `c` is an ASCII letter.
pub fn is_ascii_letter(c: char) -> (r: bool)
    ensures
        r == is_ascii_alpha(c),
{
    let u = c as u32;
    (65 <= u && u <= 90) || (97 <= u && u <= 122)
}

/// The key is the character `ch`, in either ASCII case.
pub open spec fn is_char_ignoring_case(code: KeyCode, ch: char) -> bool {
    code matches KeyCode::Char(c) && ascii_lower(c) == ascii_lower(ch)
}

fn char_ignoring_case(code: KeyCode, ch: char) -> (r: bool)
    ensures
        r == is_char_ignoring_case(code, ch),
{
    match code {
        KeyCode::Char(c) => ascii_lower_code(c) == ascii_lower_code(ch),
        _ => false,
    }
}

/// Ctrl with `ch` (either case).
pub open spec fn ctrl_char(key: Key, ch: char) -> bool {
    key.ctrl && is_char_ignoring_case(key.code, ch)
}

/// `ch` (either case) without Ctrl or Alt.
pub open spec fn plain_char(key: Key, ch: char) -> bool {
    !key.ctrl && !key.alt && is_char_ignoring_case(key.code, ch)
}

/// Shift with `ch` (either case), without Ctrl or Alt.
pub open spec fn shift_char(key: Key, ch: char) -> bool {
    key.shift && !key.ctrl && !key.alt && is_char_ignoring_case(key.code, ch)
}

/// The quit command: `q` alone or with Ctrl.
pub open spec fn quit_key(key: Key) -> bool {
    plain_char(key, 'q') || ctrl_char(key, 'q')
}

/// Whether the press is Ctrl with `ch` (either case).
pub fn is_ctrl_char(key: &Key, ch: char) -> (r: bool)
    ensures
        r == ctrl_char(*key, ch),
{
    key.ctrl && char_ignoring_case(key.code, ch)
}

/// Whether the press is `ch` (either case) without Ctrl or Alt.
pub fn is_plain_char(key: &Key, ch: char) -> (r: bool)
    ensures
        r == plain_char(*key, ch),
{
    !key.ctrl && !key.alt && char_ignoring_case(key.code, ch)
}

/// Whether the press is `ch` (either case) alone or with Ctrl.
pub fn is_plain_or_ctrl_char(key: &Key, ch: char) -> (r: bool)
    ensures
        r == (plain_char(*key, ch) || ctrl_char(*key, ch)),
{
    is_plain_char(key, ch) || is_ctrl_char(key, ch)
}

/// Whether the press is Shift with `ch` (either case), without Ctrl or Alt.
pub fn is_shift_char(key: &Key, ch: char) -> (r: bool)
    ensures
        r == shift_char(*key, ch),
{
    key.shift && !key.ctrl && !key.alt && char_ignoring_case(key.code, ch)
}

/// Whether the press is the quit command.
pub fn is_quit_key(key: &Key) -> (r: bool)
    ensures
        r == quit_key(*key),
{
    is_plain_char(key, 'q') || is_ctrl_char(key, 'q')
}

/// How a character is written by Rust's `Debug` (quoted and escaped).
pub uninterp spec fn char_debug(c: char) -> Seq<char>;

/// `<char as Debug>::fmt`: the character quoted and escaped as Rust writes
/// it. Only that the text depends on the character alone is stated.
#[verifier::external_body]
pub(crate) fn debug_char(c: char) -> (r: String)
    ensures
        r@ == char_debug(c),
{
    format!("{:?}", c)
}

/// How a string is written by Rust's `Debug` (quoted and escaped).
pub uninterp spec fn str_debug(s: Seq<char>) -> Seq<char>;

/// `<str as Debug>::fmt`: the text quoted and escaped as Rust writes it. Only
/// that the result depends on the text alone is stated.
#[verifier::external_body]
pub(crate) fn debug_str(s: &str) -> (r: String)
    ensures
        r@ == str_debug(s@),
{
    format!("{:?}", s)
}

/// How the debug log names a key.
pub open spec fn describe_key_spec(code: KeyCode) -> Seq<char> {
    match code {
        KeyCode::Backspace => "Backspace"@,
        KeyCode::Enter => "Enter"@,
        KeyCode::Left => "Left"@,
        KeyCode::Right => "Right"@,
        KeyCode::Up => "Up"@,
        KeyCode::Down => "Down"@,
        KeyCode::Tab => "Tab"@,
        KeyCode::Esc => "Esc"@,
        KeyCode::Char(c) => "Char("@ + char_debug(c) + ")"@,
        KeyCode::BackTab => "BackTab"@,
        KeyCode::Home => "Home"@,
        KeyCode::End => "End"@,
        KeyCode::PageUp => "PageUp"@,
        KeyCode::PageDown => "PageDown"@,
        KeyCode::Delete => "Delete"@,
        KeyCode::Insert => "Insert"@,
        KeyCode::F(n) => "F("@ + crate::strings::decimal(n as nat) + ")"@,
        KeyCode::Null => "Null"@,
        KeyCode::CapsLock => "CapsLock"@,
        KeyCode::ScrollLock => "ScrollLock"@,
        KeyCode::NumLock => "NumLock"@,
        KeyCode::PrintScreen => "PrintScreen"@,
        KeyCode::Pause => "Pause"@,
        KeyCode::Menu => "Menu"@,
        KeyCode::KeypadBegin => "KeypadBegin"@,
        KeyCode::Media(m) => "Media("@ + media_key_name(m) + ")"@,
        KeyCode::Modifier(m) => "Modifier("@ + modifier_key_name(m) + ")"@,
    }
}

/// How the debug log names a key.
pub fn describe_key_code(code: &KeyCode) -> (r: String)
    ensures
        r@ == describe_key_spec(*code),
{
    match code {
        KeyCode::Backspace => "Backspace".to_owned(),
        KeyCode::Enter => "Enter".to_owned(),
        KeyCode::Left => "Left".to_owned(),
        KeyCode::Right => "Right".to_owned(),
        KeyCode::Up => "Up".to_owned(),
        KeyCode::Down => "Down".to_owned(),
        KeyCode::Tab => "Tab".to_owned(),
        KeyCode::Esc => "Esc".to_owned(),
        KeyCode::Char(c) => {
            let mut s = "Char(".to_owned();
            append_str(&mut s, debug_char(*c).as_str());
            append_str(&mut s, ")");
            s
        },
        KeyCode::BackTab => "BackTab".to_owned(),
        KeyCode::Home => "Home".to_owned(),
        KeyCode::End => "End".to_owned(),
        KeyCode::PageUp => "PageUp".to_owned(),
        KeyCode::PageDown => "PageDown".to_owned(),
        KeyCode::Delete => "Delete".to_owned(),
        KeyCode::Insert => "Insert".to_owned(),
        KeyCode::F(n) => crate::strings::cat3("F(", crate::strings::usize_to_string(*n as usize).as_str(), ")"),
        KeyCode::Null => "Null".to_owned(),
        KeyCode::CapsLock => "CapsLock".to_owned(),
        KeyCode::ScrollLock => "ScrollLock".to_owned(),
        KeyCode::NumLock => "NumLock".to_owned(),
        KeyCode::PrintScreen => "PrintScreen".to_owned(),
        KeyCode::Pause => "Pause".to_owned(),
        KeyCode::Menu => "Menu".to_owned(),
        KeyCode::KeypadBegin => "KeypadBegin".to_owned(),
        KeyCode::Media(m) => crate::strings::cat3("Media(", media_key_str(*m), ")"),
        KeyCode::Modifier(m) => crate::strings::cat3("Modifier(", modifier_key_str(*m), ")"),
    }
}

} // verus!
