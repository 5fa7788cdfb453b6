//! What the event view makes of recorded key events: the lines it lists,
//! the characters that the key presses typed, and how long keys were held.
use crate::text::{
    chars_of, contains_text, has_substring, push_char, same_text, signed_decimal,
    signed_decimal_text, trim_chars, trimmed, CharClass,
};
use vstd::prelude::*;
use vstd::string::*;

verus! {

/// A key whose character depends on Shift: its plain and shifted characters.
pub open spec fn symbol_key(code: Seq<char>) -> Option<(char, char)> {
    if code == "Grave"@ {
        Some(('`', '~'))
    } else if code == "Key1"@ {
        Some(('1', '!'))
    } else if code == "Key2"@ {
        Some(('2', '@'))
    } else if code == "Key3"@ {
        Some(('3', '#'))
    } else if code == "Key4"@ {
        Some(('4', '$'))
    } else if code == "Key5"@ {
        Some(('5', '%'))
    } else if code == "Key6"@ {
        Some(('6', '^'))
    } else if code == "Key7"@ {
        Some(('7', '&'))
    } else if code == "Key8"@ {
        Some(('8', '*'))
    } else if code == "Key9"@ {
        Some(('9', '('))
    } else if code == "Key0"@ {
        Some(('0', ')'))
    } else if code == "Minus"@ {
        Some(('-', '_'))
    } else if code == "Equal"@ {
        Some(('=', '+'))
    } else if code == "LeftBracket"@ {
        Some(('[', '{'))
    } else if code == "RightBracket"@ {
        Some((']', '}'))
    } else if code == "BackSlash"@ {
        Some(('\\', '|'))
    } else if code == "Semicolon"@ {
        Some((';', ':'))
    } else if code == "Apostrophe"@ {
        Some(('\'', '"'))
    } else if code == "Comma"@ {
        Some((',', '<'))
    } else if code == "Dot"@ {
        Some(('.', '>'))
    } else if code == "Slash"@ {
        Some(('/', '?'))
    } else {
        None
    }
}

fn symbol_key_of(code: &str) -> (r: Option<(char, char)>)
    ensures
        r == symbol_key(code@),
{
    if same_text(code, "Grave") {
        Some(('`', '~'))
    } else if same_text(code, "Key1") {
        Some(('1', '!'))
    } else if same_text(code, "Key2") {
        Some(('2', '@'))
    } else if same_text(code, "Key3") {
        Some(('3', '#'))
    } else if same_text(code, "Key4") {
        Some(('4', '$'))
    } else if same_text(code, "Key5") {
        Some(('5', '%'))
    } else if same_text(code, "Key6") {
        Some(('6', '^'))
    } else if same_text(code, "Key7") {
        Some(('7', '&'))
    } else if same_text(code, "Key8") {
        Some(('8', '*'))
    } else if same_text(code, "Key9") {
        Some(('9', '('))
    } else if same_text(code, "Key0") {
        Some(('0', ')'))
    } else if same_text(code, "Minus") {
        Some(('-', '_'))
    } else if same_text(code, "Equal") {
        Some(('=', '+'))
    } else if same_text(code, "LeftBracket") {
        Some(('[', '{'))
    } else if same_text(code, "RightBracket") {
        Some((']', '}'))
    } else if same_text(code, "BackSlash") {
        Some(('\\', '|'))
    } else if same_text(code, "Semicolon") {
        Some((';', ':'))
    } else if same_text(code, "Apostrophe") {
        Some(('\'', '"'))
    } else if same_text(code, "Comma") {
        Some((',', '<'))
    } else if same_text(code, "Dot") {
        Some(('.', '>'))
    } else if same_text(code, "Slash") {
        Some(('/', '?'))
    } else {
        None
    }
}

/// A letter key: one upper-case ASCII letter.
pub open spec fn letter_key(code: Seq<char>) -> bool {
    code.len() == 1 && 'A' <= code[0] <= 'Z'
}

/// The text a key release types.  Symbol keys give their shifted character
/// under Shift; letter keys give the upper-case letter when upper case is in
/// effect; Enter and Tab give the escapes `\n` and `\t`; any other key gives
/// `Unknown`.
pub open spec fn typed_text(code: Seq<char>, shift: bool, upper: bool) -> Seq<char> {
    match symbol_key(code) {
        Some((plain, shifted)) => seq![if shift { shifted } else { plain }],
        None => if letter_key(code) {
            seq![if upper { code[0] } else { ((code[0] as u32) + 32) as char }]
        } else if code == "Enter"@ {
            seq!['\\', 'n']
        } else if code == "Tab"@ {
            seq!['\\', 't']
        } else {
            "Unknown"@
        },
    }
}

/// The text a key release types, given whether Shift is held and whether
/// upper case is in effect.
pub fn typed_character(code: &str, shift: bool, upper: bool) -> (text: String)
    ensures
        text@ == typed_text(code@, shift, upper),
{
    match symbol_key_of(code) {
        Some((plain, shifted)) => {
            let mut s = String::new();
            push_char(&mut s, if shift { shifted } else { plain });
            assert(s@ =~= typed_text(code@, shift, upper));
            return s;
        },
        None => {},
    }
    let cs = chars_of(code);
    if cs.len() == 1 && 'A' <= cs[0] && cs[0] <= 'Z' {
        let c = cs[0];
        let mut s = String::new();
        if upper {
            push_char(&mut s, c);
        } else {
            let lower = ((c as u8) + 32) as char;
            assert(lower == ((c as u32) + 32) as char);
            push_char(&mut s, lower);
        }
        assert(s@ =~= typed_text(code@, shift, upper));
        return s;
    }
    if same_text(code, "Enter") {
        let mut s = String::new();
        push_char(&mut s, '\\');
        push_char(&mut s, 'n');
        assert(s@ =~= typed_text(code@, shift, upper));
        s
    } else if same_text(code, "Tab") {
        let mut s = String::new();
        push_char(&mut s, '\\');
        push_char(&mut s, 't');
        assert(s@ =~= typed_text(code@, shift, upper));
        s
    } else {
        String::from_str("Unknown")
    }
}


/// The modifier state that the event view tracks while it replays events.
#[derive(Debug, Clone, Copy, PartialEq, Eq, Structural)]
pub struct KeyboardState {
    pub left_shift: bool,
    pub right_shift: bool,
    pub caps_lock: bool,
}

/// Replays one keyboard event: Shift presses and releases set and clear the
/// Shift flags, a Caps Lock release toggles Caps Lock, and the release of any
/// other key types its text.  Upper case is in effect when exactly one of Caps
/// Lock and Shift is.
pub open spec fn keyboard_step(state: KeyboardState, code: Seq<char>, pressed: bool) -> (KeyboardState, Option<Seq<char>>) {
    if pressed {
        if code == "LShift"@ {
            (KeyboardState { left_shift: true, ..state }, None)
        } else if code == "RShift"@ {
            (KeyboardState { right_shift: true, ..state }, None)
        } else {
            (state, None)
        }
    } else if code == "LShift"@ {
        (KeyboardState { left_shift: false, ..state }, None)
    } else if code == "RShift"@ {
        (KeyboardState { right_shift: false, ..state }, None)
    } else if code == "CapsLock"@ {
        (KeyboardState { caps_lock: !state.caps_lock, ..state }, None)
    } else {
        let shift = state.left_shift || state.right_shift;
        let upper = (!state.caps_lock && shift) || (state.caps_lock && !state.left_shift
            && !state.right_shift);
        (state, Some(typed_text(code, shift, upper)))
    }
}

impl KeyboardState {
    /// No modifier held, Caps Lock off.
    pub fn new() -> (s: Self)
        ensures
            s == (KeyboardState { left_shift: false, right_shift: false, caps_lock: false }),
    {
        KeyboardState { left_shift: false, right_shift: false, caps_lock: false }
    }

    /// Replays one keyboard event and returns the text it typed, if any.
    pub fn step(&mut self, code: &str, pressed: bool) -> (typed: Option<String>)
        ensures
            (*final(self), match typed {
                Some(t) => Some(t@),
                None => None,
            }) == keyboard_step(*old(self), code@, pressed),
    {
        if pressed {
            if same_text(code, "LShift") {
                self.left_shift = true;
            } else if same_text(code, "RShift") {
                self.right_shift = true;
            }
            None
        } else if same_text(code, "LShift") {
            self.left_shift = false;
            None
        } else if same_text(code, "RShift") {
            self.right_shift = false;
            None
        } else if same_text(code, "CapsLock") {
            self.caps_lock = !self.caps_lock;
            None
        } else {
            let shift = self.left_shift || self.right_shift;
            let upper = (!self.caps_lock && shift) || (self.caps_lock && !self.left_shift
                && !self.right_shift);
            Some(typed_character(code, shift, upper))
        }
    }
}

/// Whether a stored status means a press.
pub open spec fn is_press(status: u8) -> bool {
    status == 1
}

/// Whether a stored status means a press (status 1).
pub fn status_is_press(status: u8) -> (pressed: bool)
    ensures
        pressed == is_press(status),
{
    status == 1
}

/// Whether a key name belongs to a keyboard key rather than a mouse button.
pub fn is_keyboard_key(key_name: &str) -> (keyboard: bool)
    ensures
        keyboard == has_substring(key_name@, "Keyboard"@),
{
    contains_text(key_name, "Keyboard")
}

/// How the event view lists an event: `[time] name Pressed|Released`.
pub open spec fn event_line_text(time: Seq<char>, key_name: Seq<char>, pressed: bool) -> Seq<char> {
    "["@ + time + "] "@ + key_name + " "@ + if pressed {
        "Pressed"@
    } else {
        "Released"@
    }
}

/// How the event view lists an event.
pub fn event_line(time: &str, key_name: &str, pressed: bool) -> (line: String)
    ensures
        line@ == event_line_text(time@, key_name@, pressed),
{
    let mut s = String::from_str("[");
    s.append(time);
    s.append("] ");
    s.append(key_name);
    s.append(" ");
    if pressed {
        s.append("Pressed");
    } else {
        s.append("Released");
    }
    s
}

/// Whole seconds of a nanosecond count, rounded toward zero.
pub open spec fn whole_seconds(nanos: int) -> int {
    if nanos >= 0 {
        nanos / 1_000_000_000
    } else {
        -((-nanos) / 1_000_000_000)
    }
}

/// What is left of a nanosecond count after its whole seconds (same sign as
/// the count).
pub open spec fn leftover_nanos(nanos: int) -> int {
    nanos - whole_seconds(nanos) * 1_000_000_000
}

/// How the event view reports a held key: `[end] name pressed S.N s.` with
/// `S` the whole seconds and `N` the leftover nanoseconds, unpadded.
pub open spec fn held_line_text(end_time: Seq<char>, key_name: Seq<char>, held_nanos: int) -> Seq<char> {
    "["@ + end_time + "] "@ + key_name + " pressed "@ + signed_decimal(whole_seconds(held_nanos))
        + "."@ + signed_decimal(leftover_nanos(held_nanos)) + " s."@
}

/// How the event view reports a held key.
pub fn held_line(end_time: &str, key_name: &str, held_nanos: i64) -> (line: String)
    ensures
        line@ == held_line_text(end_time@, key_name@, held_nanos as int),
{
    let magnitude: u64 = if held_nanos == i64::MIN {
        0x8000_0000_0000_0000u64
    } else if held_nanos < 0 {
        (-held_nanos) as u64
    } else {
        held_nanos as u64
    };
    let secs = magnitude / 1_000_000_000;
    let rest = magnitude % 1_000_000_000;
    let (s_val, r_val): (i64, i64) = if held_nanos < 0 {
        (0 - secs as i64, 0 - rest as i64)
    } else {
        (secs as i64, rest as i64)
    };
    assert(s_val == whole_seconds(held_nanos as int));
    assert(r_val == leftover_nanos(held_nanos as int));
    let mut s = String::from_str("[");
    s.append(end_time);
    s.append("] ");
    s.append(key_name);
    s.append(" pressed ");
    let a = signed_decimal_text(s_val);
    s.append(a.as_str());
    s.append(".");
    let b = signed_decimal_text(r_val);
    s.append(b.as_str());
    s.append(" s.");
    s
}

/// How the event view reports a typed character: `[time] Input Character 'c'`.
pub open spec fn character_line_text(time: Seq<char>, typed: Seq<char>) -> Seq<char> {
    "["@ + time + "] Input Character '"@ + typed + "'"@
}

/// How the event view reports a typed character.
pub fn character_line(time: &str, typed: &str) -> (line: String)
    ensures
        line@ == character_line_text(time@, typed@),
{
    let mut s = String::from_str("[");
    s.append(time);
    s.append("] Input Character '");
    s.append(typed);
    s.append("'");
    s
}

/// The first match of a regular expression in a text, as the `regex` crate
/// finds it: `None` when the pattern does not compile, `Some(None)` when it
/// does not match.
pub uninterp spec fn regex_first_match(pattern: Seq<char>, text: Seq<char>) -> Option<Option<Seq<char>>>;

/// `regex::Regex::new` followed by `Regex::captures`, taking the whole match.
/// Trusted to return the crate's leftmost-first match of exactly this pattern
/// in exactly this text, named `regex_first_match`.
#[verifier::external_body]
fn first_match(pattern: &str, text: &str) -> (found: Option<Option<String>>)
    ensures
        match found {
            None => regex_first_match(pattern@, text@) is None,
            Some(None) => regex_first_match(pattern@, text@) == Some(None::<Seq<char>>),
            Some(Some(m)) => regex_first_match(pattern@, text@) == Some(Some(m@)),
        },
{
    match regex::Regex::new(pattern) {
        Ok(re) => Some(re.captures(text).map(|c| c[0].to_string())),
        Err(_) => None,
    }
}

/// The key code inside a quoted match such as `'LShift'`: the match with its
/// quotes trimmed.
pub fn key_code_from_match(quoted: &str) -> (code: String)
    ensures
        code@ == trimmed(quoted@, CharClass::Exactly('\'')),
{
    let cs = chars_of(quoted);
    let t = trim_chars(&cs, CharClass::Exactly('\''));
    crate::text::string_of_chars(&t)
}

/// The pattern of a quoted key code: a quote, non-space characters, a quote.
pub open spec fn key_code_pattern() -> Seq<char> {
    "'\\S+'"@
}

/// The key code of a keyboard key name such as `Keyboard 'LShift' Key`: the
/// first match of `'\S+'`, quotes trimmed.  `None` where nothing matches.
pub fn key_code_of(key_name: &str) -> (code: Option<String>)
    ensures
        match regex_first_match(key_code_pattern(), key_name@) {
            Some(Some(m)) => code is Some && code->0@ == trimmed(m, CharClass::Exactly('\'')),
            _ => code is None,
        },
{
    match first_match("'\\S+'", key_name) {
        Some(Some(m)) => Some(key_code_from_match(m.as_str())),
        _ => None,
    }
}

/// The instant, in nanoseconds since the Unix epoch, that a recorded event
/// time names: the date and time it spells, less the UTC offset it spells.
pub uninterp spec fn named_instant(text: Seq<char>) -> i64;

/// `chrono`'s `Local.datetime_from_str` and `timestamp_nanos_opt`, with the
/// event time format, whose `%z` field spells a UTC offset.  Whether the text
/// is accepted depends on the machine's time zone: `chrono` reads the date,
/// time and offset the text spells and accepts it only where the local zone
/// has that offset at that local time, so nothing is stated of when a value
/// comes back.  Trusted, from `Parsed::to_datetime_with_timezone`, that a
/// value that does come back is the instant the text names (the spelled
/// local time less the spelled offset), the same on every machine.
#[verifier::external_body]
fn local_time_nanos(text: &str, format: &str) -> (nanos: Option<i64>)
    requires
        format@ == event_time_format(),
    ensures
        nanos matches Some(n) ==> n == named_instant(text@),
{
    #[allow(deprecated)]
    let parsed = chrono::TimeZone::datetime_from_str(&chrono::Local, text, format);
    parsed.ok().and_then(|t| t.timestamp_nanos_opt())
}

/// The format of a recorded event time.
pub open spec fn event_time_format() -> Seq<char> {
    "%Y-%m-%d %H:%M:%S%.f %z"@
}

/// The instant of a recorded event time such as
/// `2022-04-25 10:54:41.610301870 +08:00`, in nanoseconds since the Unix
/// epoch; `None` where the time cannot be read on this machine.
pub fn event_time_nanos(text: &str) -> (nanos: Option<i64>)
    ensures
        nanos matches Some(n) ==> n == named_instant(text@),
{
    local_time_nanos(text, "%Y-%m-%d %H:%M:%S%.f %z")
}

} // verus!
