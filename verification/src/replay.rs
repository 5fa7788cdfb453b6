//! The event view's replay of a task's key events: the line it lists for
//! each event, how long each released key was held, and the characters that
//! the keyboard events typed.
use crate::keyboard::{
    character_line, character_line_text, event_line, event_line_text, event_time_nanos,
    is_keyboard_key, key_code_of, key_code_pattern, keyboard_step, named_instant,
    regex_first_match, symbol_key, typed_text, KeyboardState,
};
use crate::press_table::PressTable;
use crate::text::{has_substring, trimmed, CharClass};
use vstd::prelude::*;

verus! {

/// A stored key event as the view receives it.
pub struct RecordedKey {
    pub time: String,
    pub key_name: String,
    pub pressed: bool,
}

/// An entry of the view: a listed line, or a released key with the instant
/// of its release and how long it was held (the line for it shows the
/// release instant in the machine's local time).
pub enum ViewEntry {
    Line(String),
    Held { key_name: String, released_at: i64, held_nanos: i64 },
}

/// The meaning of a `ViewEntry`.
pub enum ViewEntryView {
    Line(Seq<char>),
    Held(Seq<char>, i64, i64),
}

impl View for ViewEntry {
    type V = ViewEntryView;

    open spec fn view(&self) -> ViewEntryView {
        match self {
            ViewEntry::Line(s) => ViewEntryView::Line(s@),
            ViewEntry::Held { key_name, released_at, held_nanos } => ViewEntryView::Held(
                key_name@,
                *released_at,
                *held_nanos,
            ),
        }
    }
}

/// The replay from event `i` on, with the keys held, the modifier state and
/// the entries so far; `None` where an instant or key code that the replay
/// needs is missing, or a hold time does not fit an `i64` (where the view
/// stops).
pub open spec fn replay_from(
    events: Seq<RecordedKey>,
    instants: Seq<Option<i64>>,
    codes: Seq<Option<String>>,
    i: int,
    held: Map<Seq<char>, i64>,
    keyboard: KeyboardState,
    entries: Seq<ViewEntryView>,
) -> Option<Seq<ViewEntryView>>
    decreases events.len() - i,
{
    if i < 0 || i >= events.len() {
        Some(entries)
    } else {
        let e = events[i];
        let name = e.key_name@;
        let listed = entries.push(ViewEntryView::Line(event_line_text(e.time@, name, e.pressed)));
        let paired: Option<(Map<Seq<char>, i64>, Seq<ViewEntryView>)> = if e.pressed {
            match instants[i] {
                Some(t) => Some((held.insert(name, t), listed)),
                None => None,
            }
        } else if held.contains_key(name) {
            match instants[i] {
                Some(t) => {
                    let d = t - held[name];
                    if i64::MIN <= d <= i64::MAX {
                        Some(
                            (
                                held.remove(name),
                                listed.push(ViewEntryView::Held(name, t, d as i64)),
                            ),
                        )
                    } else {
                        None
                    }
                },
                None => None,
            }
        } else {
            Some((held, listed))
        };
        match paired {
            None => None,
            Some((held2, entries2)) => if has_substring(name, "Keyboard"@) {
                match codes[i] {
                    Some(code) => {
                        let (keyboard2, typed) = keyboard_step(keyboard, code@, e.pressed);
                        let entries3 = match typed {
                            Some(t) => entries2.push(
                                ViewEntryView::Line(character_line_text(e.time@, t)),
                            ),
                            None => entries2,
                        };
                        replay_from(events, instants, codes, i + 1, held2, keyboard2, entries3)
                    },
                    None => None,
                }
            } else {
                replay_from(events, instants, codes, i + 1, held2, keyboard, entries2)
            },
        }
    }
}

/// The replay of all events from an empty view, no key held and no modifier.
pub open spec fn replayed(
    events: Seq<RecordedKey>,
    instants: Seq<Option<i64>>,
    codes: Seq<Option<String>>,
) -> Option<Seq<ViewEntryView>> {
    replay_from(
        events,
        instants,
        codes,
        0,
        Map::empty(),
        KeyboardState { left_shift: false, right_shift: false, caps_lock: false },
        Seq::empty(),
    )
}

/// The views of a list of entries.
pub open spec fn entries_view(entries: Seq<ViewEntry>) -> Seq<ViewEntryView> {
    entries.map_values(|e: ViewEntry| e@)
}

/// Replays the events, given the instant of each event and the key code of
/// each keyboard event; `None` where the view stops.
pub fn replay_with(
    events: &Vec<RecordedKey>,
    instants: &Vec<Option<i64>>,
    codes: &Vec<Option<String>>,
) -> (entries: Option<Vec<ViewEntry>>)
    requires
        instants.len() == events.len(),
        codes.len() == events.len(),
    ensures
        match entries {
            Some(v) => replayed(events@, instants@, codes@) == Some(entries_view(v@)),
            None => replayed(events@, instants@, codes@) is None,
        },
{
    let mut held = PressTable::new();
    let mut keyboard = KeyboardState::new();
    let mut out: Vec<ViewEntry> = Vec::new();
    assert(entries_view(out@) =~= Seq::<ViewEntryView>::empty());
    let mut i: usize = 0;
    while i < events.len()
        invariant
            i <= events.len(),
            instants.len() == events.len(),
            codes.len() == events.len(),
            replayed(events@, instants@, codes@) == replay_from(
                events@,
                instants@,
                codes@,
                i as int,
                held@,
                keyboard,
                entries_view(out@),
            ),
        decreases events.len() - i,
    {
        let e = &events[i];
        let ghost held0 = held@;
        let ghost kb0 = keyboard;
        let ghost out0 = entries_view(out@);
        out.push(ViewEntry::Line(event_line(e.time.as_str(), e.key_name.as_str(), e.pressed)));
        assert(entries_view(out@) =~= out0.push(
            ViewEntryView::Line(event_line_text(e.time@, e.key_name@, e.pressed)),
        ));
        if e.pressed {
            match instants[i] {
                Some(t) => {
                    held.press(e.key_name.as_str(), t);
                },
                None => {
                    return None;
                },
            }
        } else if held.is_held(e.key_name.as_str()) {
            match instants[i] {
                Some(t) => {
                    let start = held.release(e.key_name.as_str()).unwrap();
                    match t.checked_sub(start) {
                        Some(d) => {
                            let ghost before = entries_view(out@);
                            out.push(
                                ViewEntry::Held {
                                    key_name: e.key_name.clone(),
                                    released_at: t,
                                    held_nanos: d,
                                },
                            );
                            assert(entries_view(out@) =~= before.push(
                                ViewEntryView::Held(e.key_name@, t, d),
                            ));
                        },
                        None => {
                            return None;
                        },
                    }
                },
                None => {
                    return None;
                },
            }
        }
        if is_keyboard_key(e.key_name.as_str()) {
            match &codes[i] {
                Some(code) => {
                    let ghost before = entries_view(out@);
                    let typed = keyboard.step(code.as_str(), e.pressed);
                    match typed {
                        Some(t) => {
                            out.push(ViewEntry::Line(character_line(e.time.as_str(), t.as_str())));
                            assert(entries_view(out@) =~= before.push(
                                ViewEntryView::Line(character_line_text(e.time@, t@)),
                            ));
                        },
                        None => {},
                    }
                },
                None => {
                    return None;
                },
            }
        }
        i += 1;
    }
    Some(out)
}

/// The key code that `key_code_of` reads from a key name.
pub open spec fn code_read(key_name: Seq<char>, code: Option<String>) -> bool {
    match regex_first_match(key_code_pattern(), key_name) {
        Some(Some(m)) => code is Some && code->0@ == trimmed(m, CharClass::Exactly('\'')),
        _ => code is None,
    }
}

/// The key codes of the events: that of each keyboard key, `None` for the
/// others.
pub open spec fn codes_of_events(events: Seq<RecordedKey>, codes: Seq<Option<String>>) -> bool {
    &&& codes.len() == events.len()
    &&& forall|i: int|
        0 <= i < events.len() ==> if has_substring(#[trigger] events[i].key_name@, "Keyboard"@) {
            code_read(events[i].key_name@, codes[i])
        } else {
            codes[i] is None
        }
}

/// The instants of the events as read on this machine: each that could be
/// read is the instant its time names.
pub open spec fn instants_of_events(events: Seq<RecordedKey>, instants: Seq<Option<i64>>) -> bool {
    &&& instants.len() == events.len()
    &&& forall|i: int|
        0 <= i < events.len() ==> (#[trigger] instants[i] matches Some(n) ==> n == named_instant(
            events[i].time@,
        ))
}

/// The key code of each keyboard event (`None` for the others).
fn key_codes(events: &Vec<RecordedKey>) -> (codes: Vec<Option<String>>)
    ensures
        codes_of_events(events@, codes@),
{
    let mut codes: Vec<Option<String>> = Vec::new();
    let mut i: usize = 0;
    while i < events.len()
        invariant
            i <= events.len(),
            codes.len() == i,
            forall|j: int|
                0 <= j < i ==> if has_substring(#[trigger] events@[j].key_name@, "Keyboard"@) {
                    code_read(events@[j].key_name@, codes@[j])
                } else {
                    codes@[j] is None
                },
        decreases events.len() - i,
    {
        if is_keyboard_key(events[i].key_name.as_str()) {
            codes.push(key_code_of(events[i].key_name.as_str()));
        } else {
            codes.push(None);
        }
        i += 1;
    }
    codes
}

/// The instant of each event, read on this machine.
fn event_instants(events: &Vec<RecordedKey>) -> (instants: Vec<Option<i64>>)
    ensures
        instants_of_events(events@, instants@),
{
    let mut instants: Vec<Option<i64>> = Vec::new();
    let mut i: usize = 0;
    while i < events.len()
        invariant
            i <= events.len(),
            instants.len() == i,
            forall|j: int|
                0 <= j < i ==> (#[trigger] instants@[j] matches Some(n) ==> n == named_instant(
                    events@[j].time@,
                )),
        decreases events.len() - i,
    {
        instants.push(event_time_nanos(events[i].time.as_str()));
        i += 1;
    }
    instants
}

/// Replays a task's key events as the event view lists them: event times
/// read on this machine, key codes taken from the key names.  `None` where
/// the view stops.
pub fn replay_key_events(events: &Vec<RecordedKey>) -> (entries: Option<Vec<ViewEntry>>)
    ensures
        exists|instants: Seq<Option<i64>>, codes: Seq<Option<String>>|
            instants_of_events(events@, instants) && codes_of_events(events@, codes) && match entries {
                Some(v) => replayed(events@, instants, codes) == Some(entries_view(v@)),
                None => replayed(events@, instants, codes) is None,
            },
{
    let instants = event_instants(events);
    let codes = key_codes(events);
    replay_with(events, &instants, &codes)
}

/// A one-character key code is no Shift, Caps Lock, Enter, Tab or symbol key.
proof fn lemma_one_character_code(code: Seq<char>)
    requires
        code.len() == 1,
    ensures
        symbol_key(code) is None,
        code != "LShift"@,
        code != "RShift"@,
        code != "CapsLock"@,
        code != "Enter"@,
        code != "Tab"@,
{
    reveal_strlit("LShift");
    reveal_strlit("RShift");
    reveal_strlit("CapsLock");
    reveal_strlit("Enter");
    reveal_strlit("Tab");
    reveal_strlit("Grave");
    reveal_strlit("Key1");
    reveal_strlit("Key2");
    reveal_strlit("Key3");
    reveal_strlit("Key4");
    reveal_strlit("Key5");
    reveal_strlit("Key6");
    reveal_strlit("Key7");
    reveal_strlit("Key8");
    reveal_strlit("Key9");
    reveal_strlit("Key0");
    reveal_strlit("Minus");
    reveal_strlit("Equal");
    reveal_strlit("LeftBracket");
    reveal_strlit("RightBracket");
    reveal_strlit("BackSlash");
    reveal_strlit("Semicolon");
    reveal_strlit("Apostrophe");
    reveal_strlit("Comma");
    reveal_strlit("Dot");
    reveal_strlit("Slash");
}

/// Key presses reach the keyboard state: with a Shift key pressed (and still
/// held), releasing a letter key types that letter in upper case, the line
/// `[time] Input Character 'L'` after the two event lines.
pub proof fn lemma_shift_press_types_capital(
    events: Seq<RecordedKey>,
    instants: Seq<Option<i64>>,
    codes: Seq<Option<String>>,
)
    requires
        events.len() == 2,
        instants.len() == 2,
        codes.len() == 2,
        events[0].pressed,
        !events[1].pressed,
        has_substring(events[0].key_name@, "Keyboard"@),
        has_substring(events[1].key_name@, "Keyboard"@),
        events[0].key_name@ != events[1].key_name@,
        instants[0] is Some,
        codes[0] is Some && (codes[0]->0@ == "LShift"@ || codes[0]->0@ == "RShift"@),
        codes[1] is Some && codes[1]->0@.len() == 1 && 'A' <= codes[1]->0@[0] <= 'Z',
    ensures
        replayed(events, instants, codes) matches Some(v) && v.len() == 3 && v[2]
            == ViewEntryView::Line("["@ + events[1].time@ + "] Input Character '"@ + codes[1]->0@ + "'"@),
{
    let letter = codes[1]->0@;
    lemma_one_character_code(letter);
    assert(seq![letter[0]] =~= letter);
    reveal_with_fuel(replay_from, 3);
}

/// Releasing Shift ends its effect: with a Shift key pressed and released
/// again, releasing a letter key types that letter in lower case, the line
/// `[time] Input Character 'l'` after the event lines and the Shift key's
/// hold time.
pub proof fn lemma_shift_release_types_small(
    events: Seq<RecordedKey>,
    instants: Seq<Option<i64>>,
    codes: Seq<Option<String>>,
)
    requires
        events.len() == 3,
        instants.len() == 3,
        codes.len() == 3,
        events[0].pressed,
        !events[1].pressed,
        !events[2].pressed,
        events[1].key_name@ == events[0].key_name@,
        has_substring(events[0].key_name@, "Keyboard"@),
        has_substring(events[2].key_name@, "Keyboard"@),
        events[0].key_name@ != events[2].key_name@,
        instants[0] matches Some(t0) && instants[1] matches Some(t1) && 0 <= t0 <= t1,
        codes[0] is Some && (codes[0]->0@ == "LShift"@ || codes[0]->0@ == "RShift"@),
        codes[1] == codes[0],
        codes[2] is Some && codes[2]->0@.len() == 1 && 'A' <= codes[2]->0@[0] <= 'Z',
    ensures
        replayed(events, instants, codes) matches Some(v) && v.len() == 5 && v[4]
            == ViewEntryView::Line(
            "["@ + events[2].time@ + "] Input Character '"@ + seq![
                ((codes[2]->0@[0] as u32) + 32) as char,
            ] + "'"@,
        ),
{
    let letter = codes[2]->0@;
    lemma_one_character_code(letter);
    reveal_with_fuel(replay_from, 4);
}

/// A released key's hold time is the time from its press to its release:
/// pressing and then releasing a key (not a keyboard key) lists both events
/// and then the key with the release instant and the difference of the two
/// instants.
pub proof fn lemma_hold_time_is_release_minus_press(
    events: Seq<RecordedKey>,
    instants: Seq<Option<i64>>,
    codes: Seq<Option<String>>,
)
    requires
        events.len() == 2,
        instants.len() == 2,
        codes.len() == 2,
        events[0].pressed,
        !events[1].pressed,
        events[1].key_name@ == events[0].key_name@,
        !has_substring(events[0].key_name@, "Keyboard"@),
        instants[0] matches Some(t0) && instants[1] matches Some(t1) && 0 <= t0 <= t1,
    ensures
        replayed(events, instants, codes) matches Some(v) && v.len() == 3 && v[2]
            == ViewEntryView::Held(
            events[0].key_name@,
            instants[1]->0,
            (instants[1]->0 - instants[0]->0) as i64,
        ),
{
    reveal_with_fuel(replay_from, 3);
}

} // verus!
