//! Typing text: the key events that enter it, in the order in which they are sent.
use vstd::prelude::*;

verus! {

/// The flag of a key that goes up.
pub const KEYEVENTF_KEYUP: u32 = 0x0002;

/// The flag of an event whose scan code is a UTF-16 word.
pub const KEYEVENTF_UNICODE: u32 = 0x0004;

/// A virtual-key code.
pub type WinKeyCode = i32;

/// An event for the system's input queue.
#[derive(Copy, Clone, Debug, PartialEq, Eq, Structural)]
pub enum KeyEvent {
    /// A keyboard input record.
    Input { virtual_key: u16, scan: u16, flags: u32, time: u32, extra_info: usize },
    /// A key known by its code.
    Key { code: u8, hardware_scan: u8, flags: u32, extra_info: usize },
}

/// The UTF-16 words of a character.
pub open spec fn utf16(c: char) -> Seq<u16> {
    if (c as int) < 0x10000 {
        seq![c as u16]
    } else {
        seq![
            (0xd800 + (c as int - 0x10000) / 0x400) as u16,
            (0xdc00 + (c as int - 0x10000) % 0x400) as u16,
        ]
    }
}

/// The UTF-16 words of a text.
pub open spec fn utf16_text(text: Seq<char>) -> Seq<u16>
    decreases text.len(),
{
    if text.len() == 0 {
        Seq::empty()
    } else {
        utf16_text(text.drop_last()) + utf16(text.last())
    }
}

/// The event that holds down, or lets go, the key of one UTF-16 word.
pub open spec fn word_event(word: u16, down: bool) -> KeyEvent {
    KeyEvent::Input {
        virtual_key: 0,
        scan: word,
        flags: if down {
            KEYEVENTF_UNICODE
        } else {
            (KEYEVENTF_UNICODE + KEYEVENTF_KEYUP) as u32
        },
        time: 0,
        extra_info: 0,
    }
}

/// The event that holds down, or lets go, the key with a code.
pub open spec fn code_event(code: WinKeyCode, down: bool) -> KeyEvent {
    KeyEvent::Key {
        code: code as u8,
        hardware_scan: 0,
        flags: if down { 0 } else { KEYEVENTF_KEYUP },
        extra_info: 0,
    }
}

/// The events that hold down, or let go, the key of a character.
pub open spec fn char_events(c: char, down: bool) -> Seq<KeyEvent> {
    utf16(c).map_values(|word: u16| word_event(word, down))
}

/// The events that type a text: each character's key goes down and up again.
pub open spec fn typed(text: Seq<char>) -> Seq<KeyEvent>
    decreases text.len(),
{
    if text.len() == 0 {
        Seq::empty()
    } else {
        typed(text.drop_last()) + char_events(text.last(), true) + char_events(text.last(), false)
    }
}

/// A key that can be held down and let go.
pub trait KeyCodeConvertible {
    /// The character that the key enters, where it enters one.
    spec fn key_character(&self) -> Option<char>;

    /// The code of the key, where it has one.
    spec fn key_code(&self) -> Option<WinKeyCode>;

    /// The code of a key that has one.
    fn code(&self) -> (code: WinKeyCode)
        requires
            self.key_code() is Some,
        ensures
            Some(code) == self.key_code(),
    ;

    /// The character that the key enters, where it enters one.
    fn character(&self) -> (character: Option<char>)
        ensures
            character == self.key_character(),
    ;
}

/// The events that hold down, or let go, a key: by its character where it enters one,
/// else by its code.
pub open spec fn toggled<T: KeyCodeConvertible>(key: T, down: bool) -> Seq<KeyEvent> {
    match key.key_character() {
        Some(c) => char_events(c, down),
        None => seq![code_event(key.key_code()->0, down)],
    }
}

/// The key of a character. It has no code of its own.
#[derive(Copy, Clone, Debug)]
pub struct Character(pub char);

impl KeyCodeConvertible for Character {
    open spec fn key_character(&self) -> Option<char> {
        Some(self.0)
    }

    open spec fn key_code(&self) -> Option<WinKeyCode> {
        None
    }

    fn code(&self) -> (code: WinKeyCode) {
        vstd::pervasive::unreached()
    }

    fn character(&self) -> (character: Option<char>) {
        Some(self.0)
    }
}

fn encode_utf16(c: char) -> (words: Vec<u16>)
    ensures
        words@ == utf16(c),
{
    let code = c as u32;
    if code < 0x10000 {
        vec![code as u16]
    } else {
        let high = 0xd800 + (code - 0x10000) / 0x400;
        let low = 0xdc00 + (code - 0x10000) % 0x400;
        vec![high as u16, low as u16]
    }
}

/// The event that holds down, or lets go, the key with a code.
pub fn win_send_key_event(keycode: WinKeyCode, down: bool) -> (event: KeyEvent)
    ensures
        event == code_event(keycode, down),
{
    let flags = if down { 0 } else { KEYEVENTF_KEYUP };
    KeyEvent::Key { code: keycode as u8, hardware_scan: 0, flags, extra_info: 0 }
}

/// The events that hold down, or let go, a key.
pub fn system_toggle<T: KeyCodeConvertible>(key: &T, down: bool) -> (events: Vec<KeyEvent>)
    requires
        key.key_character() is Some || key.key_code() is Some,
    ensures
        events@ == toggled(*key, down),
{
    let mut events: Vec<KeyEvent> = Vec::new();
    if let Some(character) = key.character() {
        let flags = if down { 0 } else { KEYEVENTF_KEYUP };
        assert(KEYEVENTF_UNICODE | 0 == KEYEVENTF_UNICODE && KEYEVENTF_UNICODE | KEYEVENTF_KEYUP
            == KEYEVENTF_UNICODE + KEYEVENTF_KEYUP) by (bit_vector);
        let words = encode_utf16(character);
        let mut i: usize = 0;
        while i < words.len()
            invariant
                i <= words@.len(),
                words@ == utf16(character),
                KEYEVENTF_UNICODE | flags == (if down {
                    KEYEVENTF_UNICODE as int
                } else {
                    KEYEVENTF_UNICODE + KEYEVENTF_KEYUP
                }),
                events@ == char_events(character, down).take(i as int),
            decreases words@.len() - i,
        {
            events.push(
                KeyEvent::Input {
                    virtual_key: 0,
                    scan: words[i],
                    flags: KEYEVENTF_UNICODE | flags,
                    time: 0,
                    extra_info: 0,
                },
            );
            i += 1;
            assert(char_events(character, down).take(i as int) =~= char_events(
                character,
                down,
            ).take(i - 1).push(word_event(words@[i - 1], down)));
        }
    } else {
        events.push(win_send_key_event(key.code(), down));
    }
    assert(events@ =~= toggled(*key, down));
    events
}

/// The events that hold down a key, if `down` is `true`, or let it go, if not.
pub fn toggle<T: KeyCodeConvertible>(key: &T, down: bool) -> (events: Vec<KeyEvent>)
    requires
        key.key_character() is Some || key.key_code() is Some,
    ensures
        events@ == toggled(*key, down),
{
    system_toggle(key, down)
}

/// The events that hold down a key and let it go.
pub fn tap<T: KeyCodeConvertible + Copy>(key: &T) -> (events: Vec<KeyEvent>)
    requires
        key.key_character() is Some || key.key_code() is Some,
    ensures
        events@ == toggled(*key, true) + toggled(*key, false),
{
    let mut events = toggle(key, true);
    let mut up = toggle(key, false);
    events.append(&mut up);
    events
}

/// The events that type a text.
pub fn type_string(string: &str) -> (events: Vec<KeyEvent>)
    ensures
        events@ == typed(string@),
{
    let mut events: Vec<KeyEvent> = Vec::new();
    for c in it: string.chars()
        invariant
            it.seq() == string@,
            events@ == typed(string@.take(it.index())),
    {
        let mut taps = tap(&Character(c));
        events.append(&mut taps);
        let ghost i = it.index();
        assert(string@.take(i + 1).drop_last() =~= string@.take(i));
        assert(string@.take(i + 1).last() == c);
        assert(events@ =~= typed(string@.take(i + 1)));
    }
    assert(string@.take(string@.len() as int) =~= string@);
    events
}

/// The characters that UTF-16 words stand for.
pub open spec fn decode_utf16(words: Seq<u16>) -> Seq<char>
    decreases words.len(),
{
    if words.len() == 0 {
        Seq::empty()
    } else if 0xd800 <= words[0] < 0xdc00 && words.len() >= 2 {
        seq![(0x10000 + (words[0] - 0xd800) * 0x400 + (words[1] - 0xdc00)) as char] + decode_utf16(
            words.skip(2),
        )
    } else {
        seq![words[0] as char] + decode_utf16(words.skip(1))
    }
}

/// The words of those events, in order, whose keys go down, or up.
pub open spec fn words_of(events: Seq<KeyEvent>, down: bool) -> Seq<u16>
    decreases events.len(),
{
    if events.len() == 0 {
        Seq::empty()
    } else {
        let before = words_of(events.drop_last(), down);
        match events.last() {
            KeyEvent::Input { scan, flags, .. } => if flags == (if down {
                KEYEVENTF_UNICODE as int
            } else {
                KEYEVENTF_UNICODE + KEYEVENTF_KEYUP
            }) {
                before.push(scan)
            } else {
                before
            },
            KeyEvent::Key { .. } => before,
        }
    }
}

proof fn lemma_words_of_concat(a: Seq<KeyEvent>, b: Seq<KeyEvent>, down: bool)
    ensures
        words_of(a + b, down) == words_of(a, down) + words_of(b, down),
    decreases b.len(),
{
    if b.len() == 0 {
        assert(a + b =~= a);
        assert(words_of(a, down) + words_of(b, down) =~= words_of(a, down));
    } else {
        assert((a + b).drop_last() =~= a + b.drop_last());
        lemma_words_of_concat(a, b.drop_last(), down);
        assert(words_of(a + b, down) =~= words_of(a, down) + words_of(b, down));
    }
}

proof fn lemma_words_of_char(c: char, sent_down: bool, down: bool)
    ensures
        words_of(char_events(c, sent_down), down) == if sent_down == down {
            utf16(c)
        } else {
            Seq::empty()
        },
{
    reveal_with_fuel(words_of, 3);
    let events = char_events(c, sent_down);
    assert(events.len() == utf16(c).len());
    if utf16(c).len() == 1 {
        assert(events.drop_last() =~= Seq::<KeyEvent>::empty());
    } else {
        assert(events.drop_last().drop_last() =~= Seq::<KeyEvent>::empty());
    }
    if sent_down == down {
        assert(words_of(events, down) =~= utf16(c));
    } else {
        assert(words_of(events, down) =~= Seq::<u16>::empty());
    }
}

proof fn lemma_utf16_prepend(c: char, rest: Seq<char>)
    ensures
        utf16_text(seq![c] + rest) == utf16(c) + utf16_text(rest),
    decreases rest.len(),
{
    if rest.len() == 0 {
        reveal_with_fuel(utf16_text, 2);
        assert((seq![c] + rest).drop_last() =~= Seq::<char>::empty());
        assert(utf16_text(seq![c] + rest) =~= utf16(c));
        assert(utf16(c) + utf16_text(rest) =~= utf16(c));
    } else {
        assert((seq![c] + rest).drop_last() =~= seq![c] + rest.drop_last());
        lemma_utf16_prepend(c, rest.drop_last());
        assert(utf16_text(seq![c] + rest) =~= utf16(c) + utf16_text(rest));
    }
}

proof fn lemma_decode_first(c: char, rest: Seq<u16>)
    ensures
        decode_utf16(utf16(c) + rest) == seq![c] + decode_utf16(rest),
{
    let words = utf16(c) + rest;
    if (c as int) < 0x10000 {
        assert(words[0] == c as int);
        assert(words.skip(1) =~= rest);
    } else {
        let v = c as int - 0x10000;
        assert(words[0] == 0xd800 + v / 0x400);
        assert(words[1] == 0xdc00 + v % 0x400);
        assert(words.skip(2) =~= rest);
    }
}

/// The keys that go down while a text is typed enter that text, and the keys that go
/// up are the same ones in the same order.
pub proof fn law_typing_enters_the_text(text: Seq<char>)
    ensures
        words_of(typed(text), true) == utf16_text(text),
        words_of(typed(text), false) == utf16_text(text),
    decreases text.len(),
{
    if text.len() > 0 {
        let before = typed(text.drop_last());
        let press = char_events(text.last(), true);
        let release = char_events(text.last(), false);
        law_typing_enters_the_text(text.drop_last());
        lemma_words_of_concat(before, press, true);
        lemma_words_of_concat(before + press, release, true);
        lemma_words_of_concat(before, press, false);
        lemma_words_of_concat(before + press, release, false);
        lemma_words_of_char(text.last(), true, true);
        lemma_words_of_char(text.last(), true, false);
        lemma_words_of_char(text.last(), false, true);
        lemma_words_of_char(text.last(), false, false);
        assert(words_of(typed(text), true) =~= utf16_text(text));
        assert(words_of(typed(text), false) =~= utf16_text(text));
    }
}

/// The UTF-16 words of a text stand for that text and no other.
pub proof fn law_utf16_stands_for_the_text(text: Seq<char>)
    ensures
        decode_utf16(utf16_text(text)) == text,
    decreases text.len(),
{
    if text.len() > 0 {
        assert(text =~= seq![text[0]] + text.drop_first());
        lemma_utf16_prepend(text[0], text.drop_first());
        lemma_decode_first(text[0], utf16_text(text.drop_first()));
        law_utf16_stands_for_the_text(text.drop_first());
    }
}

/// Typing one text after another is typing them as one.
pub proof fn law_typing_concatenates(a: Seq<char>, b: Seq<char>)
    ensures
        typed(a + b) == typed(a) + typed(b),
    decreases b.len(),
{
    if b.len() == 0 {
        assert(a + b =~= a);
        assert(typed(a) + typed(b) =~= typed(a));
    } else {
        assert((a + b).drop_last() =~= a + b.drop_last());
        law_typing_concatenates(a, b.drop_last());
        assert(typed(a + b) =~= typed(a) + typed(b));
    }
}

proof fn lemma_surrogates(c: char)
    requires
        c as int >= 0x10000,
    ensures
        0xd800 <= utf16(c)[0] < 0xdc00 <= utf16(c)[1] < 0xe000,
        c as int == 0x10000 + (utf16(c)[0] - 0xd800) * 0x400 + (utf16(c)[1] - 0xdc00),
{
}

/// A character is typed by a key that goes down and then up: one word of keyboard input
/// each time or, beyond the first 65536 characters, its two surrogates.
pub proof fn law_a_character_goes_down_and_up(string: &str, events: Vec<KeyEvent>)
    requires
        string@.len() == 1,
        call_ensures(type_string, (string,), events),
    ensures
        (string@[0] as int) < 0x10000 ==> events@ == seq![
            KeyEvent::Input {
                virtual_key: 0,
                scan: string@[0] as u16,
                flags: 4,
                time: 0,
                extra_info: 0,
            },
            KeyEvent::Input {
                virtual_key: 0,
                scan: string@[0] as u16,
                flags: 6,
                time: 0,
                extra_info: 0,
            },
        ],
        string@[0] as int >= 0x10000 ==> events@.len() == 4 && ({
            let high = events@[0]->scan;
            let low = events@[1]->scan;
            &&& 0xd800 <= high < 0xdc00 <= low < 0xe000
            &&& string@[0] as int == 0x10000 + (high - 0xd800) * 0x400 + (low - 0xdc00)
            &&& events@ == seq![
                KeyEvent::Input { virtual_key: 0, scan: high, flags: 4, time: 0, extra_info: 0 },
                KeyEvent::Input { virtual_key: 0, scan: low, flags: 4, time: 0, extra_info: 0 },
                KeyEvent::Input { virtual_key: 0, scan: high, flags: 6, time: 0, extra_info: 0 },
                KeyEvent::Input { virtual_key: 0, scan: low, flags: 6, time: 0, extra_info: 0 },
            ]
        }),
{
    reveal_with_fuel(typed, 2);
    let c = string@[0];
    assert(string@.drop_last() =~= Seq::<char>::empty());
    let words = utf16(c);
    assert(events@ =~= char_events(c, true) + char_events(c, false));
    if c as int >= 0x10000 {
        lemma_surrogates(c);
        assert(words =~= seq![words[0], words[1]]);
    }
}

/// Two texts in a row are typed by the events of the one and then those of the other.
pub proof fn law_texts_are_typed_one_after_the_other(
    a: &str,
    b: &str,
    both: &str,
    of_a: Vec<KeyEvent>,
    of_b: Vec<KeyEvent>,
    of_both: Vec<KeyEvent>,
)
    requires
        both@ == a@ + b@,
        call_ensures(type_string, (a,), of_a),
        call_ensures(type_string, (b,), of_b),
        call_ensures(type_string, (both,), of_both),
    ensures
        of_both@ == of_a@ + of_b@,
{
    law_typing_concatenates(a@, b@);
}

/// An empty text takes no events.
pub proof fn law_nothing_is_typed_by_nothing(string: &str, events: Vec<KeyEvent>)
    requires
        string@.len() == 0,
        call_ensures(type_string, (string,), events),
    ensures
        events@.len() == 0,
{
}

/// A key is tapped by the events that hold it down and then those that let it go.
pub proof fn law_a_tap_is_down_and_up<T: KeyCodeConvertible + Copy>(
    key: &T,
    down: Vec<KeyEvent>,
    up: Vec<KeyEvent>,
    events: Vec<KeyEvent>,
)
    requires
        call_ensures(toggle::<T>, (key, true), down),
        call_ensures(toggle::<T>, (key, false), up),
        call_ensures(tap::<T>, (key,), events),
    ensures
        events@ == down@ + up@,
{
}

/// A key that enters a character is toggled by the words of that character alone, whatever
/// its code, so that holding it down and letting it go types the character.
pub proof fn law_a_tapped_character_is_typed<T: KeyCodeConvertible + Copy>(
    key: &T,
    string: &str,
    typed: Vec<KeyEvent>,
    events: Vec<KeyEvent>,
)
    requires
        string@.len() == 1,
        key.key_character() == Some(string@[0]),
        call_ensures(type_string, (string,), typed),
        call_ensures(tap::<T>, (key,), events),
    ensures
        events@ == typed@,
{
    reveal_with_fuel(self::typed, 2);
    assert(string@.drop_last() =~= Seq::<char>::empty());
    assert(events@ =~= typed@);
}

/// A key that enters no character is toggled by one event with the low byte of its code,
/// flagged when the key goes up.
pub proof fn law_other_keys_go_by_their_code<T: KeyCodeConvertible>(
    key: &T,
    down: bool,
    code: WinKeyCode,
    event: KeyEvent,
    toggled: Vec<KeyEvent>,
    events: Vec<KeyEvent>,
)
    requires
        key.key_character() is None,
        key.key_code() == Some(code),
        call_ensures(win_send_key_event, (code, down), event),
        call_ensures(system_toggle::<T>, (key, down), toggled),
        call_ensures(toggle::<T>, (key, down), events),
    ensures
        events@ == seq![event],
        toggled@ == events@,
        event matches KeyEvent::Key { code: byte, hardware_scan, flags, extra_info } && ({
            &&& (code - byte) % 256 == 0
            &&& hardware_scan == 0
            &&& down ==> flags == 0
            &&& !down ==> flags == 2
            &&& extra_info == 0
        }),
{
    assert((code - (code as u8)) % 256 == 0) by (bit_vector);
}

/// Whatever a key is, it is toggled alike by the system.
pub proof fn law_the_system_toggles_alike<T: KeyCodeConvertible>(
    key: &T,
    down: bool,
    toggled: Vec<KeyEvent>,
    events: Vec<KeyEvent>,
)
    requires
        call_ensures(system_toggle::<T>, (key, down), toggled),
        call_ensures(toggle::<T>, (key, down), events),
    ensures
        toggled@ == events@,
{
}

} // verus!
