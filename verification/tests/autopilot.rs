use mcfly::autopilot::{
    system_toggle, tap, toggle, type_string, win_send_key_event, Character, KeyCodeConvertible,
    KeyEvent, KEYEVENTF_KEYUP, KEYEVENTF_UNICODE,
};

fn word(scan: u16, flags: u32) -> KeyEvent {
    KeyEvent::Input { virtual_key: 0, scan, flags, time: 0, extra_info: 0 }
}

fn words(events: &[KeyEvent], wanted: u32) -> Vec<u16> {
    let mut out = Vec::new();
    for event in events {
        if let KeyEvent::Input { scan, flags, .. } = event {
            if *flags == wanted {
                out.push(*scan);
            }
        }
    }
    out
}

#[test]
fn flags_have_the_values_of_the_system() {
    assert_eq!(KEYEVENTF_KEYUP, 2);
    assert_eq!(KEYEVENTF_UNICODE, 4);
}

#[test]
fn nothing_is_typed_for_an_empty_text() {
    assert!(type_string("").is_empty());
}

#[test]
fn each_character_goes_down_and_up() {
    assert_eq!(
        type_string("hi"),
        vec![word(0x68, 4), word(0x68, 6), word(0x69, 4), word(0x69, 6)]
    );
}

#[test]
fn characters_of_the_basic_plane_take_one_word() {
    assert_eq!(type_string("\u{20ac}"), vec![word(0x20ac, 4), word(0x20ac, 6)]);
    assert_eq!(type_string("\u{ffff}"), vec![word(0xffff, 4), word(0xffff, 6)]);
    assert_eq!(type_string("\u{e000}"), vec![word(0xe000, 4), word(0xe000, 6)]);
}

#[test]
fn other_characters_take_two_words_each_way() {
    assert_eq!(
        type_string("\u{1f600}"),
        vec![word(0xd83d, 4), word(0xde00, 4), word(0xd83d, 6), word(0xde00, 6)]
    );
    assert_eq!(
        type_string("\u{10000}"),
        vec![word(0xd800, 4), word(0xdc00, 4), word(0xd800, 6), word(0xdc00, 6)]
    );
    assert_eq!(
        type_string("\u{10ffff}"),
        vec![word(0xdbff, 4), word(0xdfff, 4), word(0xdbff, 6), word(0xdfff, 6)]
    );
}

#[test]
fn typing_enters_the_text() {
    let text = "git log \u{e9}\u{4e2d}\u{1f600}\u{10ffff}!";
    let events = type_string(text);
    let expected: Vec<u16> = text.encode_utf16().collect();
    assert_eq!(words(&events, 4), expected);
    assert_eq!(words(&events, 6), expected);
    assert_eq!(String::from_utf16(&words(&events, 4)).unwrap(), text);
}

#[test]
fn typing_concatenates() {
    let mut events = type_string("l\u{1f600}");
    events.extend(type_string("s"));
    assert_eq!(events, type_string("l\u{1f600}s"));
}

#[test]
fn a_tap_is_two_toggles() {
    let key = Character('\u{1f600}');
    let mut events = toggle(&key, true);
    events.extend(toggle(&key, false));
    assert_eq!(tap(&key), events);
    assert_eq!(system_toggle(&key, true), toggle(&key, true));
}

#[test]
fn a_character_key_enters_its_character() {
    assert_eq!(Character('x').character(), Some('x'));
}

#[test]
fn a_key_with_a_code_is_known_by_its_low_byte() {
    assert_eq!(
        win_send_key_event(0x141, true),
        KeyEvent::Key { code: 0x41, hardware_scan: 0, flags: 0, extra_info: 0 }
    );
    assert_eq!(
        win_send_key_event(0x0d, false),
        KeyEvent::Key { code: 0x0d, hardware_scan: 0, flags: 2, extra_info: 0 }
    );
    assert_eq!(
        win_send_key_event(-1, true),
        KeyEvent::Key { code: 0xff, hardware_scan: 0, flags: 0, extra_info: 0 }
    );
}

#[derive(Copy, Clone)]
struct Return;

impl KeyCodeConvertible for Return {
    fn key_character(&self) -> Option<char> {
        None
    }

    fn key_code(&self) -> Option<i32> {
        Some(0x0d)
    }

    fn code(&self) -> i32 {
        0x0d
    }

    fn character(&self) -> Option<char> {
        None
    }
}

#[test]
fn a_key_without_a_character_is_sent_by_its_code() {
    assert_eq!(
        tap(&Return),
        vec![
            KeyEvent::Key { code: 0x0d, hardware_scan: 0, flags: 0, extra_info: 0 },
            KeyEvent::Key { code: 0x0d, hardware_scan: 0, flags: 2, extra_info: 0 },
        ]
    );
}
