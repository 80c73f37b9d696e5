use screen_13::input::key::KeyBuf as SimpleKeyBuf;
use screen_13::input::key_buf::KeyBuf;
use screen_13::input::mouse_buf::MouseBuf;
use screen_13::input::sorted::{binary_search, contains_key, insert_key, remove_key};
use screen_13::input::typing::Typing;
use screen_13::input::{
    update_input, update_keyboard, update_mouse, InputEvent, KEY_BACK, KEY_DELETE, KEY_END,
    KEY_HOME, KEY_LEFT, KEY_RIGHT,
};

fn press(key: u32) -> InputEvent {
    InputEvent::Key { key, pressed: true }
}

fn release(key: u32) -> InputEvent {
    InputEvent::Key { key, pressed: false }
}

#[test]
fn key_buf_starts_empty() {
    let keys = KeyBuf::new();
    assert!(!keys.any_held());
    assert!(!keys.any_pressed());
    assert!(!keys.any_released());
    assert!(keys.chars().is_empty());
    assert!(keys.held().is_empty());
}

#[test]
fn key_press_makes_pressed_and_held() {
    let mut keys = KeyBuf::new();
    assert!(keys.handle_event(&press(10)));
    assert!(keys.is_pressed(10));
    assert!(keys.is_held(10));
    assert!(!keys.is_released(10));
    assert!(!keys.is_held(11));
    assert_eq!(keys.held(), vec![10]);
    assert_eq!(keys.pressed(), vec![10]);
}

#[test]
fn key_pressed_and_released_in_one_update_shows_both() {
    let mut keys = KeyBuf::new();
    update_keyboard(&mut keys, &[press(7), release(7)]);
    assert!(keys.is_pressed(7));
    assert!(keys.is_released(7));
    assert!(!keys.is_held(7));
    assert!(keys.any_pressed());
    assert!(keys.any_released());
    assert!(!keys.any_held());
}

#[test]
fn key_update_keeps_only_held_keys() {
    let mut keys = KeyBuf::new();
    update_keyboard(&mut keys, &[press(3), press(1), release(2), InputEvent::Char('x')]);
    assert_eq!(keys.held(), vec![1, 3]);
    assert_eq!(keys.pressed(), vec![1, 3]);
    assert_eq!(keys.released(), vec![2]);
    assert_eq!(keys.chars(), &['x']);
    keys.update();
    assert_eq!(keys.held(), vec![1, 3]);
    assert!(keys.pressed().is_empty());
    assert!(keys.released().is_empty());
    assert!(keys.chars().is_empty());
}

#[test]
fn key_buf_ignores_mouse_and_other_events() {
    let mut keys = KeyBuf::new();
    assert!(!keys.handle_event(&InputEvent::MouseButton { button: 0, pressed: true }));
    assert!(!keys.handle_event(&InputEvent::Other));
    assert!(keys.handle_event(&InputEvent::Char('a')));
    keys.handle_char('b');
    keys.handle_key(5, true);
    assert_eq!(keys.chars(), &['a', 'b']);
    assert!(keys.is_held(5));
}

#[test]
fn repeated_presses_list_key_once() {
    let mut keys = KeyBuf::new();
    keys.handle_key(9, true);
    keys.handle_key(9, true);
    keys.handle_key(4, true);
    assert_eq!(keys.held(), vec![4, 9]);
    assert_eq!(keys.pressed(), vec![4, 9]);
}

#[test]
fn mouse_press_and_release() {
    let mut mouse = MouseBuf::default();
    assert!(!mouse.any_held());
    assert!(mouse.handle_event(&InputEvent::MouseButton { button: 1, pressed: true }));
    assert!(mouse.is_held(1));
    assert!(mouse.is_pressed(1));
    assert!(!mouse.is_held(0));
    assert!(mouse.any_held());
    mouse.handle_button(1, false);
    assert!(!mouse.is_held(1));
    // A release clears the released bit rather than setting it.
    assert!(!mouse.is_released(1));
    assert!(!mouse.any_released());
    assert!(mouse.is_pressed(1));
}

#[test]
fn mouse_update_clears_pressed() {
    let mut mouse = MouseBuf::default();
    update_mouse(&mut mouse, &[InputEvent::MouseButton { button: 2, pressed: true }]);
    assert!(mouse.any_pressed());
    update_mouse(&mut mouse, &[]);
    assert!(!mouse.any_pressed());
    assert!(mouse.is_held(2));
    assert!(!mouse.handle_event(&InputEvent::Char('z')));
}

#[test]
fn update_input_feeds_both_buffers() {
    let mut keys = KeyBuf::new();
    let mut mouse = MouseBuf::default();
    update_input(
        &mut keys,
        &mut mouse,
        &[press(1), InputEvent::MouseButton { button: 0, pressed: true }, InputEvent::Other],
    );
    assert!(keys.is_pressed(1));
    assert!(mouse.is_pressed(0));
}

#[test]
fn sorted_keys_insert_remove_search() {
    let mut v: Vec<u32> = Vec::new();
    insert_key(&mut v, 5);
    insert_key(&mut v, 1);
    insert_key(&mut v, 9);
    insert_key(&mut v, 5);
    assert_eq!(v, vec![1, 5, 9]);
    assert_eq!(binary_search(&v, 5), Ok(1));
    assert_eq!(binary_search(&v, 6), Err(2));
    assert_eq!(binary_search(&v, 0), Err(0));
    assert!(contains_key(&v, 9));
    remove_key(&mut v, 5);
    remove_key(&mut v, 7);
    assert_eq!(v, vec![1, 9]);
    assert!(!contains_key(&v, 5));
}

fn typed(chars: &[char], pressed: &[u32]) -> KeyBuf {
    let mut keys = KeyBuf::new();
    for c in chars {
        keys.handle_char(*c);
    }
    for key in pressed {
        keys.handle_key(*key, true);
    }
    keys
}

#[test]
fn typing_inserts_at_cursor() {
    let mut typing = Typing::default();
    typing.handle_input(&typed(&['a', 'b', 'c'], &[]));
    assert_eq!(typing.as_str(), "abc");
    assert_eq!(typing.as_split_str(), ("abc", ""));
    typing.handle_input(&typed(&[], &[KEY_LEFT]));
    typing.handle_input(&typed(&['x'], &[]));
    assert_eq!(typing.as_str(), "abxc");
    assert_eq!(typing.to_split_string(), (String::from("abx"), String::from("c")));
}

#[test]
fn typing_backspace_undoes_a_character() {
    let mut typing = Typing::default();
    typing.handle_input(&typed(&['h', 'i'], &[]));
    typing.handle_input(&typed(&['!'], &[KEY_BACK]));
    assert_eq!(typing.as_str(), "hi");
    assert_eq!(typing.as_split_str(), ("hi", ""));
}

#[test]
fn typing_editing_keys() {
    let mut typing = Typing::default();
    typing.handle_input(&typed(&['a', 'b', 'c', 'd'], &[]));
    typing.handle_input(&typed(&[], &[KEY_HOME]));
    assert_eq!(typing.as_split_str(), ("", "abcd"));
    typing.handle_input(&typed(&[], &[KEY_DELETE]));
    assert_eq!(typing.as_str(), "bcd");
    typing.handle_input(&typed(&[], &[KEY_RIGHT]));
    assert_eq!(typing.as_split_str(), ("b", "cd"));
    typing.handle_input(&typed(&[], &[KEY_END]));
    assert_eq!(typing.as_split_str(), ("bcd", ""));
    // Backspace takes precedence over the other editing keys.
    typing.handle_input(&typed(&[], &[KEY_HOME, KEY_BACK]));
    assert_eq!(typing.as_split_str(), ("bc", ""));
    // Nothing to delete at the end, nothing to move past at the start.
    typing.handle_input(&typed(&[], &[KEY_DELETE]));
    assert_eq!(typing.as_str(), "bc");
}

#[test]
fn typing_handles_multibyte_characters() {
    let mut typing = Typing::default();
    typing.handle_input(&typed(&['é', 'ß'], &[]));
    typing.handle_input(&typed(&[], &[KEY_LEFT]));
    assert_eq!(typing.as_split_str(), ("é", "ß"));
}

#[test]
fn simple_key_buf_tracks_events() {
    let mut keys = SimpleKeyBuf::default();
    assert_eq!(keys.char_buf(), "");
    assert!(!keys.is_key_down(3));
    assert!(!keys.was_key_down(3));
    keys.handle(&press(3));
    keys.clear();
    assert_eq!(keys.char_buf(), "");
    assert!(!keys.is_key_down(3));
}
