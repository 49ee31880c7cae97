use bevy::input::keyboard::KeyCode;
use bevy::input::ButtonInput;
use platformer_core::input::KeyState;
use platformer_core::keyboard::read_keys;

fn nothing_held() -> KeyState {
    KeyState { up: false, down: false, left: false, right: false, jump: false }
}

#[test]
fn an_empty_record_holds_no_key() {
    let record: ButtonInput<KeyCode> = ButtonInput::default();
    assert_eq!(read_keys(&record), nothing_held());
}

#[test]
fn each_bound_key_is_read_under_its_own_name() {
    let bound: [(KeyCode, KeyState); 5] = [
        (KeyCode::ArrowUp, KeyState { up: true, ..nothing_held() }),
        (KeyCode::ArrowDown, KeyState { down: true, ..nothing_held() }),
        (KeyCode::ArrowLeft, KeyState { left: true, ..nothing_held() }),
        (KeyCode::ArrowRight, KeyState { right: true, ..nothing_held() }),
        (KeyCode::Space, KeyState { jump: true, ..nothing_held() }),
    ];
    for (code, expected) in bound {
        let mut record: ButtonInput<KeyCode> = ButtonInput::default();
        record.press(code);
        assert_eq!(read_keys(&record), expected);
    }
}

#[test]
fn keys_held_together_are_all_read() {
    let mut record: ButtonInput<KeyCode> = ButtonInput::default();
    record.press(KeyCode::ArrowUp);
    record.press(KeyCode::ArrowRight);
    record.press(KeyCode::Space);
    assert_eq!(
        read_keys(&record),
        KeyState { up: true, down: false, left: false, right: true, jump: true }
    );
}

#[test]
fn other_keys_are_not_read() {
    let mut record: ButtonInput<KeyCode> = ButtonInput::default();
    record.press(KeyCode::KeyW);
    record.press(KeyCode::Enter);
    record.press(KeyCode::PageUp);
    assert_eq!(read_keys(&record), nothing_held());
}

#[test]
fn a_key_is_read_as_held_until_it_is_released() {
    let mut record: ButtonInput<KeyCode> = ButtonInput::default();
    record.press(KeyCode::Space);
    assert!(read_keys(&record).jump);
    record.clear();
    assert!(read_keys(&record).jump);
    record.release(KeyCode::Space);
    assert!(!read_keys(&record).jump);
    record.clear();
    assert!(!read_keys(&record).jump);
}
