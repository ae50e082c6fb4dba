use ghostos::keyboard::{KeyEvent, KeyTransition, Keyboard};
use pc_keyboard::KeyCode;

#[test]
fn scancodes_press_and_release_keys() {
    let mut keyboard = Keyboard::new();
    keyboard.handle_scancode(0x1E);
    assert!(keyboard.state().is_down(KeyCode::A as u8));
    keyboard.handle_scancode(0x10);
    assert!(keyboard.state().is_down(KeyCode::Q as u8));
    keyboard.handle_scancode(0x9E);
    assert!(!keyboard.state().is_down(KeyCode::A as u8));
    assert!(keyboard.state().is_down(KeyCode::Q as u8));
}

#[test]
fn extended_scancodes_take_two_bytes() {
    let mut keyboard = Keyboard::new();
    keyboard.handle_scancode(0xE0);
    assert_eq!(keyboard.state().words(), [0, 0]);
    keyboard.handle_scancode(0x48);
    assert!(keyboard.state().is_down(KeyCode::ArrowUp as u8));
    keyboard.handle_scancode(0xE0);
    keyboard.handle_scancode(0xC8);
    assert!(!keyboard.state().is_down(KeyCode::ArrowUp as u8));
}

#[test]
fn unknown_scancodes_change_nothing() {
    let mut keyboard = Keyboard::new();
    keyboard.handle_scancode(0x1E);
    let before = keyboard.state();
    keyboard.handle_scancode(0x00);
    assert_eq!(keyboard.state(), before);
}

#[test]
fn decoder_outcomes_update_held_keys() {
    let mut keyboard = Keyboard::new();
    keyboard.apply(Ok(Some(KeyEvent { key: 5, transition: KeyTransition::Down })));
    assert!(keyboard.state().is_down(5));
    keyboard.apply(Ok(Some(KeyEvent { key: 5, transition: KeyTransition::SingleShot })));
    assert!(keyboard.state().is_down(5));
    keyboard.apply(Ok(None));
    assert!(keyboard.state().is_down(5));
    keyboard.apply(Ok(Some(KeyEvent { key: 5, transition: KeyTransition::Up })));
    assert!(!keyboard.state().is_down(5));
}
