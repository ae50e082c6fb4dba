use ghostos::input::{InputState, KeyboardState, MouseButton, MouseState};

#[test]
fn new_keyboard_state_holds_no_key() {
    let state = KeyboardState::new();
    assert_eq!(state.words(), [0, 0]);
    for key in 0..128u8 {
        assert!(!state.is_down(key));
    }
}

#[test]
fn set_key_sets_its_bit_in_the_right_word() {
    let mut state = KeyboardState::new();
    state.set_key(3, true);
    state.set_key(64, true);
    state.set_key(127, true);
    assert_eq!(state.words(), [1 << 3, 1 | (1 << 63)]);
    assert!(state.is_down(3));
    assert!(state.is_down(64));
    assert!(state.is_down(127));
    assert!(!state.is_down(4));
    state.set_key(64, false);
    assert_eq!(state.words(), [1 << 3, 1 << 63]);
    assert!(!state.is_down(64));
}

#[test]
fn keyboard_words_round_trip() {
    let state = KeyboardState::from_words([0xDEAD_BEEF, 0x1234]);
    assert_eq!(state.words(), [0xDEAD_BEEF, 0x1234]);
    assert!(state.is_down(0));
    assert!(!state.is_down(4));
    assert!(state.is_down(66));
}

#[test]
fn mouse_word_packs_position_and_buttons() {
    let mut mouse = MouseState::new();
    assert_eq!(mouse.word(), 0);
    mouse.set_position(0x1234, 0x5678);
    mouse.set_button(MouseButton::Right, true);
    assert_eq!(mouse.word(), 0x0000_0002_5678_1234);
    assert_eq!(mouse.x(), 0x1234);
    assert_eq!(mouse.y(), 0x5678);
    assert!(mouse.is_down(MouseButton::Right));
    assert!(!mouse.is_down(MouseButton::Left));
    mouse.set_button(MouseButton::Left, true);
    mouse.set_button(MouseButton::Right, false);
    assert_eq!(mouse.word(), 0x0000_0001_5678_1234);
}

#[test]
fn mouse_from_word_ignores_high_bits() {
    let mouse = MouseState::from_word(0xFFFF_FF03_0002_0001);
    assert_eq!(mouse.x(), 1);
    assert_eq!(mouse.y(), 2);
    assert!(mouse.is_down(MouseButton::Left));
    assert!(mouse.is_down(MouseButton::Right));
    assert_eq!(mouse.word(), 0x0000_0003_0002_0001);
}

#[test]
fn input_state_keeps_both_parts() {
    let mut keyboard = KeyboardState::new();
    keyboard.set_key(10, true);
    let mut mouse = MouseState::new();
    mouse.set_position(7, 9);
    let input = InputState::new(keyboard, mouse);
    assert_eq!(input.keyboard(), keyboard);
    assert_eq!(input.mouse(), mouse);
}

#[test]
fn mouse_states_survive_packing() {
    let mut state = MouseState::new();
    state.set_position(640, 360);
    state.set_button(MouseButton::Right, true);
    assert_eq!(MouseState::from_word(state.word()), state);
    assert_eq!(MouseState::from_word(0xFFFF_FF03_0002_0001).word(), 0x03_0002_0001);
}
