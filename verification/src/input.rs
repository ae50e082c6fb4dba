//! Input state shared between the kernel and user programs: which keys are
//! held, and the mouse position and buttons, packed into machine words for
//! the input-state system call.
use vstd::prelude::*;

verus! {

/// Number of 64-bit words that hold the keyboard state: one bit per key code.
pub const KEYBOARD_STATE_WORD_COUNT: usize = 2;

/// The number of key codes that the keyboard state can hold.
pub const KEY_CODE_LIMIT: u8 = 128;

/// Keyboard and mouse state together.
#[derive(Debug, Clone, Copy, PartialEq, Eq, Structural)]
pub struct InputState {
    keyboard: KeyboardState,
    mouse: MouseState,
}

impl InputState {
    pub closed spec fn spec_keyboard(self) -> KeyboardState {
        self.keyboard
    }

    pub closed spec fn spec_mouse(self) -> MouseState {
        self.mouse
    }

    pub fn new(keyboard: KeyboardState, mouse: MouseState) -> (r: Self)
        ensures
            r.spec_keyboard() == keyboard,
            r.spec_mouse() == mouse,
    {
        Self { keyboard, mouse }
    }

    #[verifier::when_used_as_spec(spec_keyboard)]
    pub fn keyboard(self) -> (r: KeyboardState)
        ensures
            r == self.spec_keyboard(),
    {
        self.keyboard
    }

    #[verifier::when_used_as_spec(spec_mouse)]
    pub fn mouse(self) -> (r: MouseState)
        ensures
            r == self.spec_mouse(),
    {
        self.mouse
    }
}

/// One bit per key code: bit `k % 64` of word `k / 64` is set while key
/// `k` is held.
#[derive(Debug, Clone, Copy, PartialEq, Eq, Structural)]
pub struct KeyboardState {
    low: u64,
    high: u64,
}

/// Whether bit `bit` of `word` is set.
pub open spec fn bit_set(word: u64, bit: u64) -> bool {
    word & (1u64 << bit) != 0
}

impl KeyboardState {
    pub closed spec fn spec_words(self) -> Seq<u64> {
        seq![self.low, self.high]
    }

    /// This state with key code `key` held or released.
    pub closed spec fn with_key(self, key: u8, down: bool) -> KeyboardState {
        let mask = 1u64 << ((key % 64) as u64);
        let update = |w: u64|
            if down {
                w | mask
            } else {
                w & !mask
            };
        if key < 64 {
            KeyboardState { low: update(self.low), ..self }
        } else {
            KeyboardState { high: update(self.high), ..self }
        }
    }

    /// Whether key code `key` is held.
    pub open spec fn key_down(self, key: u8) -> bool {
        bit_set(self.spec_words()[key as int / 64], (key % 64) as u64)
    }

    /// Holding or releasing a key sets that key and leaves every other key
    /// as it was.
    pub proof fn lemma_with_key(self, key: u8, down: bool)
        requires
            key < KEY_CODE_LIMIT,
        ensures
            self.with_key(key, down).key_down(key) == down,
            forall|k: u8|
                k < KEY_CODE_LIMIT && k != key ==> #[trigger] self.with_key(key, down).key_down(k)
                    == self.key_down(k),
    {
        let bit = (key % 64) as u64;
        let mask = 1u64 << bit;
        let old_word = if key < 64 {
            self.low
        } else {
            self.high
        };
        let new_word = if down {
            old_word | mask
        } else {
            old_word & !mask
        };
        let r = self.with_key(key, down);
        assert(r.spec_words()[key as int / 64] == new_word);
        assert(bit_set(new_word, bit) == down) by (bit_vector)
            requires
                bit < 64,
                mask == 1u64 << bit,
                new_word == if down {
                    old_word | mask
                } else {
                    old_word & !mask
                },
        ;
        assert forall|k: u8| k < KEY_CODE_LIMIT && k != key implies #[trigger] r.key_down(k)
            == self.key_down(k) by {
            let b = (k % 64) as u64;
            if k / 64 == key / 64 {
                assert(b != bit);
                assert(bit_set(new_word, b) == bit_set(old_word, b)) by (bit_vector)
                    requires
                        bit < 64,
                        b < 64,
                        b != bit,
                        mask == 1u64 << bit,
                        new_word == if down {
                            old_word | mask
                        } else {
                            old_word & !mask
                        },
                ;
            }
        }
    }

    /// No key held.
    pub closed spec fn spec_new() -> KeyboardState {
        KeyboardState { low: 0, high: 0 }
    }

    /// No key held.
    pub fn new() -> (r: Self)
        ensures
            r == Self::spec_new(),
            r.spec_words() == seq![0u64, 0u64],
            forall|k: u8| k < KEY_CODE_LIMIT ==> !#[trigger] r.key_down(k),
    {
        let r = Self { low: 0, high: 0 };
        assert forall|k: u8| k < KEY_CODE_LIMIT implies !#[trigger] r.key_down(k) by {
            let b = (k % 64) as u64;
            assert(0u64 & (1u64 << b) == 0) by (bit_vector);
        }
        r
    }

    pub fn from_words(words: [u64; 2]) -> (r: Self)
        ensures
            r.spec_words() == words@,
    {
        Self { low: words[0], high: words[1] }
    }

    pub fn words(self) -> (r: [u64; 2])
        ensures
            r@ == self.spec_words(),
    {
        [self.low, self.high]
    }

    /// Whether key code `key` (below 128) is held.
    pub fn is_down(self, key: u8) -> (r: bool)
        requires
            key < KEY_CODE_LIMIT,
        ensures
            r == self.key_down(key),
    {
        let bit = (key % 64) as u64;
        let word = if key < 64 {
            self.low
        } else {
            self.high
        };
        word & (1u64 << bit) != 0
    }

    /// Records key code `key` (below 128) as held or released; no other key
    /// changes.
    pub fn set_key(&mut self, key: u8, down: bool)
        requires
            key < KEY_CODE_LIMIT,
        ensures
            *final(self) == old(self).with_key(key, down),
            final(self).key_down(key) == down,
            forall|k: u8|
                k < KEY_CODE_LIMIT && k != key ==> #[trigger] final(self).key_down(k) == old(
                    self,
                ).key_down(k),
    {
        let bit = (key % 64) as u64;
        let mask = 1u64 << bit;
        let old_word = if key < 64 {
            self.low
        } else {
            self.high
        };
        let new_word = if down {
            old_word | mask
        } else {
            old_word & !mask
        };
        if key < 64 {
            self.low = new_word;
        } else {
            self.high = new_word;
        }
        proof {
            old(self).lemma_with_key(key, down);
        }
    }
}

impl Default for KeyboardState {
    fn default() -> (r: Self)
        ensures
            r.spec_words() == seq![0u64, 0u64],
    {
        Self::new()
    }
}

/// A mouse button.
#[derive(Debug, Clone, Copy, PartialEq, Eq, Structural)]
pub enum MouseButton {
    Left,
    Right,
}

/// The bit of a button in the button byte.
pub open spec fn button_bit(button: MouseButton) -> u8 {
    match button {
        MouseButton::Left => 0u8,
        MouseButton::Right => 1u8,
    }
}

/// The mouse position and buttons.
#[derive(Debug, Clone, Copy, PartialEq, Eq, Structural)]
pub struct MouseState {
    x: u16,
    y: u16,
    buttons: u8,
}

impl MouseState {
    pub closed spec fn spec_x(self) -> u16 {
        self.x
    }

    pub closed spec fn spec_y(self) -> u16 {
        self.y
    }

    pub closed spec fn spec_buttons(self) -> u8 {
        self.buttons
    }

    /// The state at the origin with no button held.
    pub closed spec fn spec_new() -> MouseState {
        MouseState { x: 0, y: 0, buttons: 0 }
    }

    /// This state moved to `(x, y)`.
    pub closed spec fn with_position(self, x: u16, y: u16) -> MouseState {
        MouseState { x, y, ..self }
    }

    /// This state with `button` held or released.
    pub closed spec fn with_button(self, button: MouseButton, down: bool) -> MouseState {
        let mask = 1u8 << button_bit(button);
        MouseState {
            buttons: if down {
                self.buttons | mask
            } else {
                self.buttons & !mask
            },
            ..self
        }
    }

    /// Whether `button` is held.
    pub open spec fn button_down(self, button: MouseButton) -> bool {
        self.spec_buttons() & (1u8 << button_bit(button)) != 0
    }

    /// Moving changes the position only.
    pub proof fn lemma_with_position(self, x: u16, y: u16)
        ensures
            self.with_position(x, y).spec_x() == x,
            self.with_position(x, y).spec_y() == y,
            self.with_position(x, y).spec_buttons() == self.spec_buttons(),
    {
    }

    /// Holding or releasing a button sets that button and leaves the other
    /// button, the unused button bits and the position as they were.
    pub proof fn lemma_with_button(self, button: MouseButton, down: bool)
        ensures
            self.with_button(button, down).button_down(button) == down,
            forall|b: MouseButton| b != button ==> #[trigger] self.with_button(button, down).button_down(b)
                == self.button_down(b),
            self.with_button(button, down).spec_buttons() & 0xFC == self.spec_buttons() & 0xFC,
            self.with_button(button, down).spec_x() == self.spec_x(),
            self.with_button(button, down).spec_y() == self.spec_y(),
    {
        let bit = button_bit(button);
        let mask = 1u8 << bit;
        let old_buttons = self.buttons;
        let new_buttons = self.with_button(button, down).buttons;
        assert(((new_buttons & (1u8 << bit) != 0) == down) && (forall|b: u8|
            b < 2 && b != bit ==> ((new_buttons & (1u8 << b) != 0) == (old_buttons & (1u8 << b) != 0)))
            && new_buttons & 0xFC == old_buttons & 0xFC) by (bit_vector)
            requires
                bit < 2,
                mask == 1u8 << bit,
                new_buttons == if down {
                    old_buttons | mask
                } else {
                    old_buttons & !mask
                },
        ;
        assert forall|b: MouseButton| b != button implies #[trigger] self.with_button(
            button,
            down,
        ).button_down(b) == self.button_down(b) by {
            assert(button_bit(b) < 2 && button_bit(b) != bit);
        }
    }

    /// Two states with the same position and buttons are the same state.
    pub proof fn lemma_fields_determine(self, other: MouseState)
        requires
            self.spec_x() == other.spec_x(),
            self.spec_y() == other.spec_y(),
            self.spec_buttons() == other.spec_buttons(),
        ensures
            self == other,
    {
    }

    /// The state a packed word holds: bits 0-15, 16-31 and 32-39.
    pub closed spec fn spec_from_word(word: u64) -> MouseState {
        MouseState { x: word as u16, y: (word >> 16u64) as u16, buttons: (word >> 32u64) as u8 }
    }

    /// The packed form: x in bits 0-15, y in bits 16-31, buttons in bits
    /// 32-39.
    pub open spec fn spec_word(self) -> u64 {
        self.spec_x() as u64 | ((self.spec_y() as u64) << 16u64) | ((self.spec_buttons() as u64)
            << 32u64)
    }

    /// At the origin with no button held.
    pub fn new() -> (r: Self)
        ensures
            r == Self::spec_new(),
            r.spec_x() == 0,
            r.spec_y() == 0,
            r.spec_buttons() == 0,
    {
        Self { x: 0, y: 0, buttons: 0 }
    }

    /// Unpacks bits 0-15, 16-31 and 32-39; higher bits are ignored.
    pub fn from_word(word: u64) -> (r: Self)
        ensures
            r == Self::spec_from_word(word),
            r.spec_x() == word as u16,
            r.spec_y() == (word >> 16u64) as u16,
            r.spec_buttons() == (word >> 32u64) as u8,
    {
        Self { x: word as u16, y: (word >> 16u64) as u16, buttons: (word >> 32u64) as u8 }
    }

    #[verifier::when_used_as_spec(spec_word)]
    pub fn word(self) -> (r: u64)
        ensures
            r == self.spec_word(),
    {
        self.x as u64 | ((self.y as u64) << 16u64) | ((self.buttons as u64) << 32u64)
    }

    #[verifier::when_used_as_spec(spec_x)]
    pub fn x(self) -> (r: u16)
        ensures
            r == self.spec_x(),
    {
        self.x
    }

    #[verifier::when_used_as_spec(spec_y)]
    pub fn y(self) -> (r: u16)
        ensures
            r == self.spec_y(),
    {
        self.y
    }

    pub fn is_down(self, button: MouseButton) -> (r: bool)
        ensures
            r == self.button_down(button),
    {
        let bit: u8 = match button {
            MouseButton::Left => 0,
            MouseButton::Right => 1,
        };
        self.buttons & (1u8 << bit) != 0
    }

    pub fn set_position(&mut self, x: u16, y: u16)
        ensures
            *final(self) == old(self).with_position(x, y),
            final(self).spec_x() == x,
            final(self).spec_y() == y,
            final(self).spec_buttons() == old(self).spec_buttons(),
    {
        self.x = x;
        self.y = y;
    }

    /// Records `button` as held or released; the other button and the
    /// position do not change.
    pub fn set_button(&mut self, button: MouseButton, down: bool)
        ensures
            *final(self) == old(self).with_button(button, down),
            final(self).button_down(button) == down,
            forall|b: MouseButton| b != button ==> #[trigger] final(self).button_down(b) == old(
                self,
            ).button_down(b),
            final(self).spec_buttons() & 0xFC == old(self).spec_buttons() & 0xFC,
            final(self).spec_x() == old(self).spec_x(),
            final(self).spec_y() == old(self).spec_y(),
    {
        let bit: u8 = match button {
            MouseButton::Left => 0,
            MouseButton::Right => 1,
        };
        let mask = 1u8 << bit;
        let old_buttons = self.buttons;
        let new_buttons = if down {
            old_buttons | mask
        } else {
            old_buttons & !mask
        };
        self.buttons = new_buttons;
        proof {
            old(self).lemma_with_button(button, down);
        }
    }
}

impl Default for MouseState {
    fn default() -> (r: Self)
        ensures
            r.spec_x() == 0,
            r.spec_y() == 0,
            r.spec_buttons() == 0,
    {
        Self::new()
    }
}

/// Unpacking a packed mouse state gives the state back.
pub proof fn lemma_mouse_word_round_trip(state: MouseState)
    ensures
        ({
            let w = state.spec_word();
            &&& w as u16 == state.spec_x()
            &&& (w >> 16u64) as u16 == state.spec_y()
            &&& (w >> 32u64) as u8 == state.spec_buttons()
        }),
{
    let (x, y, b) = (state.spec_x(), state.spec_y(), state.spec_buttons());
    assert({
        let w = x as u64 | ((y as u64) << 16u64) | ((b as u64) << 32u64);
        &&& w as u16 == x
        &&& (w >> 16u64) as u16 == y
        &&& (w >> 32u64) as u8 == b
    }) by (bit_vector);
}

/// Packing an unpacked word keeps its low 40 bits.
pub proof fn lemma_mouse_word_of_unpacked(word: u64)
    ensures
        (word as u16 as u64) | (((word >> 16u64) as u16 as u64) << 16u64) | (((word >> 32u64) as u8
            as u64) << 32u64) == word & 0xFF_FFFF_FFFF,
{
    assert((word as u16 as u64) | (((word >> 16u64) as u16 as u64) << 16u64) | (((word >> 32u64)
        as u8 as u64) << 32u64) == word & 0xFF_FFFF_FFFFu64) by (bit_vector);
}

/// Packing a state and unpacking the word gives the same state back, and
/// unpacking a word and packing the state keeps the word's low 40 bits.
pub proof fn lemma_mouse_state_round_trip(state: MouseState, word: u64)
    ensures
        MouseState::spec_from_word(state.spec_word()) == state,
        MouseState::spec_from_word(word).spec_word() == word & 0xFF_FFFF_FFFF,
        MouseState::spec_from_word(word).spec_x() == word as u16,
        MouseState::spec_from_word(word).spec_y() == (word >> 16u64) as u16,
        MouseState::spec_from_word(word).spec_buttons() == (word >> 32u64) as u8,
{
    lemma_mouse_word_round_trip(state);
    lemma_mouse_word_of_unpacked(word);
    MouseState::spec_from_word(state.spec_word()).lemma_fields_determine(state);
}

} // verus!
