//! The PS/2 keyboard: scancodes decoded by `pc_keyboard`'s Set 1 decoder,
//! and the held keys they record.
use crate::input::{KEY_CODE_LIMIT, KeyboardState};
use pc_keyboard::Error as DecodeError;
use pc_keyboard::{KeyState, ScancodeSet, ScancodeSet1};
use vstd::prelude::*;

verus! {

/// The number of key codes that `pc_keyboard` defines: its `KeyCode`
/// variants number 0 to 124.
pub const KEY_CODE_COUNT: u8 = 125;

#[verifier::external_type_specification]
#[verifier::external_body]
pub struct ExScancodeSet1(ScancodeSet1);

#[verifier::external_type_specification]
#[verifier::external_body]
pub struct ExKeyboardError(DecodeError);

/// `pc_keyboard::ScancodeSet1::new`: a decoder at the start of a scancode
/// sequence. Nothing is claimed of the value.
pub assume_specification[ ScancodeSet1::new ]() -> ScancodeSet1;

/// A key going down or up, or both at once.
#[derive(Debug, Clone, Copy, PartialEq, Eq, Structural)]
pub enum KeyTransition {
    Up,
    Down,
    SingleShot,
}

/// A decoded key event: the key code (the number of `pc_keyboard`'s
/// `KeyCode` variant) and what happened to the key.
#[derive(Debug, Clone, Copy, PartialEq, Eq, Structural)]
pub struct KeyEvent {
    pub key: u8,
    pub transition: KeyTransition,
}

/// `pc_keyboard`'s Set 1 decoder. Its view is the bytes it has been fed
/// since it started, which decide the state it is in.
pub struct Set1Decoder {
    decoder: ScancodeSet1,
    fed: Ghost<Seq<u8>>,
}

impl View for Set1Decoder {
    type V = Seq<u8>;

    closed spec fn view(&self) -> Seq<u8> {
        self.fed@
    }
}

impl Set1Decoder {
    /// A decoder at the start of a scancode sequence.
    pub fn new() -> (r: Self)
        ensures
            r@ == Seq::<u8>::empty(),
    {
        Set1Decoder { decoder: ScancodeSet1::new(), fed: Ghost(Seq::empty()) }
    }
}

/// What `pc_keyboard`'s Set 1 decoder answers to `scancode` after it was
/// fed the bytes `fed` from its start state: `None` for an error, `Some`
/// of the key event that the byte completes, if any.
pub uninterp spec fn set1_decode(fed: Seq<u8>, scancode: u8) -> Option<Option<KeyEvent>>;

/// A decoder outcome as plain values: `None` for an error.
pub open spec fn decoded(outcome: Result<Option<KeyEvent>, DecodeError>) -> Option<Option<KeyEvent>> {
    match outcome {
        Ok(event) => Some(event),
        Err(_) => None,
    }
}

/// Feeds one scancode byte to `pc_keyboard`'s Set 1 decoder
/// (`ScancodeSet::advance_state`): an event when a scancode sequence is
/// complete, nothing in the middle of a sequence, or an error for a code
/// the decoder does not know. The contract names the outcome as a function
/// of the bytes fed before and of this one, and claims that a key code is
/// one of `pc_keyboard`'s 125 key codes.
#[verifier::external_body]
fn advance_state(decoder: &mut Set1Decoder, scancode: u8) -> (r: Result<Option<KeyEvent>, DecodeError>)
    ensures
        decoded(r) == set1_decode(old(decoder)@, scancode),
        final(decoder)@ == old(decoder)@.push(scancode),
        r matches Ok(Some(event)) ==> event.key < KEY_CODE_COUNT,
{
    match decoder.decoder.advance_state(scancode) {
        Ok(Some(event)) => {
            let transition = match event.state {
                KeyState::Up => KeyTransition::Up,
                KeyState::Down => KeyTransition::Down,
                KeyState::SingleShot => KeyTransition::SingleShot,
            };
            Ok(Some(KeyEvent { key: event.code as u8, transition }))
        },
        Ok(None) => Ok(None),
        Err(error) => Err(error),
    }
}

/// The held keys after a decoder outcome: a key going down is held, a key
/// going up is released, and nothing else (an error included) changes
/// anything.
pub open spec fn state_after(state: KeyboardState, outcome: Option<Option<KeyEvent>>) -> KeyboardState {
    match outcome {
        Some(Some(event)) => match event.transition {
            KeyTransition::Down => state.with_key(event.key, true),
            KeyTransition::Up => state.with_key(event.key, false),
            KeyTransition::SingleShot => state,
        },
        _ => state,
    }
}

/// After an outcome, a key that went down is held and one that went up is
/// released, every other key is as it was; an error, an incomplete
/// sequence or a single-shot key changes nothing.
pub proof fn lemma_state_after(state: KeyboardState, outcome: Option<Option<KeyEvent>>)
    requires
        outcome matches Some(Some(event)) ==> event.key < KEY_CODE_LIMIT,
    ensures
        match outcome {
            Some(Some(event)) => match event.transition {
                KeyTransition::SingleShot => state_after(state, outcome) == state,
                _ => {
                    &&& state_after(state, outcome).key_down(event.key) == (event.transition
                        == KeyTransition::Down)
                    &&& forall|k: u8|
                        k < KEY_CODE_LIMIT && k != event.key ==> #[trigger] state_after(
                            state,
                            outcome,
                        ).key_down(k) == state.key_down(k)
                },
            },
            _ => state_after(state, outcome) == state,
        },
{
    if let Some(Some(event)) = outcome {
        match event.transition {
            KeyTransition::Down => state.lemma_with_key(event.key, true),
            KeyTransition::Up => state.lemma_with_key(event.key, false),
            KeyTransition::SingleShot => {},
        }
    }
}

/// A keyboard: the scancode decoder and the keys held.
pub struct Keyboard {
    decoder: Set1Decoder,
    state: KeyboardState,
}

impl Keyboard {
    pub closed spec fn spec_state(&self) -> KeyboardState {
        self.state
    }

    /// The scancode bytes the keyboard has been fed.
    pub closed spec fn spec_fed(&self) -> Seq<u8> {
        self.decoder@
    }

    /// No key held, nothing fed.
    pub fn new() -> (r: Self)
        ensures
            r.spec_state() == KeyboardState::spec_new(),
            r.spec_fed() == Seq::<u8>::empty(),
    {
        Self { decoder: Set1Decoder::new(), state: KeyboardState::new() }
    }

    #[verifier::when_used_as_spec(spec_state)]
    pub fn state(&self) -> (r: KeyboardState)
        ensures
            r == self.spec_state(),
    {
        self.state
    }

    /// Records a decoder outcome in the held keys.
    pub fn apply(&mut self, outcome: Result<Option<KeyEvent>, DecodeError>)
        requires
            outcome matches Ok(Some(event)) ==> event.key < KEY_CODE_LIMIT,
        ensures
            final(self).spec_state() == state_after(old(self).spec_state(), decoded(outcome)),
            final(self).spec_fed() == old(self).spec_fed(),
    {
        if let Ok(Some(event)) = outcome {
            match event.transition {
                KeyTransition::Down => self.state.set_key(event.key, true),
                KeyTransition::Up => self.state.set_key(event.key, false),
                KeyTransition::SingleShot => {},
            }
        }
    }

    /// Decodes one scancode and records the key event it completes, if any:
    /// the held keys change as the decoder's outcome for this byte, after
    /// the bytes fed before, says.
    pub fn handle_scancode(&mut self, scancode: u8)
        ensures
            final(self).spec_fed() == old(self).spec_fed().push(scancode),
            final(self).spec_state() == state_after(
                old(self).spec_state(),
                set1_decode(old(self).spec_fed(), scancode),
            ),
    {
        let outcome = advance_state(&mut self.decoder, scancode);
        self.apply(outcome);
    }
}

} // verus!
