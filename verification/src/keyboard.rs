//! The scancode decoder of the `pc_keyboard` crate, as far as the keyboard interrupt
//! uses it. The decoder's tables and its state are the crate's own: what is said of
//! them here is taken on trust. What a decoder returns is named, not written out: it
//! depends on nothing but the bytes it has been fed and the key events it has
//! processed since it was made.

use pc_keyboard::layouts::Us104Key;
use pc_keyboard::{DecodedKey, Error, HandleControl, KeyCode, KeyEvent, Keyboard, ScancodeSet1};
use vstd::prelude::*;

verus! {

/// The decoder of this kernel, a `pc_keyboard::Keyboard` for scancode set 1 on a
/// United States layout, with its state, which lasts from one interrupt to the next.
/// What it holds is the crate's own and hidden here.
#[verifier::external_body]
pub struct Decoder {
    inner: Keyboard<Us104Key, ScancodeSet1>,
}

/// The bytes that a decoder has been fed since it was made, oldest first. A decoder
/// takes in bytes through `Keyboard::add_byte` and in no other way here; what it is
/// about to decode depends on them.
pub uninterp spec fn bytes_fed(keyboard: Decoder) -> Seq<u8>;

/// The key events that a decoder has processed since it was made, oldest first. The
/// modifiers that a decoder holds change through `Keyboard::process_keyevent` and in
/// no other way.
pub uninterp spec fn events_processed(keyboard: Decoder) -> Seq<KeyEvent>;

/// What `Keyboard::add_byte` makes of the last byte of `fed`, on a decoder for
/// scancode set 1 that has been fed these bytes and no others: a key event, nothing
/// yet, or an error.
pub uninterp spec fn event_decoded(fed: Seq<u8>) -> Result<Option<KeyEvent>, Error>;

/// What `Keyboard::process_keyevent` makes of `event`, on a decoder for the United
/// States layout that has processed the events `processed` and no others: a
/// character, a key that has none, or nothing.
pub uninterp spec fn key_decoded(processed: Seq<KeyEvent>, event: KeyEvent) -> Option<Key>;

/// `pc_keyboard::KeyEvent`: a key and whether it went down or up.
#[verifier::external_type_specification]
#[verifier::external_body]
pub struct ExKeyEvent(KeyEvent);

/// `pc_keyboard::KeyCode`: the name of a key.
#[verifier::external_type_specification]
#[verifier::external_body]
pub struct ExKeyCode(KeyCode);

/// `pc_keyboard::Error`: why a byte could not be decoded.
#[verifier::external_type_specification]
#[verifier::external_body]
pub struct ExError(Error);

/// What a key event decodes to: a character, or a key that has none.
pub enum Key {
    Unicode(char),
    RawKey(KeyCode),
}

impl Decoder {
    /// A decoder that has seen no byte and no key event yet.
    pub fn new() -> (keyboard: Decoder)
        ensures
            bytes_fed(keyboard) == Seq::<u8>::empty(),
            events_processed(keyboard) == Seq::<KeyEvent>::empty(),
    {
        new_decoder()
    }
}

/// `Keyboard::new`, with `ScancodeSet1::new`, the layout `Us104Key` and
/// `HandleControl::Ignore`: a decoder in its first state, which has been fed nothing
/// and has processed nothing.
#[verifier::external_body]
pub(crate) fn new_decoder() -> (keyboard: Decoder)
    ensures
        bytes_fed(keyboard) == Seq::<u8>::empty(),
        events_processed(keyboard) == Seq::<KeyEvent>::empty(),
{
    Decoder { inner: Keyboard::new(ScancodeSet1::new(), Us104Key, HandleControl::Ignore) }
}

/// `Keyboard::add_byte`: feeds one scancode byte to the decoder, which takes it in
/// whether or not the byte completes a key, and processes no key event. The state
/// of the scancode set starts as `ScancodeSet1::new` makes it and changes here
/// alone, so that the result is a matter of the bytes fed so far.
#[verifier::external_body]
pub(crate) fn add_byte(keyboard: &mut Decoder, scancode: u8) -> (result: Result<
    Option<KeyEvent>,
    Error,
>)
    ensures
        bytes_fed(*final(keyboard)) == bytes_fed(*old(keyboard)).push(scancode),
        events_processed(*final(keyboard)) == events_processed(*old(keyboard)),
        result == event_decoded(bytes_fed(*final(keyboard))),
{
    keyboard.inner.add_byte(scancode)
}

/// `Keyboard::process_keyevent`: decodes a key event under the modifiers now held,
/// and feeds the decoder no byte. The modifiers start as `Keyboard::new` sets them
/// and change here alone, and the layout and the handling of the control keys are
/// fixed, so that the result is a matter of the events processed before and of this
/// one.
#[verifier::external_body]
pub(crate) fn process_keyevent(keyboard: &mut Decoder, event: KeyEvent) -> (key: Option<Key>)
    ensures
        bytes_fed(*final(keyboard)) == bytes_fed(*old(keyboard)),
        events_processed(*final(keyboard)) == events_processed(*old(keyboard)).push(event),
        key == key_decoded(events_processed(*old(keyboard)), event),
{
    match keyboard.inner.process_keyevent(event) {
        Some(DecodedKey::Unicode(character)) => Some(Key::Unicode(character)),
        Some(DecodedKey::RawKey(code)) => Some(Key::RawKey(code)),
        None => None,
    }
}

/// `char::to_string` of std: the string that holds the one character.
#[verifier::external_body]
pub(crate) fn char_text(character: char) -> (text: String)
    ensures
        text@ == seq![character],
{
    character.to_string()
}

} // verus!
