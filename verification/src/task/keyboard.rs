//! Decoding of raw keyboard scancodes into key presses, with the `pc_keyboard`
//! decoder for a US 104-key layout and scancode set 1.

use vstd::prelude::*;

verus! {

use pc_keyboard::layouts::Us104Key;
use pc_keyboard::{DecodedKey, HandleControl, KeyCode, Keyboard, ScancodeSet1};

/// The keyboard decoder of `pc_keyboard` for scancode set 1 and the US
/// 104-key layout: a scancode-set state machine followed by a layout and
/// modifier tracker. Its state is opaque: the contracts speak of it only
/// through the bytes it has been fed and the Ctrl handling it was made with.
#[verifier::external_body]
pub struct KeyDecoder {
    kb: Keyboard<Us104Key, ScancodeSet1>,
}

/// A physical key, as `pc_keyboard` names it.
#[verifier::external_type_specification]
#[verifier::external_body]
pub struct ExKeyCode(KeyCode);

/// How `pc_keyboard` treats letters typed with Ctrl held down.
#[verifier::external_type_specification]
pub struct ExHandleControl(HandleControl);

/// A decoded key press: a character, or a key that has none.
#[derive(Debug, Clone, Copy, PartialEq, Eq)]
pub enum Key {
    Unicode(char),
    Raw(KeyCode),
}

/// The bytes fed to a decoder since it was made.
pub uninterp spec fn keyboard_fed(k: KeyDecoder) -> Seq<u8>;

/// The Ctrl handling that a decoder was made with.
pub uninterp spec fn keyboard_ctrl(k: KeyDecoder) -> HandleControl;

/// What a decoder made with Ctrl handling `ctrl` yields on the last of `bytes`,
/// after all of `bytes` were fed to it in order.
pub uninterp spec fn key_after(ctrl: HandleControl, bytes: Seq<u8>) -> Option<Key>;

/// A fresh decoder with Ctrl handling `ctrl`.
///
/// Calls `Keyboard::new` with scancode set 1 and the US 104-key layout; the
/// decoder has been fed nothing.
#[verifier::external_body]
fn new_decoder(ctrl: HandleControl) -> (r: KeyDecoder)
    ensures
        keyboard_fed(r) == Seq::<u8>::empty(),
        keyboard_ctrl(r) == ctrl,
{
    KeyDecoder { kb: Keyboard::new(ScancodeSet1::new(), Us104Key, ctrl) }
}

/// Feeds one byte to a decoder.
///
/// Calls `Keyboard::add_byte`, and, when that completes a key event,
/// `Keyboard::process_keyevent` on it; a byte that the scancode set refuses
/// yields nothing. Both are deterministic state machines, so what comes back
/// is a function of the Ctrl handling and of all bytes fed so far.
#[verifier::external_body]
fn feed_byte(k: &mut KeyDecoder, byte: u8) -> (r: Option<Key>)
    ensures
        keyboard_fed(*final(k)) == keyboard_fed(*old(k)).push(byte),
        keyboard_ctrl(*final(k)) == keyboard_ctrl(*old(k)),
        r == key_after(keyboard_ctrl(*old(k)), keyboard_fed(*final(k))),
{
    match k.kb.add_byte(byte) {
        Ok(Some(event)) => match k.kb.process_keyevent(event) {
            Some(DecodedKey::Unicode(c)) => Some(Key::Unicode(c)),
            Some(DecodedKey::RawKey(code)) => Some(Key::Raw(code)),
            None => None,
        },
        _ => None,
    }
}

/// Keyboard input being decoded: the decoder and what it has been fed.
pub struct KeyInput {
    keyboard: KeyDecoder,
}

impl KeyInput {
    /// The scancodes decoded so far, in order.
    pub closed spec fn fed(&self) -> Seq<u8> {
        keyboard_fed(self.keyboard)
    }

    /// The Ctrl handling of the decoder.
    pub closed spec fn ctrl(&self) -> HandleControl {
        keyboard_ctrl(self.keyboard)
    }

    /// A fresh decoder that leaves letters typed with Ctrl as letters.
    pub fn new() -> (r: KeyInput)
        ensures
            r.fed() == Seq::<u8>::empty(),
            r.ctrl() == HandleControl::Ignore,
    {
        KeyInput { keyboard: new_decoder(HandleControl::Ignore) }
    }

    /// Decodes one scancode: the key press it completes, if any.
    pub fn decode_scancode(&mut self, scancode: u8) -> (r: Option<Key>)
        ensures
            final(self).fed() == old(self).fed().push(scancode),
            final(self).ctrl() == old(self).ctrl(),
            r == key_after(old(self).ctrl(), final(self).fed()),
    {
        feed_byte(&mut self.keyboard, scancode)
    }
}

} // verus!
