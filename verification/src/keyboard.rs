//! The PS/2 keyboard decoder of the `pc_keyboard` crate, as the keyboard
//! interrupt uses it: scancode bytes in, key events out, key events in,
//! decoded keys out.
//!
//! The decoder is a deterministic state machine: what `add_byte` returns is
//! fixed by the scancode bytes fed to it since it was made, and what
//! `process_keyevent` returns is fixed by the key events fed to it since it
//! was made. `Keyboard` keeps both histories as ghost state, and the two
//! results are named over them.
use vstd::prelude::*;
use pc_keyboard::layouts::Us104Key;
use pc_keyboard::{DecodedKey, HandleControl, KeyEvent, PS2Keyboard, ScancodeSet1};

verus! {

/// The `pc_keyboard` decoder itself: scancode set 1, US 104-key layout, Ctrl
/// passed through as a plain modifier. Its fields are private to
/// `pc_keyboard` and opaque here.
#[verifier::external_body]
struct Us104Decoder {
    inner: PS2Keyboard<Us104Key, ScancodeSet1>,
}

/// `PS2Keyboard::new(ScancodeSet1::new(), Us104Key, HandleControl::Ignore)`:
/// a fresh decoder. Nothing is claimed of it beyond its type; what it goes
/// on to return is named by `scancode_event` and `decoded_key` below.
#[verifier::external_body]
fn new_us104_decoder() -> (decoder: Us104Decoder) {
    Us104Decoder { inner: PS2Keyboard::new(ScancodeSet1::new(), Us104Key, HandleControl::Ignore) }
}

/// The keyboard decoder, with the scancode bytes and the key events fed to
/// it since it was made.
pub struct Keyboard {
    decoder: Us104Decoder,
    bytes: Ghost<Seq<u8>>,
    events: Ghost<Seq<KeyEvent>>,
}

/// What `PS2Keyboard::add_byte` returns for the last of `bytes`, when a
/// fresh decoder has been fed exactly `bytes`, in order. Scancode set 1
/// keeps only its decode state (a pending 0xE0 / 0xE1 prefix), which those
/// bytes fix.
pub uninterp spec fn scancode_event(bytes: Seq<u8>) -> Result<Option<KeyEvent>, pc_keyboard::Error>;

/// What `PS2Keyboard::process_keyevent` returns for the last of `events`,
/// when a fresh decoder has been fed exactly `events`, in order. It keeps
/// only the modifier state (shift, ctrl, alt, caps and num lock), which
/// those events fix.
pub uninterp spec fn decoded_key(events: Seq<KeyEvent>) -> Option<DecodedKey>;

impl Keyboard {
    /// The scancode bytes fed to the decoder, oldest first.
    pub closed spec fn bytes_fed(&self) -> Seq<u8> {
        self.bytes@
    }

    /// The key events fed to the decoder, oldest first.
    pub closed spec fn events_fed(&self) -> Seq<KeyEvent> {
        self.events@
    }

    /// A fresh decoder: nothing fed yet.
    pub fn new() -> (keyboard: Keyboard)
        ensures
            keyboard.bytes_fed() == Seq::<u8>::empty(),
            keyboard.events_fed() == Seq::<KeyEvent>::empty(),
    {
        Keyboard { decoder: new_us104_decoder(), bytes: Ghost(Seq::empty()), events: Ghost(Seq::empty()) }
    }
}

#[verifier::external_type_specification]
#[verifier::external_body]
pub struct ExKeyEvent(KeyEvent);

#[verifier::external_type_specification]
#[verifier::external_body]
pub struct ExDecodedKey(DecodedKey);

#[verifier::external_type_specification]
#[verifier::external_body]
pub struct ExKeyboardError(pc_keyboard::Error);

/// `PS2Keyboard::add_byte` on the decoder: feeds one scancode byte to its
/// scancode-set state machine, which is all it touches (the modifier state
/// is left alone). Claimed: the byte joins the byte history, and the result
/// is `scancode_event` of that history.
#[verifier::external_body]
pub(crate) fn add_byte(keyboard: &mut Keyboard, byte: u8) -> (event: Result<
    Option<KeyEvent>,
    pc_keyboard::Error,
>)
    ensures
        final(keyboard).bytes_fed() == old(keyboard).bytes_fed().push(byte),
        final(keyboard).events_fed() == old(keyboard).events_fed(),
        event == scancode_event(final(keyboard).bytes_fed()),
{
    keyboard.decoder.inner.add_byte(byte)
}

/// `PS2Keyboard::process_keyevent` on the decoder: turns a key event into a
/// decoded key under the current modifier state, updating that state, which
/// is all it touches (the scancode decode state is left alone). Claimed:
/// the event joins the event history, and the result is `decoded_key` of
/// that history.
#[verifier::external_body]
pub(crate) fn process_keyevent(keyboard: &mut Keyboard, event: KeyEvent) -> (key: Option<DecodedKey>)
    ensures
        final(keyboard).events_fed() == old(keyboard).events_fed().push(event),
        final(keyboard).bytes_fed() == old(keyboard).bytes_fed(),
        key == decoded_key(final(keyboard).events_fed()),
{
    keyboard.decoder.inner.process_keyevent(event)
}

} // verus!
