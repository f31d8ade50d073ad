//! Key presses and the one-line text that tells the guest about each.
use vstd::prelude::*;
use crate::render::{CARRIAGE_RETURN, LINE_FEED};

verus! {

/// crossterm's `KeyCode`, with its variants visible: the library reads
/// which key was pressed straight from it.
#[verifier::external_type_specification]
pub struct ExKeyCode(crossterm::event::KeyCode);

/// serde_json's error, opaque; a key event never produces one.
#[verifier::external_type_specification]
#[verifier::external_body]
pub struct ExJsonError(serde_json::Error);

/// One key press: the key and its modifier bits (shift 1, control 2,
/// alt 4, as crossterm numbers them).
#[derive(Clone, Copy, Debug)]
pub struct KeyPress {
    pub code: crossterm::event::KeyCode,
    pub modifiers: u8,
}

/// A terminal event as the interaction loop sees it.
pub enum TermEvent {
    Key(KeyPress),
    /// Anything that is not a key press (a resize, the mouse): it carries
    /// no input for the guest.
    Other,
}

/// The compact JSON of crossterm's `KeyEvent` for this key.
pub uninterp spec fn json_of_key(key: KeyPress) -> Seq<u8>;

/// Relies on `serde_json::to_vec` of crossterm's `KeyEvent` (code and
/// modifiers, with unknown modifier bits dropped): the compact JSON of the
/// event, which depends on the key alone. It succeeds: `to_vec` fails only
/// where a `Serialize` impl fails or a map has non-string keys, and the
/// derived impl of `KeyEvent` covers an enum of plain variants and a `u8`
/// bit set, written into a `Vec`.
#[verifier::external_body]
fn key_event_json(key: &KeyPress) -> (r: Result<Vec<u8>, serde_json::Error>)
    ensures
        r is Ok,
        r matches Ok(v) ==> v@ == json_of_key(*key),
{
    let modifiers = crossterm::event::KeyModifiers::from_bits_truncate(key.modifiers);
    serde_json::to_vec(&crossterm::event::KeyEvent::new(key.code, modifiers))
}

/// The key that ends the session: `q`, whatever the modifiers.
pub open spec fn is_quit_spec(key: KeyPress) -> bool {
    key.code == crossterm::event::KeyCode::Char('q')
}

/// The line that carries an encoded key: the encoding, then a carriage
/// return and a line feed.
pub open spec fn key_line_spec(encoded: Seq<u8>) -> Seq<u8> {
    encoded + seq![CARRIAGE_RETURN, LINE_FEED]
}

/// Whether this key press ends the session.
pub fn is_quit_key(key: &KeyPress) -> (r: bool)
    ensures
        r == is_quit_spec(*key),
{
    match key.code {
        crossterm::event::KeyCode::Char(c) => c == 'q',
        _ => false,
    }
}

/// Frames an encoded key as one line.
pub fn key_line(encoded: &[u8]) -> (r: Vec<u8>)
    ensures
        r@ == key_line_spec(encoded@),
{
    let mut line: Vec<u8> = Vec::new();
    let mut i: usize = 0;
    while i < encoded.len()
        invariant
            0 <= i <= encoded@.len(),
            line@ == encoded@.take(i as int),
        decreases encoded@.len() - i,
    {
        line.push(encoded[i]);
        i = i + 1;
        assert(encoded@.take(i as int) == encoded@.take(i - 1).push(encoded@[i - 1]));
    }
    assert(encoded@.take(i as int) == encoded@);
    line.push(CARRIAGE_RETURN);
    line.push(LINE_FEED);
    line
}

/// The line that tells the guest about `key`.
pub fn encode_key(key: &KeyPress) -> (r: Vec<u8>)
    ensures
        r@ == key_line_spec(json_of_key(*key)),
{
    match key_event_json(key) {
        Ok(json) => key_line(json.as_slice()),
        // Never taken: serializing a key event does not fail.
        Err(_) => Vec::new(),
    }
}

} // verus!
