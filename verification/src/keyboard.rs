use vstd::prelude::*;

use pc_keyboard::layouts::Us104Key;
use pc_keyboard::{DecodedKey, HandleControl, PS2Keyboard, ScancodeSet1};

use crate::protocol::{key_code, KeyInput, KB_GET_CHAR, KB_GET_CHAR_POLL, KEY_BACKSPACE, KEY_NONE};
use crate::shell::{input_effect, EditAction, LineEditor};

verus! {

/// Scancode the raw keyboard endpoint answers with when no key is waiting.
pub const NO_SCANCODE: u8 = 0xFF;

/// What the keyboard server does after fetching one scancode for a request.
#[derive(Debug, Clone, Copy, PartialEq, Eq)]
pub enum KbStep {
    /// Answer the request with this character code.
    Reply(u32),
    /// Yield and fetch another scancode.
    Retry,
}

/// The answer for a decoded key: its character code, or another try when
/// the key has no code or no key was completed.
pub open spec fn spec_reply_for_key(key: Option<KeyInput>) -> KbStep {
    match key {
        Some(KeyInput::Unicode(c)) => KbStep::Reply(c as u32),
        Some(KeyInput::Backspace) => KbStep::Reply(KEY_BACKSPACE),
        _ => KbStep::Retry,
    }
}

/// Turns a decoded key into the server's next step.
pub fn reply_for_key(key: Option<KeyInput>) -> (r: KbStep)
    ensures
        r == spec_reply_for_key(key),
{
    match key {
        Some(k) => match key_code(k) {
            Some(code) => KbStep::Reply(code),
            None => KbStep::Retry,
        },
        None => KbStep::Retry,
    }
}

/// The step for one scancode fetched for a request with tag `request_tag`,
/// `key` being what the decoder made of it.
pub open spec fn spec_handle_scancode(request_tag: u32, scancode: u8, key: Option<KeyInput>) -> KbStep {
    if scancode != NO_SCANCODE {
        spec_reply_for_key(key)
    } else if request_tag == KB_GET_CHAR_POLL {
        KbStep::Reply(KEY_NONE)
    } else {
        KbStep::Retry
    }
}

/// Handles one scancode fetched for a request with tag `request_tag`. A real
/// scancode is run through the keyboard decoder first and `key` is what the
/// decoder made of it: a completed key is answered, anything else is tried
/// again. "No scancode" answers a poll with the no-key code and makes a
/// blocking request try again.
pub fn handle_scancode(request_tag: u32, scancode: u8, key: Option<KeyInput>) -> (r: KbStep)
    ensures
        r == spec_handle_scancode(request_tag, scancode, key),
{
    if scancode != NO_SCANCODE {
        reply_for_key(key)
    } else if request_tag == KB_GET_CHAR_POLL {
        KbStep::Reply(KEY_NONE)
    } else {
        KbStep::Retry
    }
}

/// A fetched scancode is answered the same way for a blocking and a polling
/// request: once the decoder has made a key of it, a key with a character
/// is answered with that character's code (backspace with 8), whatever the
/// request's tag, and a key without one, or no key yet, means another try;
/// only "no scancode" tells the two requests apart, answering a poll with
/// the no-key code and sending a blocking request round again.
pub proof fn law_scancode_reply_ignores_poll(tag: u32, other_tag: u32, scancode: u8, key: Option<KeyInput>)
    ensures
        scancode != NO_SCANCODE ==> spec_handle_scancode(tag, scancode, key) == spec_handle_scancode(
            other_tag,
            scancode,
            key,
        ),
        scancode != NO_SCANCODE && key is Some && key->Some_0 is Unicode ==> spec_handle_scancode(
            tag,
            scancode,
            key,
        ) == KbStep::Reply(key->Some_0->Unicode_0 as u32),
        scancode != NO_SCANCODE && key == Some(KeyInput::Backspace) ==> spec_handle_scancode(
            tag,
            scancode,
            key,
        ) == KbStep::Reply(8),
        scancode != NO_SCANCODE && (key is None || key == Some(KeyInput::OtherRaw)) ==> spec_handle_scancode(
            tag,
            scancode,
            key,
        ) == KbStep::Retry,
        scancode == NO_SCANCODE ==> spec_handle_scancode(KB_GET_CHAR_POLL, scancode, key) == KbStep::Reply(
            KEY_NONE,
        ) && spec_handle_scancode(KB_GET_CHAR, scancode, key) == KbStep::Retry,
{
}

/// The requests the keyboard server answers: blocking and polling reads.
pub fn is_key_request(tag: u32) -> (b: bool)
    ensures
        b == (tag == KB_GET_CHAR || tag == KB_GET_CHAR_POLL),
{
    tag == KB_GET_CHAR || tag == KB_GET_CHAR_POLL
}

/// The key a PS/2 decoder of `pc_keyboard` (scancode set 1, US 104-key
/// layout, Ctrl combinations not mapped) reports for the last of the bytes
/// `fed`, those being every byte fed to it since it was made, in order; `None`
/// when that byte completes no key. The decoder is a deterministic state
/// machine over those bytes (its state is the modifiers held down and a
/// multi-byte sequence under way), so the key is a function of them, named
/// here and not written out.
pub uninterp spec fn ps2_decoded(fed: Seq<u8>) -> Option<KeyInput>;

/// The `pc_keyboard` decoder itself.
#[verifier::external_body]
struct Ps2Core {
    kb: PS2Keyboard<Us104Key, ScancodeSet1>,
}

/// A decoder in its initial state, made by `PS2Keyboard::new` with
/// `ScancodeSet1::new()`, `Us104Key` and `HandleControl::Ignore`.
#[verifier::external_body]
fn new_core() -> Ps2Core {
    Ps2Core { kb: PS2Keyboard::new(ScancodeSet1::new(), Us104Key, HandleControl::Ignore) }
}

/// A PS/2 keyboard decoder, with the bytes fed to it so far.
pub struct KeyDecoder {
    core: Ps2Core,
    fed: Ghost<Seq<u8>>,
}

impl KeyDecoder {
    /// The bytes fed to the decoder since it was made, in order.
    pub closed spec fn fed(&self) -> Seq<u8> {
        self.fed@
    }

    /// A decoder in its initial state, fed nothing yet.
    pub fn new() -> (d: KeyDecoder)
        ensures
            d.fed() == Seq::<u8>::empty(),
    {
        KeyDecoder { core: new_core(), fed: Ghost(Seq::empty()) }
    }

    /// Feeds one scancode to `PS2Keyboard::add_byte` and, once that
    /// completes a key event, the event to `process_keyevent`, converting
    /// the decoded key (a character, or a key without one) to a `KeyInput`;
    /// `None` when no key was completed (a prefix byte, a key release, a byte
    /// the decoder rejects). The core has been fed exactly the bytes `fed()`
    /// records (this is the only place it is fed), so the key is
    /// `ps2_decoded` of those bytes with the scancode appended.
    #[verifier::external_body]
    fn feed_core(&mut self, scancode: u8) -> (r: Option<KeyInput>)
        ensures
            final(self).fed() == old(self).fed(),
            r == ps2_decoded(old(self).fed().push(scancode)),
    {
        let event = self.core.kb.add_byte(scancode).ok()??;
        match self.core.kb.process_keyevent(event)? {
            DecodedKey::Unicode(c) => Some(KeyInput::Unicode(c)),
            DecodedKey::RawKey(_) => Some(KeyInput::OtherRaw),
        }
    }

    /// Feeds one scancode to the decoder: the key it completes, if any.
    pub fn decode(&mut self, scancode: u8) -> (r: Option<KeyInput>)
        ensures
            final(self).fed() == old(self).fed().push(scancode),
            r == ps2_decoded(final(self).fed()),
    {
        let r = self.feed_core(scancode);
        self.fed = Ghost(self.fed@.push(scancode));
        r
    }
}

/// One scancode typed at the console shell: it is fed to the decoder, and
/// the key it completes (if any; otherwise the line is left alone) is handed
/// to the line editor. Returns the key and what the terminal must do.
pub fn shell_step(editor: &mut LineEditor, dec: &mut KeyDecoder, scancode: u8) -> (r: Option<(KeyInput, EditAction)>)
    requires
        old(editor).wf(),
    ensures
        final(dec).fed() == old(dec).fed().push(scancode),
        final(editor).wf(),
        final(editor).capacity() == old(editor).capacity(),
        r is None <==> ps2_decoded(final(dec).fed()) is None,
        r is None ==> final(editor)@ == old(editor)@,
        r matches Some((key, action)) ==> ps2_decoded(final(dec).fed()) == Some(key) && input_effect(
            *old(editor),
            *final(editor),
            key,
            action,
        ),
{
    match dec.decode(scancode) {
        Some(key) => {
            let action = editor.handle_input(key);
            Some((key, action))
        },
        None => None,
    }
}

/// One scancode fetched by the keyboard server for a request with tag
/// `request_tag`: a real scancode is fed to the decoder ("no scancode" is
/// not), and the step follows `handle_scancode` for the key it completes.
/// Returns that key and the step.
pub fn serve_scancode(dec: &mut KeyDecoder, request_tag: u32, scancode: u8) -> (r: (Option<KeyInput>, KbStep))
    ensures
        scancode != NO_SCANCODE ==> final(dec).fed() == old(dec).fed().push(scancode) && r.0
            == ps2_decoded(final(dec).fed()),
        scancode == NO_SCANCODE ==> final(dec).fed() == old(dec).fed() && r.0 is None,
        r.1 == spec_handle_scancode(request_tag, scancode, r.0),
{
    let key = if scancode != NO_SCANCODE {
        dec.decode(scancode)
    } else {
        None
    };
    (key, handle_scancode(request_tag, scancode, key))
}

} // verus!
