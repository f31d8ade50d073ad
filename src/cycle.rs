//! One turn of the interaction loop, from the host's side: render what the
//! guest wrote, then hand the guest the next key, if any.
use vstd::prelude::*;
use crate::keys::{encode_key, is_quit_key, is_quit_spec, json_of_key, key_line_spec, TermEvent};
use crate::pipe::{all_ascii, appended, ascii_chars, decode_lossy, lossy_text, Pipe};
use crate::render::{lemma_raw_lines_ascii, raw_lines, to_raw_lines};
use vstd::string::StringSliceAdditionalSpecFns;

verus! {

/// What the host writes into the guest's input before its first call.
pub const PRIMING_INPUT: &'static str = "Here is a spicy input!\n";

/// What the loop does after an event has been handed over.
#[derive(Clone, Copy, Debug, PartialEq, Eq, Structural)]
pub enum Step {
    /// Call the guest's `handle_key` entry point.
    CallGuest,
    /// Leave the loop without calling the guest again.
    Quit,
}

/// The text shown for what the guest wrote: its lines, each ending for a
/// raw-mode terminal, decoded leniently.
pub open spec fn rendered(output: Seq<u8>) -> Seq<char> {
    lossy_text(raw_lines(output))
}

/// Takes everything the guest wrote and returns it as terminal text; the
/// output pipe is left empty, so that it grows by one cycle's text at most.
pub fn drain_output(output: &mut Pipe) -> (text: String)
    ensures
        text@ == rendered(old(output)@),
        all_ascii(old(output)@) ==> text@ == ascii_chars(raw_lines(old(output)@)),
        final(output)@ == Seq::<u8>::empty(),
{
    let raw = to_raw_lines(output.buffer.as_slice());
    proof {
        if all_ascii(output@) {
            lemma_raw_lines_ascii(output@);
        }
    }
    output.clear();
    decode_lossy(raw.as_slice())
}

/// Replaces the guest's input with one line for `event`. The quit key is
/// never handed over, and an event that is not a key hands over nothing.
pub fn deliver_event(input: &mut Pipe, event: &TermEvent) -> (r: Step)
    ensures
        match event {
            TermEvent::Other => r == Step::CallGuest && final(input)@ == Seq::<u8>::empty(),
            TermEvent::Key(key) => if is_quit_spec(*key) {
                r == Step::Quit && final(input)@ == Seq::<u8>::empty()
            } else {
                r == Step::CallGuest && final(input)@ == key_line_spec(json_of_key(*key))
            },
        },
{
    input.clear();
    match event {
        TermEvent::Other => Step::CallGuest,
        TermEvent::Key(key) => {
            if is_quit_key(key) {
                Step::Quit
            } else {
                let line = encode_key(key);
                input.write(line.as_slice());
                Step::CallGuest
            }
        },
    }
}

/// Appends the fixed priming line to the guest's input, ahead of the first
/// `handle_key` and `start` calls.
pub fn prime_input(input: &mut Pipe)
    ensures
        final(input)@ == appended(old(input)@, PRIMING_INPUT.spec_bytes()),
{
    input.write(PRIMING_INPUT.as_bytes());
}

/// The index of the menu entry that answer `choice` names, counting from
/// 1, among `count` entries; `None` where no entry has that number.
pub fn menu_choice(choice: usize, count: usize) -> (r: Option<usize>)
    ensures
        1 <= choice <= count ==> r == Some((choice - 1) as usize),
        !(1 <= choice <= count) ==> r is None,
{
    if 1 <= choice && choice <= count {
        Some(choice - 1)
    } else {
        None
    }
}

/// Output lags input by one cycle: a drain leaves the output empty, so what
/// the guest writes during the call that follows is exactly what the next
/// drain renders, with nothing of what was there before.
pub proof fn lemma_one_cycle_latency(written: Seq<u8>)
    ensures
        appended(Seq::<u8>::empty(), written) == written,
        rendered(appended(Seq::<u8>::empty(), written)) == rendered(written),
{
    assert(Seq::<u8>::empty() + written =~= written);
}

} // verus!
