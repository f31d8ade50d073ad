//! Line endings for a terminal in raw mode, where a line feed does not
//! return the cursor to the first column.
use vstd::prelude::*;
use crate::pipe::all_ascii;

verus! {

pub const LINE_FEED: u8 = 10;

pub const CARRIAGE_RETURN: u8 = 13;

/// The ending written after each line in raw mode.
pub open spec fn raw_line_end() -> Seq<u8> {
    seq![LINE_FEED, CARRIAGE_RETURN]
}

/// `text` with each line ending (a line feed, or a carriage return and a
/// line feed) replaced by the raw-mode ending.
pub open spec fn raw_body(text: Seq<u8>) -> Seq<u8>
    decreases text.len(),
{
    if text.len() == 0 {
        Seq::<u8>::empty()
    } else if text.last() == LINE_FEED {
        if text.len() >= 2 && text[text.len() - 2] == CARRIAGE_RETURN {
            raw_body(text.take(text.len() - 2)) + raw_line_end()
        } else {
            raw_body(text.drop_last()) + raw_line_end()
        }
    } else {
        raw_body(text.drop_last()).push(text.last())
    }
}

/// Every line of `text` followed by the raw-mode ending; a last line
/// without an ending gets one, and empty text is one empty line.
pub open spec fn raw_lines(text: Seq<u8>) -> Seq<u8> {
    if text.len() > 0 && text.last() == LINE_FEED {
        raw_body(text)
    } else {
        raw_body(text) + raw_line_end()
    }
}

/// Rewrites `text` for a raw-mode terminal: every line ends in a line feed
/// followed by a carriage return.
pub fn to_raw_lines(text: &[u8]) -> (r: Vec<u8>)
    ensures
        r@ == raw_lines(text@),
{
    let mut out: Vec<u8> = Vec::new();
    let mut i: usize = 0;
    while i < text.len()
        invariant
            0 <= i <= text@.len(),
            out@ == raw_body(text@.take(i as int)),
        decreases text@.len() - i,
    {
        let b = text[i];
        let ghost prefix = text@.take(i as int);
        let ghost next = text@.take(i + 1);
        assert(next.drop_last() == prefix);
        if b == LINE_FEED {
            if i > 0 && text[i - 1] == CARRIAGE_RETURN {
                assert(next.take(next.len() - 2) == text@.take(i - 1));
                assert(prefix.drop_last() == text@.take(i - 1));
                assert(out@ == raw_body(text@.take(i - 1)).push(CARRIAGE_RETURN));
                out.pop();
            }
            out.push(LINE_FEED);
            out.push(CARRIAGE_RETURN);
            assert(out@ == raw_body(next));
        } else {
            out.push(b);
        }
        i = i + 1;
    }
    assert(text@.take(i as int) == text@);
    if text.len() == 0 || text[text.len() - 1] != LINE_FEED {
        out.push(LINE_FEED);
        out.push(CARRIAGE_RETURN);
    }
    out
}

/// Rewriting line endings keeps ASCII text ASCII.
pub proof fn lemma_raw_lines_ascii(text: Seq<u8>)
    requires
        all_ascii(text),
    ensures
        all_ascii(raw_lines(text)),
{
    lemma_raw_body_ascii(text);
}

proof fn lemma_raw_body_ascii(text: Seq<u8>)
    requires
        all_ascii(text),
    ensures
        all_ascii(raw_body(text)),
    decreases text.len(),
{
    if text.len() > 0 {
        if text.last() == LINE_FEED && text.len() >= 2 && text[text.len() - 2] == CARRIAGE_RETURN {
            let head = text.take(text.len() - 2);
            assert(all_ascii(head));
            lemma_raw_body_ascii(head);
        } else {
            let head = text.drop_last();
            assert(all_ascii(head));
            lemma_raw_body_ascii(head);
        }
    }
}

} // verus!
