//! Framing of outgoing commands.
//!
//! An outgoing command becomes a wire line by appending the two-character line
//! terminator, carriage return and line feed. Nothing else is changed: a command
//! that already carries a terminator keeps it and gets a second one.

use vstd::prelude::*;
use crate::text::ends_with;

verus! {

/// The line terminator: carriage return, line feed.
pub open spec fn line_end() -> Seq<char> {
    seq!['\r', '\n']
}

/// The wire line of an outgoing command.
pub open spec fn framed(text: Seq<char>) -> Seq<char> {
    text + line_end()
}

/// Each command framed for the wire.
pub open spec fn framed_all(commands: Seq<Seq<char>>) -> Seq<Seq<char>> {
    Seq::new(commands.len(), |i: int| framed(commands[i]))
}

/// A line terminator stands at position `k` of `s`.
pub open spec fn line_end_at(s: Seq<char>, k: int) -> bool {
    0 <= k && k + 1 < s.len() && s[k] == '\r' && s[k + 1] == '\n'
}

/// Frames an outgoing command for the wire.
pub fn frame(text: &str) -> (line: String)
    ensures
        line@ == framed(text@),
{
    proof {
        reveal_strlit("\r\n");
    }
    let mut line = text.to_owned();
    line.append("\r\n");
    line
}

/// Frames each command for the wire.
pub fn frame_all(commands: &Vec<String>) -> (lines: Vec<String>)
    ensures
        lines.deep_view() == framed_all(commands.deep_view()),
{
    let mut lines: Vec<String> = Vec::new();
    let mut k: usize = 0;
    while k < commands.len()
        invariant
            k <= commands.len(),
            lines.len() == k,
            forall|i: int| 0 <= i < k ==> lines[i]@ == framed(commands[i]@),
        decreases commands.len() - k,
    {
        lines.push(frame(commands[k].as_str()));
        k += 1;
    }
    lines
}

/// Every framed line is the command followed by one line terminator: it closes
/// with the terminator, is two characters longer than the command, and holds a
/// terminator wherever the command held one and at its end, nowhere else.
pub proof fn lemma_framed_ends_line(text: Seq<char>)
    ensures
        ends_with(framed(text), line_end()),
        framed(text).len() == text.len() + 2,
        framed(text).take(text.len() as int) == text,
        forall|k: int|
            line_end_at(framed(text), k) <==> (line_end_at(text, k) || k == text.len()),
{
    let line = framed(text);
    assert(line.skip(line.len() - 2) =~= line_end());
}

/// A command that does not itself close with a line terminator is framed to a
/// line that closes with exactly one.
pub proof fn lemma_framed_ends_one_line(text: Seq<char>)
    requires
        !ends_with(text, line_end()),
    ensures
        ends_with(framed(text), line_end()),
        !ends_with(framed(text), line_end() + line_end()),
{
    let line = framed(text);
    let twice = line_end() + line_end();
    assert(line.skip(line.len() - 2) =~= line_end());
    if ends_with(line, twice) {
        // the first of the two terminators is the end of the command
        let cut = line.skip(line.len() - 4);
        assert(cut[0] == '\r' && cut[1] == '\n');
        assert(text.skip(text.len() - 2) =~= line_end());
    }
}

} // verus!
