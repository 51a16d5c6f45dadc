//! The mathematical model of an indented stream: what a depth change does to
//! the depth, and which bytes reach the sink for a given write.
use vstd::prelude::*;
use crate::symbol::utf8_of;

verus! {

/// The newline byte, which ends a line.
pub const NEWLINE: u8 = 10;

/// The largest depth: adjustments saturate here instead of wrapping.
pub const MAX_DEPTH: u8 = 255;

/// The depth after one increase: `min(depth + step, 255)`.
pub open spec fn raised(depth: u8, step: u8) -> u8 {
    if depth + step > MAX_DEPTH { MAX_DEPTH } else { (depth + step) as u8 }
}

/// The depth after one decrease: `max(depth - step, 0)`.
pub open spec fn lowered(depth: u8, step: u8) -> u8 {
    if depth < step { 0 } else { (depth - step) as u8 }
}

/// The depth after `n` increases in a row.
pub open spec fn raised_times(depth: u8, step: u8, n: nat) -> u8
    decreases n,
{
    if n == 0 { depth } else { raised(raised_times(depth, step, (n - 1) as nat), step) }
}

/// The bytes of one run of indentation: `depth` copies of the symbol.
pub open spec fn indentation(depth: nat, symbol: char) -> Seq<u8>
    decreases depth,
{
    if depth == 0 {
        Seq::empty()
    } else {
        indentation((depth - 1) as nat, symbol) + utf8_of(symbol)
    }
}

/// Whether position `i` of `s` opens a line inside `s`: the byte before it is
/// a newline and the byte itself is content.
pub open spec fn opens_line(s: Seq<u8>, i: int) -> bool {
    0 < i < s.len() && s[i - 1] == NEWLINE && s[i] != NEWLINE
}

/// The bytes forwarded for `s` once the first line of `s` has been dealt
/// with: every byte of `s` in order, with `ind` placed before each content
/// byte that directly follows a newline. Blank lines get no indentation.
pub open spec fn body(s: Seq<u8>, ind: Seq<u8>) -> Seq<u8>
    decreases s.len(),
{
    if s.len() == 0 {
        Seq::empty()
    } else {
        let i = s.len() - 1;
        let prev = body(s.take(i), ind);
        if opens_line(s, i) {
            prev + ind + seq![s[i]]
        } else {
            prev.push(s[i])
        }
    }
}

/// The bytes that reach the sink when `s` is written at the given depth and
/// symbol, with `at_line_start` telling whether the stream stands at the start
/// of a line. An empty write sends nothing. Otherwise, when the stream stands
/// at the start of a line and `s` opens with content, the indentation comes
/// first, then `body`; a line that `s` opens with a newline stays blank.
pub open spec fn emitted(depth: u8, symbol: char, at_line_start: bool, s: Seq<u8>) -> Seq<u8> {
    if s.len() == 0 {
        Seq::empty()
    } else if at_line_start && s[0] != NEWLINE {
        indentation(depth as nat, symbol) + body(s, indentation(depth as nat, symbol))
    } else {
        body(s, indentation(depth as nat, symbol))
    }
}

/// Whether the stream stands at the start of a line after `s` is written: an
/// empty write changes nothing, otherwise it does when `s` ends in a newline.
pub open spec fn line_start_after(at_line_start: bool, s: Seq<u8>) -> bool {
    if s.len() == 0 { at_line_start } else { s.last() == NEWLINE }
}

} // verus!
