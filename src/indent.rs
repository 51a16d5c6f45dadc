//! The indented writer.
use vstd::prelude::*;
use crate::model::{
    body, emitted, indentation, line_start_after, lowered, opens_line, raised, MAX_DEPTH,
    NEWLINE,
};
use crate::symbol::{encode_utf8, utf8_of};

verus! {

/// A writer that puts indentation before the content of each line.
///
/// Build it with `new`, or with `from_writer` for four spaces per level, and
/// move the depth with `more` and `less`. Bytes handed to `write` are
/// appended to the borrowed sink, with `depth` copies of the symbol placed
/// before the first content byte of each line. Blank lines stay blank.
///
/// The sink is borrowed for the writer's whole life. Verified code reads what
/// the writer has sent with `take_written`, whose contract gives those bytes.
pub struct Indent<'a> {
    output: &'a mut Vec<u8>,
    indent_step: u8,
    indent_symbol: char,
    current_indent: u8,
    first_line: bool,
}

impl<'a> Indent<'a> {
    /// The bytes that the sink holds.
    pub closed spec fn written(&self) -> Seq<u8> {
        self.output@
    }

    /// How much one call of `more` or `less` moves the depth.
    pub closed spec fn step(&self) -> u8 {
        self.indent_step
    }

    /// The character that indentation is made of.
    pub closed spec fn symbol(&self) -> char {
        self.indent_symbol
    }

    /// The current indentation width, counted in symbols.
    pub closed spec fn depth(&self) -> u8 {
        self.current_indent
    }

    /// Whether the next content byte opens a line and gets indentation first.
    pub closed spec fn at_line_start(&self) -> bool {
        self.first_line
    }

    /// A writer onto `output` that indents by four spaces per level.
    pub fn from_writer(output: &'a mut Vec<u8>) -> (r: Indent<'a>)
        ensures
            r.written() == old(output)@,
            r.step() == 4,
            r.symbol() == ' ',
            r.depth() == 0,
            r.at_line_start(),
    {
        Self::new(output, 4, ' ')
    }

    /// A writer onto `output` whose depth moves by `indent_step` copies of
    /// `indent_symbol` per level. It starts at depth `0`, at the start of a
    /// line.
    pub fn new(output: &'a mut Vec<u8>, indent_step: u8, indent_symbol: char) -> (r: Indent<'a>)
        ensures
            r.written() == old(output)@,
            r.step() == indent_step,
            r.symbol() == indent_symbol,
            r.depth() == 0,
            r.at_line_start(),
    {
        Indent { output, indent_step, indent_symbol, current_indent: 0, first_line: true }
    }

    /// Raises the depth by one step, saturating at `255`. Returns the writer
    /// itself, so calls can be chained.
    pub fn more(&mut self) -> (r: &mut Indent<'a>)
        ensures
            r.depth() == raised(old(self).depth(), old(self).step()),
            r.written() == old(self).written(),
            r.step() == old(self).step(),
            r.symbol() == old(self).symbol(),
            r.at_line_start() == old(self).at_line_start(),
            *final(self) == *final(r),
    {
        let next_indent: u16 = self.current_indent as u16 + self.indent_step as u16;
        self.current_indent = if next_indent > MAX_DEPTH as u16 {
            MAX_DEPTH
        } else {
            next_indent as u8
        };
        self
    }

    /// Lowers the depth by one step, stopping at `0`. Returns the writer
    /// itself, so calls can be chained.
    pub fn less(&mut self) -> (r: &mut Indent<'a>)
        ensures
            r.depth() == lowered(old(self).depth(), old(self).step()),
            r.written() == old(self).written(),
            r.step() == old(self).step(),
            r.symbol() == old(self).symbol(),
            r.at_line_start() == old(self).at_line_start(),
            *final(self) == *final(r),
    {
        let next_indent: i16 = self.current_indent as i16 - self.indent_step as i16;
        self.current_indent = if next_indent < 0 {
            0
        } else {
            next_indent as u8
        };
        self
    }

    /// Appends one run of indentation to the sink.
    fn write_indent(&mut self)
        ensures
            final(self).written() == old(self).written() + indentation(
                old(self).depth() as nat,
                old(self).symbol(),
            ),
            final(self).step() == old(self).step(),
            final(self).symbol() == old(self).symbol(),
            final(self).depth() == old(self).depth(),
            final(self).at_line_start() == old(self).at_line_start(),
    {
        let encoded = encode_utf8(self.indent_symbol);
        let mut n: u8 = 0;
        while n < self.current_indent
            invariant
                n <= self.current_indent,
                encoded@ == utf8_of(self.indent_symbol),
                self.output@ == old(self).output@ + indentation(n as nat, self.indent_symbol),
                self.indent_step == old(self).indent_step,
                self.indent_symbol == old(self).indent_symbol,
                self.current_indent == old(self).current_indent,
                self.first_line == old(self).first_line,
            decreases self.current_indent - n,
        {
            let ghost before = self.output@;
            let mut k: usize = 0;
            while k < encoded.len()
                invariant
                    k <= encoded@.len(),
                    self.output@ == before + encoded@.take(k as int),
                    self.indent_step == old(self).indent_step,
                    self.indent_symbol == old(self).indent_symbol,
                    self.current_indent == old(self).current_indent,
                    self.first_line == old(self).first_line,
                decreases encoded@.len() - k,
            {
                self.output.push(encoded[k]);
                k += 1;
                assert(encoded@.take(k as int) =~= encoded@.take(k - 1).push(encoded@[k - 1]));
            }
            assert(encoded@.take(encoded@.len() as int) =~= encoded@);
            n += 1;
            assert(self.output@ =~= old(self).output@ + indentation(n as nat, self.indent_symbol));
        }
    }
    /// Writes `s` through the writer and returns how many bytes of `s` were
    /// taken, which is all of them. Indentation is placed before the first
    /// byte when the writer stands at the start of a line and that byte is
    /// content, and before each content byte that follows a newline in `s`;
    /// a newline that opens a line gets none, so blank lines stay blank. Afterwards the writer
    /// stands at the start of a line when `s` ended in a newline. An empty
    /// `s` changes nothing.
    pub fn write(&mut self, s: &[u8]) -> (r: usize)
        ensures
            r == s@.len(),
            final(self).written() == old(self).written() + emitted(
                old(self).depth(),
                old(self).symbol(),
                old(self).at_line_start(),
                s@,
            ),
            final(self).at_line_start() == line_start_after(old(self).at_line_start(), s@),
            final(self).step() == old(self).step(),
            final(self).symbol() == old(self).symbol(),
            final(self).depth() == old(self).depth(),
    {
        let n = s.len();
        if n == 0 {
            return 0;
        }
        let ghost ind = indentation(self.current_indent as nat, self.indent_symbol);
        if self.first_line && s[0] != NEWLINE {
            self.write_indent();
            self.first_line = false;
        }
        let ghost start = self.output@;
        assert(s@.take(0) =~= Seq::<u8>::empty());
        let mut i: usize = 0;
        while i < n
            invariant
                i <= n,
                n == s@.len(),
                ind == indentation(self.current_indent as nat, self.indent_symbol),
                self.output@ == start + body(s@.take(i as int), ind),
                self.indent_step == old(self).indent_step,
                self.indent_symbol == old(self).indent_symbol,
                self.current_indent == old(self).current_indent,
            decreases n - i,
        {
            let ghost t = s@.take(i + 1);
            assert(t.take(i as int) =~= s@.take(i as int));
            assert(opens_line(t, i as int) == opens_line(s@, i as int));
            if i > 0 && s[i - 1] == NEWLINE && s[i] != NEWLINE {
                self.write_indent();
            }
            self.output.push(s[i]);
            i += 1;
            assert(self.output@ =~= start + body(t, ind));
        }
        assert(s@.take(n as int) =~= s@);
        self.first_line = s[n - 1] == NEWLINE;
        n
    }

    /// Moves the bytes written so far out of the sink, leaving it empty, so
    /// that a caller can forward them to a stream of its own. The depth and
    /// the line state are kept.
    pub fn take_written(&mut self) -> (r: Vec<u8>)
        ensures
            r@ == old(self).written(),
            final(self).written() == Seq::<u8>::empty(),
            final(self).step() == old(self).step(),
            final(self).symbol() == old(self).symbol(),
            final(self).depth() == old(self).depth(),
            final(self).at_line_start() == old(self).at_line_start(),
    {
        let mut taken: Vec<u8> = Vec::new();
        core::mem::swap(&mut *self.output, &mut taken);
        taken
    }
}

} // verus!
