//! Laws of the indented stream, stated over the model that the writer's
//! contracts use.
use vstd::prelude::*;
use crate::model::{
    body, emitted, indentation, line_start_after, lowered, opens_line, raised, raised_times,
    MAX_DEPTH, NEWLINE,
};

verus! {

/// After `n` increases the depth is `min(depth + n * step, 255)`.
pub proof fn lemma_raised_times_closed_form(depth: u8, step: u8, n: nat)
    ensures
        raised_times(depth, step, n) as int == if depth + n * step > MAX_DEPTH {
            MAX_DEPTH as int
        } else {
            depth + n * step
        },
    decreases n,
{
    if n > 0 {
        lemma_raised_times_closed_form(depth, step, (n - 1) as nat);
        assert(n * step == (n - 1) * step + step) by (nonlinear_arith);
        assert((n - 1) * step >= 0) by (nonlinear_arith)
            requires
                n >= 1,
        ;
    }
}

/// With no indentation to insert, the body of a write is the input itself.
pub proof fn lemma_body_without_indentation(s: Seq<u8>)
    ensures
        body(s, Seq::empty()) == s,
    decreases s.len(),
{
    if s.len() > 0 {
        let i = s.len() - 1;
        lemma_body_without_indentation(s.take(i));
        assert(s.take(i).push(s[i]) =~= s);
        assert(s.take(i) + Seq::<u8>::empty() + seq![s[i]] =~= s);
    }
}

/// A write of one byte, after the first line has been dealt with, is that
/// byte alone.
pub proof fn lemma_body_single(b: u8, ind: Seq<u8>)
    ensures
        body(seq![b], ind) == seq![b],
{
    let s = seq![b];
    assert(s.take(0) =~= Seq::<u8>::empty());
    assert(body(Seq::<u8>::empty(), ind) == Seq::<u8>::empty());
    assert(Seq::<u8>::empty().push(b) =~= s);
}

/// Raising a fresh writer's depth once and then writing `x` sends exactly
/// `step` copies of the symbol, then `x`.
pub proof fn lemma_first_raise_indents(step: u8, symbol: char)
    ensures
        emitted(raised(0, step), symbol, true, seq![120u8]) == indentation(step as nat, symbol)
            + seq![120u8],
{
    let s = seq![120u8];
    let ind = indentation(step as nat, symbol);
    lemma_body_single(120u8, ind);
}

/// However many times the depth is raised, once `n * step` passes `255` the
/// depth is exactly `255`: it saturates and never wraps.
pub proof fn lemma_raise_saturates(depth: u8, step: u8, n: nat)
    requires
        n * step > MAX_DEPTH,
    ensures
        raised_times(depth, step, n) == MAX_DEPTH,
{
    lemma_raised_times_closed_form(depth, step, n);
}

/// Lowering a depth of `0` leaves it at `0`.
pub proof fn lemma_lower_floor(step: u8)
    ensures
        lowered(0, step) == 0,
{
}

/// Writing `a\n\nb` at the start of a line indents both content lines and
/// leaves the blank line between them without indentation.
pub proof fn lemma_blank_line_kept(depth: u8, symbol: char)
    ensures
        emitted(depth, symbol, true, seq![97u8, 10u8, 10u8, 98u8]) == indentation(
            depth as nat,
            symbol,
        ) + seq![97u8, 10u8, 10u8] + indentation(depth as nat, symbol) + seq![98u8],
{
    let s = seq![97u8, 10u8, 10u8, 98u8];
    let ind = indentation(depth as nat, symbol);
    assert(s.take(0) =~= Seq::<u8>::empty());
    assert(s.take(1) =~= seq![97u8]);
    assert(s.take(2) =~= seq![97u8, 10u8]);
    assert(s.take(3) =~= seq![97u8, 10u8, 10u8]);
    assert(s.take(1).take(0) =~= Seq::<u8>::empty());
    assert(s.take(2).take(1) =~= s.take(1));
    assert(s.take(3).take(2) =~= s.take(2));
    lemma_body_single(97u8, ind);
    assert(body(s.take(1), ind) =~= seq![97u8]);
    assert(body(s.take(2), ind) =~= seq![97u8, 10u8]);
    assert(body(s.take(3), ind) =~= seq![97u8, 10u8, 10u8]);
    assert(body(s, ind) =~= seq![97u8, 10u8, 10u8] + ind + seq![98u8]);
    assert(emitted(depth, symbol, true, s) =~= ind + seq![97u8, 10u8, 10u8] + ind + seq![98u8]);
}

/// Writing `a` and then `b` in two calls, with no newline, indents the line
/// once: before `a`.
pub proof fn lemma_line_continues(depth: u8, symbol: char)
    ensures
        !line_start_after(true, seq![97u8]),
        emitted(depth, symbol, true, seq![97u8]) + emitted(
            depth,
            symbol,
            line_start_after(true, seq![97u8]),
            seq![98u8],
        ) == indentation(depth as nat, symbol) + seq![97u8, 98u8],
{
    let ind = indentation(depth as nat, symbol);
    assert(seq![97u8].take(0) =~= Seq::<u8>::empty());
    assert(seq![98u8].take(0) =~= Seq::<u8>::empty());
    lemma_body_single(97u8, ind);
    lemma_body_single(98u8, ind);
    assert(ind + seq![97u8] + seq![98u8] =~= ind + seq![97u8, 98u8]);
}

/// Writing `a\n` and then `b` in two calls indents both lines: the second
/// call finds the writer at the start of a line.
pub proof fn lemma_resume_after_newline(depth: u8, symbol: char)
    ensures
        line_start_after(true, seq![97u8, 10u8]),
        emitted(depth, symbol, true, seq![97u8, 10u8]) + emitted(
            depth,
            symbol,
            line_start_after(true, seq![97u8, 10u8]),
            seq![98u8],
        ) == indentation(depth as nat, symbol) + seq![97u8, 10u8] + indentation(
            depth as nat,
            symbol,
        ) + seq![98u8],
{
    let s = seq![97u8, 10u8];
    let ind = indentation(depth as nat, symbol);
    assert(s.take(0) =~= Seq::<u8>::empty());
    assert(s.take(1) =~= seq![97u8]);
    assert(s.take(1).take(0) =~= Seq::<u8>::empty());
    assert(seq![98u8].take(0) =~= Seq::<u8>::empty());
    lemma_body_single(97u8, ind);
    assert(body(s.take(1), ind) =~= seq![97u8]);
    assert(body(s, ind) =~= seq![97u8, 10u8]);
    lemma_body_single(98u8, ind);
}

/// With a step of `0`, no number of increases makes indentation visible:
/// every write sends its input byte for byte.
pub proof fn lemma_zero_step_is_silent(n: nat, symbol: char, at_line_start: bool, s: Seq<u8>)
    ensures
        raised_times(0, 0, n) == 0,
        emitted(raised_times(0, 0, n), symbol, at_line_start, s) == s,
{
    lemma_raised_times_closed_form(0, 0, n);
    assert(n * 0 == 0) by (nonlinear_arith);
    assert(indentation(0, symbol) =~= Seq::<u8>::empty());
    lemma_body_without_indentation(s);
    assert(Seq::<u8>::empty() + s =~= s);
}

/// A non-empty write ends on the last byte of its input, so the writer stands
/// at the start of a line afterwards exactly when the last byte it sent is a
/// newline.
pub proof fn lemma_line_start_follows_last_byte(
    depth: u8,
    symbol: char,
    at_line_start: bool,
    s: Seq<u8>,
)
    requires
        s.len() > 0,
    ensures
        emitted(depth, symbol, at_line_start, s).len() > 0,
        emitted(depth, symbol, at_line_start, s).last() == s.last(),
        line_start_after(at_line_start, s) == (emitted(depth, symbol, at_line_start, s).last()
            == NEWLINE),
{
    let ind = indentation(depth as nat, symbol);
    let i = s.len() - 1;
    let prev = body(s.take(i), ind);
    if opens_line(s, i) {
        assert((prev + ind + seq![s[i]]).last() == s[i]);
    } else {
        assert(prev.push(s[i]).last() == s[i]);
    }
    assert(body(s, ind).last() == s.last());
    if at_line_start {
        assert((ind + body(s, ind)).last() == body(s, ind).last());
    }
}

/// The body of a joined input is the two bodies, with indentation between
/// them exactly when the first part ends a line and the second opens the next
/// one with content.
pub proof fn lemma_body_append(s1: Seq<u8>, s2: Seq<u8>, ind: Seq<u8>)
    ensures
        body(s1 + s2, ind) == body(s1, ind) + (if s1.len() > 0 && s2.len() > 0 && s1.last()
            == NEWLINE && s2[0] != NEWLINE {
            ind
        } else {
            Seq::<u8>::empty()
        }) + body(s2, ind),
    decreases s2.len(),
{
    if s2.len() == 0 {
        assert(s1 + s2 =~= s1);
        assert(body(s1, ind) + Seq::<u8>::empty() + Seq::<u8>::empty() =~= body(s1, ind));
    } else {
        let j = s2.len() - 1;
        let t = s2.take(j);
        let b = s2[j];
        let k = s1.len() + j;
        lemma_body_append(s1, t, ind);
        assert((s1 + s2).take(k) =~= s1 + t);
        if j == 0 {
            assert(t =~= Seq::<u8>::empty());
            assert(s1 + t =~= s1);
            lemma_body_single(b, ind);
            assert(s2 =~= seq![b]);
            if opens_line(s1 + s2, k) {
                assert(body(s1 + s2, ind) =~= body(s1, ind) + ind + seq![b]);
            } else {
                assert(body(s1 + s2, ind) =~= body(s1, ind) + Seq::<u8>::empty() + seq![b]);
            }
        } else {
            assert(opens_line(s1 + s2, k) == opens_line(s2, j));
            assert(t[0] == s2[0]);
            let glue = if s1.len() > 0 && s1.last() == NEWLINE && s2[0] != NEWLINE {
                ind
            } else {
                Seq::<u8>::empty()
            };
            if opens_line(s2, j) {
                assert(body(s1 + s2, ind) =~= body(s1, ind) + glue + body(s2, ind));
            } else {
                assert(body(s1 + s2, ind) =~= body(s1, ind) + glue + body(s2, ind));
            }
        }
    }
}

/// Splitting an input over two writes sends the same bytes, and leaves the
/// same line state, as writing it in one call: the output depends on the
/// byte stream alone.
pub proof fn lemma_split_writes_agree(
    depth: u8,
    symbol: char,
    at_line_start: bool,
    s1: Seq<u8>,
    s2: Seq<u8>,
)
    ensures
        emitted(depth, symbol, at_line_start, s1) + emitted(
            depth,
            symbol,
            line_start_after(at_line_start, s1),
            s2,
        ) == emitted(depth, symbol, at_line_start, s1 + s2),
        line_start_after(line_start_after(at_line_start, s1), s2) == line_start_after(
            at_line_start,
            s1 + s2,
        ),
{
    let ind = indentation(depth as nat, symbol);
    if s1.len() == 0 {
        assert(s1 + s2 =~= s2);
        assert(Seq::<u8>::empty() + emitted(depth, symbol, at_line_start, s2) =~= emitted(
            depth,
            symbol,
            at_line_start,
            s2,
        ));
    } else if s2.len() == 0 {
        assert(s1 + s2 =~= s1);
        assert(emitted(depth, symbol, at_line_start, s1) + Seq::<u8>::empty() =~= emitted(
            depth,
            symbol,
            at_line_start,
            s1,
        ));
    } else {
        lemma_body_append(s1, s2, ind);
        assert((s1 + s2)[0] == s1[0]);
        assert((s1 + s2).last() == s2.last());
        let lead = if at_line_start && s1[0] != NEWLINE {
            ind
        } else {
            Seq::<u8>::empty()
        };
        assert(emitted(depth, symbol, at_line_start, s1) =~= lead + body(s1, ind));
        assert(emitted(depth, symbol, at_line_start, s1 + s2) =~= lead + body(s1 + s2, ind));
    }
}

} // verus!
