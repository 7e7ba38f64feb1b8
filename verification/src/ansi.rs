//! Encoding paint operations into terminal control sequences.
//!
//! The cursor-movement, screen-clear and synchronized-update sequences are
//! produced by crossterm's command types; their exact text is stated here
//! and taken on trust, so everything built on top of them is checked
//! against the very bytes crossterm will emit.

use vstd::prelude::*;
use crate::display::{PaintOp, move_in_range};

verus! {

/// The ANSI control sequence introducer.
pub open spec fn csi() -> Seq<char> {
    seq!['\x1b', '[']
}

/// The character for a single decimal digit.
pub open spec fn digit_char(d: nat) -> char {
    if d == 0 {
        '0'
    } else if d == 1 {
        '1'
    } else if d == 2 {
        '2'
    } else if d == 3 {
        '3'
    } else if d == 4 {
        '4'
    } else if d == 5 {
        '5'
    } else if d == 6 {
        '6'
    } else if d == 7 {
        '7'
    } else if d == 8 {
        '8'
    } else {
        '9'
    }
}

/// The usual decimal rendering of `n`, most significant digit first, no
/// leading zeros.
pub open spec fn dec_digits(n: nat) -> Seq<char>
    decreases n,
{
    if n < 10 {
        seq![digit_char(n)]
    } else {
        dec_digits(n / 10).push(digit_char(n % 10))
    }
}

/// The sequence crossterm's `MoveTo(col, row)` writes: cursor position,
/// one-based, row first.
pub open spec fn move_to_ansi(col: u16, row: u16) -> Seq<char> {
    csi() + dec_digits((row + 1) as nat) + seq![';'] + dec_digits((col + 1) as nat) + seq!['H']
}

/// The sequence crossterm's `Clear(ClearType::All)` writes.
pub open spec fn clear_all_ansi() -> Seq<char> {
    csi() + seq!['2', 'J']
}

/// The sequence crossterm's `BeginSynchronizedUpdate` writes.
pub open spec fn begin_sync_ansi() -> Seq<char> {
    csi() + seq!['?', '2', '0', '2', '6', 'h']
}

/// The sequence crossterm's `EndSynchronizedUpdate` writes.
pub open spec fn end_sync_ansi() -> Seq<char> {
    csi() + seq!['?', '2', '0', '2', '6', 'l']
}

/// A one-character stream.
pub open spec fn char_seq(c: char) -> Seq<char> {
    seq![c]
}

/// What one paint operation contributes to the output stream.
pub open spec fn op_ansi(op: PaintOp) -> Seq<char> {
    match op {
        PaintOp::BeginSync => begin_sync_ansi(),
        PaintOp::MoveTo(col, row) => move_to_ansi(col, row),
        PaintOp::ClearAll => clear_all_ansi(),
        PaintOp::Glyph(c) => char_seq(c),
        PaintOp::EndSync => end_sync_ansi(),
    }
}

/// The whole output stream of a list of paint operations, in order.
pub open spec fn ops_ansi(ops: Seq<PaintOp>) -> Seq<char>
    decreases ops.len(),
{
    if ops.len() == 0 {
        Seq::empty()
    } else {
        ops_ansi(ops.drop_last()) + op_ansi(ops.last())
    }
}

/// Relies on crossterm's `cursor::MoveTo` command: its ANSI form is
/// `CSI {row+1};{col+1}H` with ordinary decimal numbers. The command adds
/// the 1 in `u16` arithmetic, so a coordinate at `u16::MAX` would overflow
/// rather than produce that text; such coordinates are excluded here.
#[verifier::external_body]
fn emit_move_to(out: &mut String, col: u16, row: u16)
    requires
        col < u16::MAX,
        row < u16::MAX,
    ensures
        final(out)@ == old(out)@ + move_to_ansi(col, row),
{
    let _ = crossterm::Command::write_ansi(&crossterm::cursor::MoveTo(col, row), out);
}

/// Relies on crossterm's `terminal::Clear` command: clearing all cells
/// writes `CSI 2J`.
#[verifier::external_body]
fn emit_clear_all(out: &mut String)
    ensures
        final(out)@ == old(out)@ + clear_all_ansi(),
{
    let _ = crossterm::Command::write_ansi(
        &crossterm::terminal::Clear(crossterm::terminal::ClearType::All),
        out,
    );
}

/// Relies on crossterm's `terminal::BeginSynchronizedUpdate` command: it
/// writes `CSI ?2026h`.
#[verifier::external_body]
fn emit_begin_sync(out: &mut String)
    ensures
        final(out)@ == old(out)@ + begin_sync_ansi(),
{
    let _ = crossterm::Command::write_ansi(&crossterm::terminal::BeginSynchronizedUpdate, out);
}

/// Relies on crossterm's `terminal::EndSynchronizedUpdate` command: it
/// writes `CSI ?2026l`.
#[verifier::external_body]
fn emit_end_sync(out: &mut String)
    ensures
        final(out)@ == old(out)@ + end_sync_ansi(),
{
    let _ = crossterm::Command::write_ansi(&crossterm::terminal::EndSynchronizedUpdate, out);
}

/// Relies on `String::push`: appends exactly the one character.
#[verifier::external_body]
fn push_char(out: &mut String, c: char)
    ensures
        final(out)@ == old(out)@.push(c),
{
    out.push(c);
}

/// Encode a list of paint operations into the exact character stream the
/// terminal is to receive. Cursor coordinates must leave room for the
/// protocol's one-based form; every list a paint returns does.
pub fn ops_to_ansi(ops: &Vec<PaintOp>) -> (r: String)
    requires
        forall|i: int| 0 <= i < ops@.len() ==> move_in_range(#[trigger] ops@[i]),
    ensures
        r@ == ops_ansi(ops@),
{
    let mut out = String::new();
    let mut i: usize = 0;
    while i < ops.len()
        invariant
            i <= ops@.len(),
            forall|j: int| 0 <= j < ops@.len() ==> move_in_range(#[trigger] ops@[j]),
            out@ =~= ops_ansi(ops@.take(i as int)),
        decreases ops@.len() - i,
    {
        let ghost prefix = ops@.take(i as int);
        proof {
            assert(move_in_range(ops@[i as int]));
        }
        match ops[i] {
            PaintOp::BeginSync => emit_begin_sync(&mut out),
            PaintOp::MoveTo(col, row) => emit_move_to(&mut out, col, row),
            PaintOp::ClearAll => emit_clear_all(&mut out),
            PaintOp::Glyph(c) => push_char(&mut out, c),
            PaintOp::EndSync => emit_end_sync(&mut out),
        }
        proof {
            let next = ops@.take(i + 1);
            assert(next.drop_last() =~= prefix);
            assert(next.last() == ops@[i as int]);
            if ops@[i as int] is Glyph {
                assert(out@ =~= ops_ansi(prefix) + op_ansi(ops@[i as int]));
            }
            assert(out@ =~= ops_ansi(next));
        }
        i = i + 1;
    }
    proof {
        assert(ops@.take(ops@.len() as int) =~= ops@);
    }
    out
}

} // verus!
