//! Double-buffered terminal display.
//!
//! A `TerminalDisplayBuffer` holds a *virtual* frame (the freshly composited
//! picture for this tick) and a *physical* frame (a mirror of what has been
//! written to the terminal), plus a repaint flag. `paint` reconciles the two:
//! on a repaint it rewrites the whole screen, otherwise it emits exactly one
//! positioned write per cell on which the frames disagree. The emitted
//! operations are returned as data ([`PaintOp`]); encoding them into terminal
//! control sequences lives in [`crate::ansi`], and actually writing them to
//! the terminal is the host's business.

use vstd::prelude::*;

verus! {

/// The blank glyph that cleared cells hold.
pub const BLANK: char = ' ';

/// One frame of the display: a flat row-major character buffer.
#[derive(Clone, PartialEq, Eq, Debug)]
pub struct VirtualDisplayBuffer {
    pub buf: Vec<char>,
    pub width: u16,
    pub height: u16,
}

impl VirtualDisplayBuffer {
    /// The buffer always holds exactly one glyph per cell.
    pub open spec fn wf(self) -> bool {
        self.buf@.len() == self.width as int * self.height as int
    }

    /// A fresh frame of the given size, every cell holding `fill`.
    pub fn new_filled(width: u16, height: u16, fill: char) -> (r: Self)
        ensures
            r.wf(),
            r.width == width,
            r.height == height,
            r.buf@ == Seq::new(width as nat * height as nat, |i: int| fill),
    {
        proof {
            assert(width as int * height as int <= 0xffff * 0xffff) by (nonlinear_arith)
                requires width <= 0xffff, height <= 0xffff;
        }
        let len: usize = width as usize * height as usize;
        let mut buf: Vec<char> = Vec::new();
        let mut i: usize = 0;
        while i < len
            invariant
                i <= len,
                len == width as int * height as int,
                buf@ =~= Seq::new(i as nat, |j: int| fill),
            decreases len - i,
        {
            buf.push(fill);
            i = i + 1;
        }
        proof {
            assert(buf@ =~= Seq::new(width as nat * height as nat, |i: int| fill));
        }
        VirtualDisplayBuffer { buf, width, height }
    }

    /// Take a new size: the buffer is cleared and refilled with the blank
    /// glyph, so its length is the new `width * height` again.
    pub fn resize(&mut self, width: u16, height: u16)
        ensures
            final(self).wf(),
            final(self).width == width,
            final(self).height == height,
            final(self).buf@ == Seq::new(width as nat * height as nat, |i: int| BLANK),
    {
        let fresh = Self::new_filled(width, height, BLANK);
        *self = fresh;
    }
}

/// One queued terminal operation, as data.
#[derive(Clone, Copy, PartialEq, Eq, Structural, Debug)]
pub enum PaintOp {
    /// Open an atomic visual update.
    BeginSync,
    /// Move the cursor to (column, row), zero-based.
    MoveTo(u16, u16),
    /// Clear the whole screen.
    ClearAll,
    /// Write one glyph at the cursor.
    Glyph(char),
    /// Close the atomic visual update.
    EndSync,
}

/// A single cell write, as a paint operation.
pub open spec fn glyph_of(c: char) -> PaintOp {
    PaintOp::Glyph(c)
}

/// Whether an operation's cursor coordinates stay below `u16::MAX`. The
/// terminal protocol addresses the cursor one-based, so a coordinate at
/// the very top of `u16` has no encodable one-based form; every operation
/// a paint emits satisfies this.
pub open spec fn move_in_range(op: PaintOp) -> bool {
    match op {
        PaintOp::MoveTo(col, row) => col < u16::MAX && row < u16::MAX,
        _ => true,
    }
}

/// The operations a full repaint of `virt` emits after the screen is
/// cleared: every cell, row-major.
pub open spec fn glyph_ops(virt: Seq<char>) -> Seq<PaintOp>
    decreases virt.len(),
{
    if virt.len() == 0 {
        Seq::empty()
    } else {
        glyph_ops(virt.drop_last()).push(glyph_of(virt.last()))
    }
}

/// The operations a differential flush emits for the first `i` cells: a
/// cursor move plus a glyph write for each position where the frames
/// disagree, in row-major order.
pub open spec fn diff_ops_upto(virt: Seq<char>, phys: Seq<char>, width: int, i: int) -> Seq<
    PaintOp,
>
    decreases i,
{
    if i <= 0 {
        Seq::empty()
    } else {
        let rest = diff_ops_upto(virt, phys, width, i - 1);
        if virt[i - 1] != phys[i - 1] {
            rest + seq![
                PaintOp::MoveTo(((i - 1) % width) as u16, ((i - 1) / width) as u16),
                glyph_of(virt[i - 1]),
            ]
        } else {
            rest
        }
    }
}

/// How many cell writes a sequence of operations performs.
pub open spec fn count_glyph_writes(ops: Seq<PaintOp>) -> int
    decreases ops.len(),
{
    if ops.len() == 0 {
        0
    } else {
        count_glyph_writes(ops.drop_last()) + if ops.last() is Glyph {
            1int
        } else {
            0int
        }
    }
}

/// The Hamming distance between the first `i` cells of the two frames.
pub open spec fn hamming(virt: Seq<char>, phys: Seq<char>, i: int) -> int
    decreases i,
{
    if i <= 0 {
        0
    } else {
        hamming(virt, phys, i - 1) + if virt[i - 1] != phys[i - 1] {
            1int
        } else {
            0int
        }
    }
}

/// Counting writes distributes over concatenation.
proof fn lemma_count_glyph_writes_concat(a: Seq<PaintOp>, b: Seq<PaintOp>)
    ensures
        count_glyph_writes(a + b) == count_glyph_writes(a) + count_glyph_writes(b),
    decreases b.len(),
{
    if b.len() == 0 {
        assert(a + b =~= a);
    } else {
        lemma_count_glyph_writes_concat(a, b.drop_last());
        assert((a + b).drop_last() =~= a + b.drop_last());
    }
}

/// Diff minimality: the number of cell writes a differential flush emits
/// over the first `i` cells equals the Hamming distance between those cells.
pub proof fn lemma_diff_ops_minimal(virt: Seq<char>, phys: Seq<char>, width: int, i: int)
    ensures
        count_glyph_writes(diff_ops_upto(virt, phys, width, i)) == hamming(virt, phys, i),
    decreases i,
{
    if i <= 0 {
    } else {
        lemma_diff_ops_minimal(virt, phys, width, i - 1);
        if virt[i - 1] != phys[i - 1] {
            let rest = diff_ops_upto(virt, phys, width, i - 1);
            let pair = seq![
                PaintOp::MoveTo(((i - 1) % width) as u16, ((i - 1) / width) as u16),
                glyph_of(virt[i - 1]),
            ];
            lemma_count_glyph_writes_concat(rest, pair);
            assert(count_glyph_writes(pair) == 1) by {
                reveal_with_fuel(count_glyph_writes, 3);
                assert(pair.drop_last() =~= seq![
                    PaintOp::MoveTo(((i - 1) % width) as u16, ((i - 1) / width) as u16),
                ]);
                assert(pair.drop_last().drop_last() =~= Seq::<PaintOp>::empty());
            }
        }
    }
}

/// Diff minimality for the whole operation list of a differential flush:
/// the synchronization bracket and the leading cursor move write no cells,
/// so the flush writes exactly one cell per differing position.
pub proof fn lemma_diff_minimality(virt: Seq<char>, phys: Seq<char>, width: int)
    ensures
        count_glyph_writes(
            seq![PaintOp::BeginSync, PaintOp::MoveTo(0, 0)] + diff_ops_upto(
                virt,
                phys,
                width,
                virt.len() as int,
            ) + seq![PaintOp::EndSync],
        ) == hamming(virt, phys, virt.len() as int),
{
    let wrap_front = seq![PaintOp::BeginSync, PaintOp::MoveTo(0, 0)];
    let mid = diff_ops_upto(virt, phys, width, virt.len() as int);
    let wrap_back = seq![PaintOp::EndSync];
    lemma_diff_ops_minimal(virt, phys, width, virt.len() as int);
    lemma_count_glyph_writes_concat(wrap_front, mid);
    lemma_count_glyph_writes_concat(wrap_front + mid, wrap_back);
    assert(count_glyph_writes(wrap_front) == 0) by {
        reveal_with_fuel(count_glyph_writes, 3);
        assert(wrap_front.drop_last() =~= seq![PaintOp::BeginSync]);
        assert(wrap_front.drop_last().drop_last() =~= Seq::<PaintOp>::empty());
    }
    assert(count_glyph_writes(wrap_back) == 0) by {
        reveal_with_fuel(count_glyph_writes, 2);
        assert(wrap_back.drop_last() =~= Seq::<PaintOp>::empty());
    }
}

/// The pair of display frames plus the repaint flag: virtual frame,
/// physical frame, repaint flag.
pub struct TerminalDisplayBuffer(pub VirtualDisplayBuffer, pub VirtualDisplayBuffer, pub bool);

impl TerminalDisplayBuffer {
    /// Both frames are well formed and share one size; any divergence is a
    /// programming error, not a runtime condition.
    pub open spec fn wf(self) -> bool {
        &&& self.0.wf()
        &&& self.1.wf()
        &&& self.0.width == self.1.width
        &&& self.0.height == self.1.height
    }

    /// A display of the given size whose first paint will be a full repaint.
    pub fn init_with_size(width: u16, height: u16) -> (r: Self)
        ensures
            r.wf(),
            r.0.width == width,
            r.0.height == height,
            r.0.buf@ == Seq::new(width as nat * height as nat, |i: int| '\0'),
            r.1.buf@ == r.0.buf@,
            r.1.width == width,
            r.1.height == height,
            r.2,
    {
        let virt = VirtualDisplayBuffer::new_filled(width, height, '\0');
        let phys = VirtualDisplayBuffer::new_filled(width, height, '\0');
        proof {
            assert(virt.buf@ =~= phys.buf@);
        }
        TerminalDisplayBuffer(virt, phys, true)
    }

    /// Force the next paint to rewrite the whole screen.
    pub fn enable_flush(&mut self)
        ensures
            final(self).2,
            final(self).0 == old(self).0,
            final(self).1 == old(self).1,
    {
        self.2 = true;
    }

    pub fn get_flush(&self) -> (r: bool)
        ensures
            r == self.2,
    {
        self.2
    }

    fn set_flush(&mut self, val: bool)
        ensures
            final(self).2 == val,
            final(self).0 == old(self).0,
            final(self).1 == old(self).1,
    {
        self.2 = val;
    }

    pub fn physical_frame_ref(&self) -> (r: &VirtualDisplayBuffer)
        ensures
            r == self.1,
    {
        &self.1
    }

    pub fn virtual_frame_mut(&mut self) -> (r: &mut VirtualDisplayBuffer)
        ensures
            *r == old(self).0,
            final(self).0 == *final(r),
            final(self).1 == old(self).1,
            final(self).2 == old(self).2,
    {
        &mut self.0
    }

    pub fn virtual_frame_ref(&self) -> (r: &VirtualDisplayBuffer)
        ensures
            r == self.0,
    {
        &self.0
    }

    /// Full repaint: clear the screen, write every cell of the virtual
    /// frame row-major, and copy it into the physical frame.
    fn paint_all(&mut self) -> (ops: Vec<PaintOp>)
        requires
            old(self).wf(),
        ensures
            final(self).wf(),
            final(self).0 == old(self).0,
            final(self).1.buf@ == old(self).0.buf@,
            final(self).1.width == old(self).1.width,
            final(self).1.height == old(self).1.height,
            final(self).2 == old(self).2,
            ops@ == seq![PaintOp::BeginSync, PaintOp::MoveTo(0, 0), PaintOp::ClearAll]
                + glyph_ops(old(self).0.buf@) + seq![PaintOp::EndSync],
            forall|i: int| 0 <= i < ops@.len() ==> move_in_range(#[trigger] ops@[i]),
    {
        let ghost virt0 = self.0.buf@;
        let mut ops: Vec<PaintOp> = Vec::new();
        ops.push(PaintOp::BeginSync);
        ops.push(PaintOp::MoveTo(0, 0));
        ops.push(PaintOp::ClearAll);
        self.1.buf.clear();
        let len: usize = self.0.buf.len();
        let mut i: usize = 0;
        while i < len
            invariant
                i <= len,
                len == virt0.len(),
                self.0.buf@ == virt0,
                self.0 == old(self).0,
                self.1.buf@ =~= virt0.take(i as int),
                self.1.width == old(self).1.width,
                self.1.height == old(self).1.height,
                self.2 == old(self).2,
                ops@ =~= seq![PaintOp::BeginSync, PaintOp::MoveTo(0, 0), PaintOp::ClearAll]
                    + glyph_ops(virt0.take(i as int)),
                forall|j: int| 0 <= j < ops@.len() ==> move_in_range(#[trigger] ops@[j]),
            decreases len - i,
        {
            let c = self.0.buf[i];
            self.1.buf.push(c);
            ops.push(PaintOp::Glyph(c));
            proof {
                assert(virt0.take(i + 1).drop_last() =~= virt0.take(i as int));
                assert(virt0.take(i + 1).last() == virt0[i as int]);
                assert(glyph_ops(virt0.take(i + 1)) == glyph_ops(virt0.take(i as int)).push(
                    glyph_of(virt0[i as int]),
                ));
            }
            i = i + 1;
        }
        ops.push(PaintOp::EndSync);
        proof {
            assert(virt0.take(len as int) =~= virt0);
            assert(ops@ =~= seq![PaintOp::BeginSync, PaintOp::MoveTo(0, 0), PaintOp::ClearAll]
                + glyph_ops(virt0) + seq![PaintOp::EndSync]);
            assert(self.1.buf@ =~= old(self).0.buf@);
        }
        ops
    }

    /// Reconcile the physical frame with the virtual frame.
    ///
    /// - With the repaint flag set, the whole screen is rewritten and the
    ///   flag cleared.
    /// - With identical frames, nothing at all is emitted (an idle tick).
    /// - Otherwise one positioned write is emitted per differing cell, in
    ///   row-major order, bracketed as one atomic visual update.
    ///
    /// Afterwards the physical frame always equals the virtual frame and
    /// the repaint flag is clear, so painting again without touching the
    /// virtual frame emits nothing.
    pub fn paint(&mut self) -> (ops: Vec<PaintOp>)
        requires
            old(self).wf(),
        ensures
            final(self).wf(),
            final(self).0 == old(self).0,
            final(self).1.width == old(self).1.width,
            final(self).1.height == old(self).1.height,
            final(self).1.buf@ == old(self).0.buf@,
            !final(self).2,
            old(self).2 ==> ops@ == seq![
                PaintOp::BeginSync,
                PaintOp::MoveTo(0, 0),
                PaintOp::ClearAll,
            ] + glyph_ops(old(self).0.buf@) + seq![PaintOp::EndSync],
            !old(self).2 && old(self).0.buf@ == old(self).1.buf@ ==> ops@ == Seq::<
                PaintOp,
            >::empty(),
            !old(self).2 && old(self).0.buf@ != old(self).1.buf@ ==> ops@ == seq![
                PaintOp::BeginSync,
                PaintOp::MoveTo(0, 0),
            ] + diff_ops_upto(
                old(self).0.buf@,
                old(self).1.buf@,
                old(self).0.width as int,
                old(self).0.buf@.len() as int,
            ) + seq![PaintOp::EndSync],
            forall|i: int| 0 <= i < ops@.len() ==> move_in_range(#[trigger] ops@[i]),
    {
        if self.get_flush() {
            let ops = self.paint_all();
            self.set_flush(false);
            return ops;
        }
        if eq_bufs(&self.0.buf, &self.1.buf) {
            return Vec::new();
        }
        let ghost virt0 = self.0.buf@;
        let ghost phys0 = self.1.buf@;
        let width = self.0.width;
        let mut ops: Vec<PaintOp> = Vec::new();
        ops.push(PaintOp::BeginSync);
        ops.push(PaintOp::MoveTo(0, 0));
        let len: usize = self.0.buf.len();
        proof {
            // The frames differ somewhere, so they are not empty and the
            // width cannot be zero.
            if virt0.len() == 0 {
                assert(virt0 =~= phys0);
            }
            assert(virt0.len() > 0);
            assert(width as int * self.0.height as int > 0);
            assert(width > 0) by (nonlinear_arith)
                requires width as int * self.0.height as int > 0, width >= 0;
        }
        let mut i: usize = 0;
        while i < len
            invariant
                i <= len,
                len == virt0.len(),
                len == phys0.len(),
                0 < width,
                len == width as int * self.0.height as int,
                self.0.buf@ == virt0,
                self.0 == old(self).0,
                width == self.0.width,
                self.1.width == old(self).1.width,
                self.1.height == old(self).1.height,
                self.2 == old(self).2,
                self.1.buf@.len() == len,
                forall|j: int| 0 <= j < i ==> self.1.buf@[j] == virt0[j],
                forall|j: int| i <= j < len ==> self.1.buf@[j] == phys0[j],
                ops@ =~= seq![PaintOp::BeginSync, PaintOp::MoveTo(0, 0)] + diff_ops_upto(
                    virt0,
                    phys0,
                    width as int,
                    i as int,
                ),
                forall|j: int| 0 <= j < ops@.len() ==> move_in_range(#[trigger] ops@[j]),
            decreases len - i,
        {
            let vc = self.0.buf[i];
            let pc = self.1.buf[i];
            if vc != pc {
                let col = i % width as usize;
                let row = i / width as usize;
                proof {
                    vstd::arithmetic::div_mod::lemma_mod_bound(i as int, width as int);
                    vstd::arithmetic::div_mod::lemma_multiply_divide_lt(
                        i as int,
                        width as int,
                        self.0.height as int,
                    );
                    assert(width as int * self.0.height as int == self.0.height as int
                        * width as int) by (nonlinear_arith);
                }
                ops.push(PaintOp::MoveTo(col as u16, row as u16));
                ops.push(PaintOp::Glyph(vc));
                self.1.buf[i] = vc;
            }
            i = i + 1;
        }
        ops.push(PaintOp::EndSync);
        proof {
            assert(self.1.buf@ =~= old(self).0.buf@);
        }
        ops
    }
}

/// Cell-for-cell equality of two frame buffers.
fn eq_bufs(a: &Vec<char>, b: &Vec<char>) -> (r: bool)
    ensures
        r == (a@ == b@),
{
    if a.len() != b.len() {
        proof {
            assert(a@ != b@);
        }
        return false;
    }
    let mut i: usize = 0;
    while i < a.len()
        invariant
            i <= a@.len(),
            a@.len() == b@.len(),
            forall|j: int| 0 <= j < i ==> a@[j] == b@[j],
        decreases a@.len() - i,
    {
        if a[i] != b[i] {
            proof {
                assert(a@[i as int] != b@[i as int]);
            }
            return false;
        }
        i = i + 1;
    }
    proof {
        assert(a@ =~= b@);
    }
    true
}

/// The resize path: a terminal size change resizes both frames together
/// (clearing them) and forces a full repaint on the next paint.
pub fn handle_terminal_resize(term_buffer: &mut TerminalDisplayBuffer, width: u16, height: u16)
    ensures
        final(term_buffer).wf(),
        final(term_buffer).0.width == width,
        final(term_buffer).0.height == height,
        final(term_buffer).0.buf@ == Seq::new(width as nat * height as nat, |i: int| BLANK),
        final(term_buffer).1.buf@ == final(term_buffer).0.buf@,
        final(term_buffer).2,
{
    term_buffer.0.resize(width, height);
    term_buffer.1.resize(width, height);
    term_buffer.enable_flush();
}

} // verus!
