use termgrid::ansi::ops_to_ansi;
use termgrid::display::{PaintOp, TerminalDisplayBuffer, VirtualDisplayBuffer, handle_terminal_resize};

fn glyph_writes(ops: &[PaintOp]) -> usize {
    ops.iter().filter(|op| matches!(op, PaintOp::Glyph(_))).count()
}

#[test]
fn resize_keeps_length_equal_to_area() {
    let mut frame = VirtualDisplayBuffer::new_filled(2, 2, 'x');
    for (w, h) in [(0u16, 5u16), (7, 3), (1, 1), (40, 12)] {
        frame.resize(w, h);
        assert_eq!(frame.buf.len(), w as usize * h as usize);
        assert!(frame.buf.iter().all(|c| *c == ' '));
        assert_eq!((frame.width, frame.height), (w, h));
    }
}

#[test]
fn full_repaint_mirrors_virtual_frame() {
    let mut display = TerminalDisplayBuffer::init_with_size(3, 2);
    assert!(display.get_flush());
    let glyphs = ['a', 'b', 'c', 'd', 'e', 'f'];
    for (i, g) in glyphs.iter().enumerate() {
        display.virtual_frame_mut().buf[i] = *g;
    }
    let ops = display.paint();
    // Screen clear, then every cell in row-major order, in one bracket.
    assert_eq!(ops[0], PaintOp::BeginSync);
    assert_eq!(ops[1], PaintOp::MoveTo(0, 0));
    assert_eq!(ops[2], PaintOp::ClearAll);
    assert_eq!(&ops[3..9], &glyphs.map(PaintOp::Glyph));
    assert_eq!(ops[9], PaintOp::EndSync);
    assert_eq!(ops.len(), 10);
    // Round-trip: the physical frame now equals the virtual frame.
    assert_eq!(display.physical_frame_ref().buf, display.virtual_frame_ref().buf);
    assert!(!display.get_flush());
}

#[test]
fn flush_twice_emits_nothing_the_second_time() {
    let mut display = TerminalDisplayBuffer::init_with_size(4, 4);
    display.virtual_frame_mut().buf[5] = 'z';
    let first = display.paint();
    assert!(!first.is_empty());
    let second = display.paint();
    assert!(second.is_empty());
}

#[test]
fn diff_flush_writes_exactly_the_differing_cells() {
    let mut display = TerminalDisplayBuffer::init_with_size(4, 3);
    display.paint();
    // Change three cells of the virtual frame.
    display.virtual_frame_mut().buf[1] = 'p';
    display.virtual_frame_mut().buf[6] = 'q';
    display.virtual_frame_mut().buf[11] = 'r';
    let ops = display.paint();
    assert_eq!(glyph_writes(&ops), 3);
    assert_eq!(ops[0], PaintOp::BeginSync);
    assert_eq!(ops[1], PaintOp::MoveTo(0, 0));
    // Cursor moves address (column, row) = (index % width, index / width).
    assert_eq!(ops[2], PaintOp::MoveTo(1, 0));
    assert_eq!(ops[3], PaintOp::Glyph('p'));
    assert_eq!(ops[4], PaintOp::MoveTo(2, 1));
    assert_eq!(ops[5], PaintOp::Glyph('q'));
    assert_eq!(ops[6], PaintOp::MoveTo(3, 2));
    assert_eq!(ops[7], PaintOp::Glyph('r'));
    assert_eq!(ops[8], PaintOp::EndSync);
    assert_eq!(display.physical_frame_ref().buf, display.virtual_frame_ref().buf);
}

#[test]
fn scenario_resize_forces_full_repaint() {
    let mut display = TerminalDisplayBuffer::init_with_size(5, 5);
    display.paint();
    assert!(!display.get_flush());
    // A resize arrives mid-run: both frames take the new size and the
    // next paint rewrites every cell, however few changed.
    handle_terminal_resize(&mut display, 3, 3);
    assert!(display.get_flush());
    display.virtual_frame_mut().buf[0] = 'w';
    let ops = display.paint();
    assert_eq!(glyph_writes(&ops), 9);
    assert!(ops.contains(&PaintOp::ClearAll));
    assert_eq!(display.physical_frame_ref().buf, display.virtual_frame_ref().buf);
}

#[test]
fn ansi_encoding_matches_crossterm() {
    let ops = vec![
        PaintOp::BeginSync,
        PaintOp::MoveTo(2, 4),
        PaintOp::ClearAll,
        PaintOp::Glyph('x'),
        PaintOp::EndSync,
    ];
    let out = ops_to_ansi(&ops);
    assert_eq!(out, "\x1b[?2026h\x1b[5;3H\x1b[2Jx\x1b[?2026l");
}

#[test]
fn ansi_encoding_of_wide_coordinates() {
    let ops = vec![PaintOp::MoveTo(0, 119)];
    assert_eq!(ops_to_ansi(&ops), "\x1b[120;1H");
    // The largest admitted coordinate still encodes exactly.
    let edge = vec![PaintOp::MoveTo(u16::MAX - 1, u16::MAX - 1)];
    assert_eq!(ops_to_ansi(&edge), "\x1b[65535;65535H");
}
