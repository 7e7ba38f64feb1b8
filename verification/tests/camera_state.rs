use termgrid::UNITS_PER_CELL;
use termgrid::camera::{CameraResized, TerminalCamera2d, apply_terminal_resize};
use termgrid::display::{PaintOp, TerminalDisplayBuffer};
use termgrid::geometry::{Vec2i, Vec3i};

fn cells(n: i64) -> i64 {
    n * UNITS_PER_CELL
}

#[test]
fn camera_accessors_round_trip() {
    let mut cam = TerminalCamera2d::new(
        Vec2i::new(cells(4), cells(3)),
        Vec3i::new(cells(1), cells(2), 0),
    );
    assert_eq!(cam.dim(), Vec2i::new(cells(4), cells(3)));
    assert_eq!(cam.loc(), Vec3i::new(cells(1), cells(2), 0));
    assert_eq!(cam.width(), cells(4));
    assert_eq!(cam.height(), cells(3));
    cam.move_by(Vec3i::new(cells(1), -cells(1), 0));
    assert_eq!((cam.x(), cam.y(), cam.z()), (cells(2), cells(1), 0));
    cam.set_loc(Vec3i::new(0, 0, 0));
    assert_eq!(cam.loc(), Vec3i::new(0, 0, 0));
    cam.set_dim(Vec2i::new(cells(7), cells(7)));
    assert_eq!(cam.dim(), Vec2i::new(cells(7), cells(7)));
}

#[test]
fn camera_settings_flags_round_trip() {
    let mut cam = TerminalCamera2d::default();
    assert!(cam.settings_ref().autoresize());
    assert!(!cam.settings_ref().stretch());
    cam.set_autoresize(false);
    cam.set_stretch(true);
    assert!(!cam.settings_ref().autoresize());
    assert!(cam.settings_ref().stretch());
}

#[test]
fn terminal_resize_updates_autoresizing_camera_once() {
    let mut cam = TerminalCamera2d::default();
    let first = apply_terminal_resize(&mut cam, 80, 24);
    assert_eq!(first, Some(CameraResized(Vec2i::new(cells(80), cells(24)))));
    assert_eq!(cam.dim(), Vec2i::new(cells(80), cells(24)));
    // The same size again is not a change, so nothing is announced.
    assert_eq!(apply_terminal_resize(&mut cam, 80, 24), None);
}

#[test]
fn terminal_resize_leaves_fixed_camera_alone() {
    let mut cam = TerminalCamera2d::new(Vec2i::new(cells(5), cells(5)), Vec3i::new(0, 0, 0));
    cam.set_autoresize(false);
    assert_eq!(apply_terminal_resize(&mut cam, 80, 24), None);
    assert_eq!(cam.dim(), Vec2i::new(cells(5), cells(5)));
}

#[test]
fn empty_display_paints_no_cells() {
    let mut display = TerminalDisplayBuffer::init_with_size(0, 0);
    let ops = display.paint();
    // The repaint still brackets a clear, but there is no cell to write.
    assert_eq!(
        ops,
        vec![
            PaintOp::BeginSync,
            PaintOp::MoveTo(0, 0),
            PaintOp::ClearAll,
            PaintOp::EndSync,
        ],
    );
    assert!(display.paint().is_empty());
}
