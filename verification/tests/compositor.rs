use termgrid::UNITS_PER_CELL;
use termgrid::camera::TerminalCamera2d;
use termgrid::display::VirtualDisplayBuffer;
use termgrid::geometry::{Vec2i, Vec3i};
use termgrid::render::{TextureRect, render};

fn cells(n: i64) -> i64 {
    n * UNITS_PER_CELL
}

fn fixed_camera(w: i64, h: i64) -> TerminalCamera2d {
    let mut cam = TerminalCamera2d::new(Vec2i::new(cells(w), cells(h)), Vec3i::new(0, 0, 0));
    cam.set_autoresize(false);
    cam
}

fn grid(w: u16, h: u16) -> VirtualDisplayBuffer {
    VirtualDisplayBuffer::new_filled(w, h, ' ')
}

fn at(buf: &VirtualDisplayBuffer, col: u16, row: u16) -> char {
    buf.buf[row as usize * buf.width as usize + col as usize]
}

#[test]
fn scenario_single_rect_tile_mode() {
    // One 2x1 rectangle at the origin on a 10x10 grid: exactly two
    // adjacent cells near the projected origin get its glyph.
    let mut cam = fixed_camera(10, 10);
    let rects = vec![TextureRect {
        texture: 'a',
        dim: Vec2i::new(cells(2), cells(1)),
        loc: Vec2i::new(0, 0),
        loc_z: 1,
    }];
    let mut buf = grid(10, 10);
    render(&rects, &mut cam, &mut buf);
    for row in 0..10u16 {
        for col in 0..10u16 {
            let expected = if row == 4 && (col == 4 || col == 5) { 'a' } else { ' ' };
            assert_eq!(at(&buf, col, row), expected, "cell ({col},{row})");
        }
    }
}

#[test]
fn scenario_stretch_fills_whole_grid() {
    // Camera 10x10 in stretch mode over a 5x5 grid: a rectangle covering
    // the whole viewport paints every cell, not a partial region.
    let mut cam = fixed_camera(10, 10);
    cam.set_stretch(true);
    let rects = vec![TextureRect {
        texture: 'b',
        dim: Vec2i::new(cells(10), cells(10)),
        loc: Vec2i::new(0, 0),
        loc_z: 1,
    }];
    let mut buf = grid(5, 5);
    render(&rects, &mut cam, &mut buf);
    for row in 0..5u16 {
        for col in 0..5u16 {
            assert_eq!(at(&buf, col, row), 'b', "cell ({col},{row})");
        }
    }
}

#[test]
fn scenario_nearer_rect_occludes() {
    // A z=2 'y' region fully inside a z=1 'x' region: the overlap shows
    // 'y', the rest of the larger region shows 'x'.
    let mut cam = fixed_camera(10, 10);
    let rects = vec![
        TextureRect {
            texture: 'x',
            dim: Vec2i::new(cells(4), cells(4)),
            loc: Vec2i::new(0, 0),
            loc_z: 1,
        },
        TextureRect {
            texture: 'y',
            dim: Vec2i::new(cells(2), cells(2)),
            loc: Vec2i::new(0, 0),
            loc_z: 2,
        },
    ];
    let mut buf = grid(10, 10);
    render(&rects, &mut cam, &mut buf);
    for row in 0..10u16 {
        for col in 0..10u16 {
            let in_y = (4..6).contains(&col) && (4..6).contains(&row);
            let in_x = (3..7).contains(&col) && (3..7).contains(&row);
            let expected = if in_y { 'y' } else if in_x { 'x' } else { ' ' };
            assert_eq!(at(&buf, col, row), expected, "cell ({col},{row})");
        }
    }
}

#[test]
fn equal_depth_tie_goes_to_first_in_input() {
    let mut cam = fixed_camera(10, 10);
    let first = TextureRect {
        texture: 'f',
        dim: Vec2i::new(cells(2), cells(2)),
        loc: Vec2i::new(0, 0),
        loc_z: 7,
    };
    let second = TextureRect { texture: 's', ..first };
    let rects = vec![first, second];
    let mut buf = grid(10, 10);
    render(&rects, &mut cam, &mut buf);
    assert_eq!(at(&buf, 4, 4), 'f');
    assert_eq!(at(&buf, 5, 5), 'f');
}

#[test]
fn disjoint_rects_compose_order_independently() {
    // With no overlapping projected cells the outcome per cell depends
    // only on the one rectangle covering it, in either input order.
    let mut cam = fixed_camera(10, 10);
    let left = TextureRect {
        texture: 'l',
        dim: Vec2i::new(cells(2), cells(2)),
        loc: Vec2i::new(cells(-3), 0),
        loc_z: 5,
    };
    let right = TextureRect {
        texture: 'r',
        dim: Vec2i::new(cells(2), cells(2)),
        loc: Vec2i::new(cells(3), 0),
        loc_z: 1,
    };
    let mut buf_a = grid(10, 10);
    render(&vec![left, right], &mut cam, &mut buf_a);
    let mut buf_b = grid(10, 10);
    render(&vec![right, left], &mut cam, &mut buf_b);
    assert_eq!(buf_a.buf, buf_b.buf);
    assert_eq!(at(&buf_a, 2, 4), 'l');
    assert_eq!(at(&buf_a, 8, 4), 'r');
}

#[test]
fn render_is_safe_to_call_redundantly() {
    // A second composite pass over unchanged state reproduces the same
    // frame exactly.
    let mut cam = fixed_camera(10, 10);
    let rects = vec![TextureRect {
        texture: 'k',
        dim: Vec2i::new(cells(3), cells(3)),
        loc: Vec2i::new(cells(1), cells(1)),
        loc_z: 2,
    }];
    let mut buf = grid(10, 10);
    render(&rects, &mut cam, &mut buf);
    let first = buf.buf.clone();
    render(&rects, &mut cam, &mut buf);
    assert_eq!(buf.buf, first);
}

#[test]
fn autoresize_takes_grid_size() {
    let mut cam = TerminalCamera2d::new(Vec2i::new(cells(3), cells(3)), Vec3i::new(0, 0, 0));
    assert!(cam.settings_ref().autoresize());
    let rects: Vec<TextureRect> = Vec::new();
    let mut buf = grid(8, 6);
    render(&rects, &mut cam, &mut buf);
    assert_eq!(cam.dim(), Vec2i::new(cells(8), cells(6)));
    assert!(buf.buf.iter().all(|c| *c == ' '));
}
