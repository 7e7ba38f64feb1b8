use termgrid::UNITS_PER_CELL;
use termgrid::camera::TerminalCamera2d;
use termgrid::geometry::{Frac, NormPoint, Vec2i, Vec3i, normalize_point, normalized_point_to_tile};
use termgrid::render::{TextureRect, project};

fn cells(n: i64) -> i64 {
    n * UNITS_PER_CELL
}

#[test]
fn test_normalize_point() {
    let min = Vec2i::new(0, 0);
    let max = Vec2i::new(10, 10);

    let norm_min = normalize_point(min, max, min);
    assert!(norm_min.x.eq_frac(&Frac::new(0, 1)));
    assert!(norm_min.y.eq_frac(&Frac::new(0, 1)));
    let norm_max = normalize_point(max, max, min);
    assert!(norm_max.x.eq_frac(&Frac::new(1, 1)));
    assert!(norm_max.y.eq_frac(&Frac::new(1, 1)));
    let half = normalize_point(Vec2i::new(5, 5), max, min);
    assert!(half.x.eq_frac(&Frac::new(1, 2)));
    assert!(half.y.eq_frac(&Frac::new(1, 2)));

    let min = Vec2i::new(0, 0);
    let max = Vec2i::new(10, 20);
    let uneven = normalize_point(Vec2i::new(5, 5), max, min);
    assert!(uneven.x.eq_frac(&Frac::new(1, 2)));
    assert!(uneven.y.eq_frac(&Frac::new(1, 4)));
}

#[test]
fn test_normalize_point_to_tile() {
    let zero = NormPoint { x: Frac::new(0, 1), y: Frac::new(0, 1) };
    assert_eq!(normalized_point_to_tile(zero, 10, 10), (0u16, 0u16));

    let one = NormPoint { x: Frac::new(1, 1), y: Frac::new(1, 1) };
    assert_eq!(normalized_point_to_tile(one, 10, 10), (10u16, 10u16));

    let half = NormPoint { x: Frac::new(1, 2), y: Frac::new(1, 2) };
    assert_eq!(normalized_point_to_tile(half, 10, 10), (5u16, 5u16));

    assert_eq!(normalized_point_to_tile(half, 10, 20), (5u16, 10u16));
}

#[test]
fn project_tile_mode_offsets_by_viewport_corner() {
    // Camera centered at the origin, 10x10 cells, tile mode.
    let mut cam = TerminalCamera2d::new(
        Vec2i::new(cells(10), cells(10)),
        Vec3i::new(0, 0, 0),
    );
    cam.set_autoresize(false);
    let rect = TextureRect {
        texture: 'a',
        dim: Vec2i::new(cells(2), cells(1)),
        loc: Vec2i::new(0, 0),
        loc_z: 1,
    };
    let cr = project(&cam, &rect, 10, 10).expect("rect overlaps the viewport");
    assert_eq!((cr.x0, cr.x1), (4, 6));
    assert_eq!((cr.y0, cr.y1), (4, 5));
}

#[test]
fn project_misses_outside_viewport() {
    let mut cam = TerminalCamera2d::new(
        Vec2i::new(cells(10), cells(10)),
        Vec3i::new(0, 0, 0),
    );
    cam.set_autoresize(false);
    let rect = TextureRect {
        texture: 'a',
        dim: Vec2i::new(cells(2), cells(2)),
        loc: Vec2i::new(cells(100), 0),
        loc_z: 1,
    };
    assert!(project(&cam, &rect, 10, 10).is_none());
}

#[test]
fn project_zero_size_viewport_projects_nothing() {
    let mut cam = TerminalCamera2d::new(Vec2i::new(0, 0), Vec3i::new(0, 0, 0));
    cam.set_autoresize(false);
    cam.set_stretch(true);
    let rect = TextureRect {
        texture: 'a',
        dim: Vec2i::new(cells(2), cells(2)),
        loc: Vec2i::new(0, 0),
        loc_z: 1,
    };
    assert!(project(&cam, &rect, 10, 10).is_none());
}

#[test]
fn project_stretch_fills_grid_from_full_viewport() {
    let mut cam = TerminalCamera2d::new(
        Vec2i::new(cells(10), cells(10)),
        Vec3i::new(0, 0, 0),
    );
    cam.set_autoresize(false);
    cam.set_stretch(true);
    let rect = TextureRect {
        texture: 'b',
        dim: Vec2i::new(cells(10), cells(10)),
        loc: Vec2i::new(0, 0),
        loc_z: 1,
    };
    let cr = project(&cam, &rect, 5, 5).expect("full-viewport rect projects");
    assert_eq!((cr.x0, cr.y0, cr.x1, cr.y1), (0, 0, 5, 5));
}
