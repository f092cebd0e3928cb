use bezier_editor::curve::sample;
use bezier_editor::geometry::{Point, Segment};
use bezier_editor::handles::{HandleColor, HandleSet, PointerState};
use bezier_editor::scene::{AXIS_LENGTH, BEZIER_CURVE_RESOLUTION, HANDLE_RADIUS};

fn pointer(x: i32, y: i32, button_down: bool, button_released: bool) -> PointerState {
    PointerState { position: Point::new(x, y), button_down, button_released }
}

#[test]
fn editor_constants() {
    assert_eq!(AXIS_LENGTH, 300);
    assert_eq!(HANDLE_RADIUS, 10);
    assert_eq!(BEZIER_CURVE_RESOLUTION, 50);
}

#[test]
fn quiet_frame_of_the_initial_editor() {
    let mut set = HandleSet::initial();
    let frame = set.frame(pointer(150, 150, false, false), BEZIER_CURVE_RESOLUTION);
    let expected =
        [Point::new(0, 0), Point::new(75, -150), Point::new(225, -150), Point::new(300, -300)];
    for i in 0..4 {
        assert_eq!(frame.handles[i].color, HandleColor::Default);
        assert_eq!(frame.handles[i].position, expected[i]);
    }
    assert_eq!(set.dragging_index(), None);
    assert_eq!(frame.samples.len(), 49);
    let first = &frame.samples[0];
    let d = first.scale() as f64;
    let (x, y) = (first.x as f64 / d, first.y as f64 / d);
    let to_start = (x * x + y * y).sqrt();
    let to_end = ((x - 300.0) * (x - 300.0) + (y + 300.0) * (y + 300.0)).sqrt();
    assert!(to_start < to_end);
    assert_eq!(
        frame.edges,
        [
            Segment { start: expected[0], end: expected[1] },
            Segment { start: expected[2], end: expected[3] },
        ]
    );
}

#[test]
fn dragging_takes_curve_and_polygon_along_in_the_same_frame() {
    let mut set = HandleSet::initial();
    set.frame(pointer(75, -150, true, false), 50);
    assert_eq!(set.dragging_index(), Some(1));
    let frame = set.frame(pointer(20, -200, true, false), 50);
    let moved = Point::new(20, -200);
    assert_eq!(frame.handles[1].position, moved);
    assert_eq!(frame.handles[1].color, HandleColor::Active);
    assert_eq!(frame.edges[0], Segment { start: Point::new(0, 0), end: moved });
    assert_eq!(
        frame.samples,
        sample(Point::new(0, 0), moved, Point::new(225, -150), Point::new(300, -300), 50)
    );
    assert_ne!(
        frame.samples,
        sample(
            Point::new(0, 0),
            Point::new(75, -150),
            Point::new(225, -150),
            Point::new(300, -300),
            50
        )
    );
}

#[test]
fn frame_with_low_resolution_draws_no_curve() {
    let mut set = HandleSet::initial();
    assert_eq!(set.frame(pointer(0, 0, false, false), 1).samples.len(), 0);
    assert_eq!(set.frame(pointer(0, 0, false, false), 0).samples.len(), 0);
    assert_eq!(set.frame(pointer(0, 0, false, false), 2).samples.len(), 1);
}
