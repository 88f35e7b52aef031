use eg_femtofont::geometry::{Point, Rectangle, Size};
use eg_femtofont::text::{
    baseline_offset, baseline_origin, string_metrics, whitespace_end, TextBaseline, TextMetrics,
    VerticalAlign,
};

#[test]
fn vertical_align_defaults_to_top() {
    assert_eq!(VerticalAlign::default(), VerticalAlign::Top);
}

#[test]
fn baseline_offsets() {
    assert_eq!(baseline_offset(10, 3, TextBaseline::Top), 9);
    assert_eq!(baseline_offset(10, 3, TextBaseline::Bottom), -3);
    assert_eq!(baseline_offset(10, 3, TextBaseline::Middle), 3);
    assert_eq!(baseline_offset(10, 3, TextBaseline::Alphabetic), 0);
}

#[test]
fn baseline_top_saturates_at_zero() {
    assert_eq!(baseline_offset(0, 0, TextBaseline::Top), 0);
    assert_eq!(baseline_offset(1, 0, TextBaseline::Top), 0);
}

#[test]
fn baseline_middle_rounds_toward_zero() {
    assert_eq!(baseline_offset(1, 4, TextBaseline::Middle), -1);
    assert_eq!(baseline_offset(0, 65535, TextBaseline::Middle), -32767);
    assert_eq!(baseline_offset(65535, 0, TextBaseline::Middle), 32767);
}

#[test]
fn baseline_middle_between_bottom_and_top() {
    for (a, d) in [(0u16, 0u16), (1, 0), (2, 5), (14, 4), (3, 9)] {
        let top = baseline_offset(a, d, TextBaseline::Top);
        let mid = baseline_offset(a, d, TextBaseline::Middle);
        let bottom = baseline_offset(a, d, TextBaseline::Bottom);
        assert!(bottom <= mid && mid <= top);
    }
}

#[test]
fn origin_moves_down_by_offset() {
    assert_eq!(baseline_origin(Point::new(3, 4), -2), Point::new(3, 2));
}

#[test]
fn whitespace_advances_on_the_baseline() {
    assert_eq!(whitespace_end(Point::new(5, 7), 3, 10), Point::new(15, 10));
    assert_eq!(whitespace_end(Point::new(-5, 7), 0, 0), Point::new(-5, 7));
}

#[test]
fn metrics_of_string() {
    let m = string_metrics(Point::new(5, 20), 10, 30, 2, 12);
    assert_eq!(
        m,
        TextMetrics {
            bounding_box: Rectangle::new(Point::new(5, 9), Size::new(30, 12)),
            next_position: Point::new(35, 20),
        }
    );
}

#[test]
fn metrics_with_zero_ascent() {
    let m = string_metrics(Point::new(0, 0), 0, 0, 4, 7);
    assert_eq!(m.bounding_box, Rectangle::new(Point::new(0, -4), Size::new(0, 7)));
    assert_eq!(m.next_position, Point::new(0, 0));
}

#[test]
fn point_arithmetic() {
    let p = Point::new(1, 2);
    assert_eq!(p.translate(Point::new(-3, 4)), Point::new(-2, 6));
    assert_eq!(p.add_size(Size::new(3, 4)), Point::new(4, 6));
    assert_eq!(p.sub_size(Size::new(3, 4)), Point::new(-2, -2));
}
