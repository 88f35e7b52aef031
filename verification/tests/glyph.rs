use eg_femtofont::color::Rgb;
use eg_femtofont::geometry::{Point, Rectangle, Size};
use eg_femtofont::glyph::{glyph_pixels, Pixel};

fn white() -> Rgb {
    Rgb::new(255, 255, 255)
}

fn black() -> Rgb {
    Rgb::new(0, 0, 0)
}

#[test]
fn glyph_row_major_and_blended() {
    let bounds = Rectangle::new(Point::new(10, 20), Size::new(2, 2));
    let px = glyph_pixels(bounds, &[0, 255, 128, 0], white(), black());
    assert_eq!(
        px,
        vec![
            Pixel { point: Point::new(11, 20), color: white() },
            Pixel { point: Point::new(10, 21), color: Rgb::new(128, 128, 128) },
        ]
    );
}

#[test]
fn glyph_short_coverage_stops_early() {
    let bounds = Rectangle::new(Point::new(-1, -1), Size::new(3, 3));
    let px = glyph_pixels(bounds, &[255, 255], white(), black());
    assert_eq!(
        px,
        vec![
            Pixel { point: Point::new(-1, -1), color: white() },
            Pixel { point: Point::new(0, -1), color: white() },
        ]
    );
}

#[test]
fn glyph_long_coverage_is_cut_to_rectangle() {
    let bounds = Rectangle::new(Point::new(0, 0), Size::new(1, 1));
    let px = glyph_pixels(bounds, &[255, 9, 9], white(), black());
    assert_eq!(px, vec![Pixel { point: Point::new(0, 0), color: white() }]);
}

#[test]
fn glyph_zero_sized_draws_nothing() {
    let bounds = Rectangle::new(Point::new(0, 0), Size::new(0, 3));
    assert!(glyph_pixels(bounds, &[255, 255, 255], white(), black()).is_empty());
    let bounds = Rectangle::new(Point::new(0, 0), Size::new(3, 0));
    assert!(glyph_pixels(bounds, &[255, 255, 255], white(), black()).is_empty());
}

#[test]
fn glyph_blank_draws_nothing() {
    let bounds = Rectangle::new(Point::new(4, 4), Size::new(3, 2));
    assert!(glyph_pixels(bounds, &[0; 6], white(), black()).is_empty());
}

#[test]
fn glyph_solid_draws_text_color_everywhere() {
    let bounds = Rectangle::new(Point::new(4, 4), Size::new(3, 2));
    let red = Rgb::new(255, 0, 0);
    let px = glyph_pixels(bounds, &[255; 6], red, Rgb::new(0, 255, 255));
    let points: Vec<Point> = px.iter().map(|p| p.point).collect();
    assert_eq!(
        points,
        vec![
            Point::new(4, 4),
            Point::new(5, 4),
            Point::new(6, 4),
            Point::new(4, 5),
            Point::new(5, 5),
            Point::new(6, 5),
        ]
    );
    assert!(px.iter().all(|p| p.color == red));
}

#[test]
fn glyph_columns_cut_at_coordinate_limit() {
    let bounds = Rectangle::new(Point::new(i32::MAX - 1, 0), Size::new(5, 2));
    let px = glyph_pixels(bounds, &[255, 255, 255], white(), black());
    assert_eq!(
        px,
        vec![
            Pixel { point: Point::new(i32::MAX - 1, 0), color: white() },
            Pixel { point: Point::new(i32::MAX - 1, 1), color: white() },
        ]
    );
}

#[test]
fn glyph_colors_lie_between_text_and_antialias_color() {
    let bounds = Rectangle::new(Point::new(0, 0), Size::new(4, 2));
    let text = Rgb::new(255, 0, 100);
    let aa = Rgb::new(0, 255, 100);
    let px = glyph_pixels(bounds, &[1, 50, 0, 128, 200, 254, 255, 7], text, aa);
    assert_eq!(px.len(), 7);
    for p in &px {
        assert_eq!(p.color.b, 100);
        assert_eq!(p.color.r as u16 + p.color.g as u16 <= 255, true);
    }
    assert_eq!(px[0].color, Rgb::new(1, 254, 100));
    assert_eq!(px[6].point, Point::new(3, 1));
    assert_eq!(px[5].color, Rgb::new(255, 0, 100));
}
