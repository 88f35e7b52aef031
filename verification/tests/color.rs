use eg_femtofont::color::{alpha_composite, inverse, Rgb, CHANNEL_MAX};

#[test]
fn composite_half_red_over_blue() {
    let c = alpha_composite(Rgb::new(0, 0, 255), Rgb::new(255, 0, 0), 128);
    assert_eq!(c, Rgb::new(128, 0, 127));
}

#[test]
fn composite_rounds_down() {
    let c = alpha_composite(Rgb::new(10, 20, 30), Rgb::new(200, 100, 50), 64);
    assert_eq!(c, Rgb::new(57, 40, 35));
}

#[test]
fn composite_opaque_is_foreground() {
    let bg = Rgb::new(1, 2, 3);
    let fg = Rgb::new(250, 128, 7);
    assert_eq!(alpha_composite(bg, fg, 255), fg);
}

#[test]
fn composite_transparent_is_background() {
    let bg = Rgb::new(1, 2, 3);
    let fg = Rgb::new(250, 128, 7);
    assert_eq!(alpha_composite(bg, fg, 0), bg);
}

#[test]
fn composite_same_color_is_unchanged() {
    let c = Rgb::new(17, 200, 255);
    for a in [0u8, 1, 77, 128, 254, 255] {
        assert_eq!(alpha_composite(c, c, a), c);
    }
}

#[test]
fn composite_extremes_do_not_overflow() {
    let white = Rgb::new(255, 255, 255);
    for a in [0u8, 1, 128, 254, 255] {
        assert_eq!(alpha_composite(white, white, a), white);
    }
    assert_eq!(alpha_composite(Rgb::new(0, 0, 0), white, 1), Rgb::new(1, 1, 1));
    assert_eq!(alpha_composite(white, Rgb::new(0, 0, 0), 1), Rgb::new(254, 254, 254));
}

#[test]
fn composite_moves_towards_foreground() {
    let bg = Rgb::new(0, 255, 100);
    let fg = Rgb::new(255, 0, 100);
    let mut prev = alpha_composite(bg, fg, 0);
    for a in 1..=255u8 {
        let c = alpha_composite(bg, fg, a);
        assert!(c.r >= prev.r);
        assert!(c.g <= prev.g);
        assert_eq!(c.b, 100);
        prev = c;
    }
}

#[test]
fn inverse_of_color() {
    assert_eq!(inverse(Rgb::new(10, 20, 30)), Rgb::new(245, 235, 225));
    assert_eq!(inverse(Rgb::new(0, 255, 128)), Rgb::new(255, 0, 127));
    assert_eq!(CHANNEL_MAX, 255);
}

#[test]
fn inverse_twice_is_identity() {
    let c = Rgb::new(3, 141, 59);
    assert_eq!(inverse(inverse(c)), c);
}
