use vstd::prelude::*;

use crate::color::{Rgb, alpha_composite, blend, color_between, lemma_blend_between};
use crate::geometry::{Point, Rectangle, min_int};

verus! {

/// A point on the display together with the colour to draw there.
#[derive(Clone, Copy, Debug, PartialEq, Eq, Structural)]
pub struct Pixel {
    pub point: Point,
    pub color: Rgb,
}

/// How many coverage values a glyph drawn in `bounds` consumes: one per point
/// of the rectangle, as long as the coverage lasts.
pub open spec fn consumed_count(bounds: Rectangle, coverage: Seq<u8>) -> nat {
    min_int(coverage.len() as int, bounds.point_count()) as nat
}

/// The pixels drawn for the first `n` points of `bounds`: the `i`-th point
/// is paired with the `i`-th coverage value; a point with coverage 0 is left
/// untouched, any other gets `color` laid over `antialias_color` with the
/// coverage as opacity.
pub open spec fn glyph_pixel_seq(
    bounds: Rectangle,
    coverage: Seq<u8>,
    color: Rgb,
    antialias_color: Rgb,
    n: nat,
) -> Seq<Pixel>
    decreases n,
{
    if n == 0 {
        Seq::empty()
    } else {
        let prev = glyph_pixel_seq(bounds, coverage, color, antialias_color, (n - 1) as nat);
        let level = coverage[n - 1];
        if level != 0 {
            prev.push(
                Pixel { point: bounds.point_at(n - 1), color: blend(antialias_color, color, level) },
            )
        } else {
            prev
        }
    }
}

proof fn lemma_row_in_range(i: int, row: int, col: int, cols: int, rows: int)
    by (nonlinear_arith)
    requires
        0 <= col < cols,
        0 <= row,
        i == row * cols + col,
        i < cols * rows,
    ensures
        row < rows,
{
}

proof fn lemma_next_row(row: int, cols: int)
    by (nonlinear_arith)
    ensures
        row * cols + cols == (row + 1) * cols,
{
}

/// The pixels to draw for a rasterised glyph whose coverage bitmap is laid
/// out row by row over `bounds`, blending `color` towards `antialias_color`
/// where the coverage is partial.
pub fn glyph_pixels(bounds: Rectangle, coverage: &[u8], color: Rgb, antialias_color: Rgb) -> (pixels:
    Vec<Pixel>)
    ensures
        pixels@ == glyph_pixel_seq(
            bounds,
            coverage@,
            color,
            antialias_color,
            consumed_count(bounds, coverage@),
        ),
{
    let w = bounds.size.width;
    let h = bounds.size.height;
    let x0 = bounds.top_left.x;
    let y0 = bounds.top_left.y;
    let max: u64 = 0x7fff_ffff;
    let (cols, rows): (u64, u64) = if w == 0 || h == 0 {
        (0, 0)
    } else {
        let wc: u64 = if (w as u64) <= max { w as u64 } else { max };
        let hc: u64 = if (h as u64) <= max { h as u64 } else { max };
        let x_room: u64 = (0x7fff_ffff_i64 - x0 as i64) as u64;
        let y_room: u64 = (0x7fff_ffff_i64 - y0 as i64) as u64;
        (if wc <= x_room { wc } else { x_room }, if hc <= y_room { hc } else { y_room })
    };
    assert(cols == bounds.column_count());
    assert(rows == bounds.row_count());
    assert(cols * rows <= max * max) by (nonlinear_arith)
        requires cols <= max, rows <= max;
    let total: u64 = cols * rows;
    let n: usize = if (coverage.len() as u64) <= total { coverage.len() } else { total as usize };

    assert(n > 0 ==> cols > 0) by (nonlinear_arith)
        requires n <= total, total == cols * rows;
    let mut pixels: Vec<Pixel> = Vec::new();
    let mut i: usize = 0;
    let mut row: u64 = 0;
    let mut col: u64 = 0;
    while i < n
        invariant
            n == consumed_count(bounds, coverage@),
            n <= coverage@.len(),
            cols == bounds.column_count(),
            rows == bounds.row_count(),
            total == cols * rows,
            n <= total,
            i <= n,
            i as int == row * cols + col,
            n > 0 ==> col < cols,
            x0 == bounds.top_left.x,
            y0 == bounds.top_left.y,
            pixels@ == glyph_pixel_seq(bounds, coverage@, color, antialias_color, i as nat),
        decreases n - i,
    {
        proof {
            lemma_row_in_range(i as int, row as int, col as int, cols as int, rows as int);
            vstd::arithmetic::div_mod::lemma_fundamental_div_mod_converse(
                i as int,
                cols as int,
                row as int,
                col as int,
            );
        }
        let level = coverage[i];
        if level != 0 {
            let p = Point::new((x0 as i64 + col as i64) as i32, (y0 as i64 + row as i64) as i32);
            pixels.push(Pixel { point: p, color: alpha_composite(antialias_color, color, level) });
        }
        i = i + 1;
        col = col + 1;
        if col == cols {
            proof {
                lemma_next_row(row as int, cols as int);
            }
            col = 0;
            row = row + 1;
        }
    }
    pixels
}


/// The `i`-th point of a rectangle, for `i` below its point count, lies
/// inside the rectangle.
pub proof fn lemma_point_at_inside(bounds: Rectangle, i: int)
    requires
        0 <= i < bounds.point_count(),
    ensures
        bounds.contains(bounds.point_at(i)),
{
    let cols = bounds.column_count();
    let rows = bounds.row_count();
    assert(cols > 0 && rows > 0) by (nonlinear_arith)
        requires 0 <= i < cols * rows, cols >= 0, rows >= 0;
    vstd::arithmetic::div_mod::lemma_mod_bound(i, cols);
    vstd::arithmetic::div_mod::lemma_div_pos_is_pos(i, cols);
    vstd::arithmetic::div_mod::lemma_fundamental_div_mod(i, cols);
    let q = i / cols;
    let r = i % cols;
    assert(q < rows) by (nonlinear_arith)
        requires i == cols * q + r, 0 <= r, i < cols * rows, cols > 0;
}

/// Every pixel a glyph produces lies inside the glyph's rectangle, and a glyph
/// never produces more pixels than the points it covers.
pub proof fn lemma_glyph_pixels_inside(
    bounds: Rectangle,
    coverage: Seq<u8>,
    color: Rgb,
    antialias_color: Rgb,
    n: nat,
)
    requires
        n <= bounds.point_count(),
        n <= coverage.len(),
    ensures
        glyph_pixel_seq(bounds, coverage, color, antialias_color, n).len() <= n,
        forall|k: int|
            0 <= k < glyph_pixel_seq(bounds, coverage, color, antialias_color, n).len()
                ==> bounds.contains(
                #[trigger] glyph_pixel_seq(bounds, coverage, color, antialias_color, n)[k].point,
            ),
    decreases n,
{
    if n > 0 {
        lemma_glyph_pixels_inside(bounds, coverage, color, antialias_color, (n - 1) as nat);
        lemma_point_at_inside(bounds, n - 1);
    }
}


/// Every pixel of a glyph has a colour between the anti-aliasing colour and
/// the text colour, channel by channel.
pub proof fn lemma_glyph_pixel_colors_between(
    bounds: Rectangle,
    coverage: Seq<u8>,
    color: Rgb,
    antialias_color: Rgb,
    n: nat,
)
    requires
        n <= coverage.len(),
    ensures
        forall|k: int|
            0 <= k < glyph_pixel_seq(bounds, coverage, color, antialias_color, n).len()
                ==> color_between(
                antialias_color,
                color,
                #[trigger] glyph_pixel_seq(bounds, coverage, color, antialias_color, n)[k].color,
            ),
    decreases n,
{
    if n > 0 {
        let prev = glyph_pixel_seq(bounds, coverage, color, antialias_color, (n - 1) as nat);
        let cur = glyph_pixel_seq(bounds, coverage, color, antialias_color, n);
        lemma_glyph_pixel_colors_between(bounds, coverage, color, antialias_color, (n - 1) as nat);
        lemma_blend_between(antialias_color, color, coverage[n - 1]);
        assert forall|k: int| 0 <= k < cur.len() implies color_between(
            antialias_color,
            color,
            #[trigger] cur[k].color,
        ) by {
            if k < prev.len() {
                assert(cur[k] == prev[k]);
            }
        }
    }
}



/// A glyph consumes its whole coverage when the coverage fits the points of
/// its rectangle, and one value per point otherwise.
pub proof fn lemma_consumed_count(bounds: Rectangle, coverage: Seq<u8>)
    ensures
        coverage.len() <= bounds.point_count() ==> consumed_count(bounds, coverage)
            == coverage.len(),
        bounds.point_count() <= coverage.len() ==> consumed_count(bounds, coverage)
            == bounds.point_count(),
{
}

/// How many of the first `n` coverage values are non-zero.
pub open spec fn nonzero_count(coverage: Seq<u8>, n: int) -> nat {
    coverage.take(n).filter(|l: u8| l != 0).len()
}

proof fn lemma_nonzero_count_step(coverage: Seq<u8>, n: int)
    requires
        0 <= n < coverage.len(),
    ensures
        nonzero_count(coverage, n + 1) == nonzero_count(coverage, n) + (if coverage[n] != 0 {
            1int
        } else {
            0int
        }),
{
    assert(coverage.take(n + 1) =~= coverage.take(n).push(coverage[n]));
    coverage.take(n).lemma_filter_push(coverage[n], |l: u8| l != 0);
}

/// The `i`-th point of a rectangle is `i / columns` rows below and
/// `i % columns` columns right of its top left corner: the point in row `r`
/// and column `c` is the one with index `r * columns + c`.
pub proof fn lemma_point_at_row_major(bounds: Rectangle, r: int, c: int)
    requires
        0 <= r < bounds.row_count(),
        0 <= c < bounds.column_count(),
    ensures
        bounds.point_at(r * bounds.column_count() + c) == (Point {
            x: (bounds.top_left.x + c) as i32,
            y: (bounds.top_left.y + r) as i32,
        }),
{
    vstd::arithmetic::div_mod::lemma_fundamental_div_mod_converse(
        r * bounds.column_count() + c,
        bounds.column_count(),
        r,
        c,
    );
}

/// A glyph draws exactly one pixel per non-zero coverage value among those it
/// consumes, and no other: the pixel for the `i`-th coverage value sits at the
/// `i`-th point of the rectangle, has the text colour laid over the
/// anti-aliasing colour with that coverage as opacity, and comes after the
/// pixels of all earlier non-zero coverage values.
pub proof fn lemma_glyph_pixels_complete(
    bounds: Rectangle,
    coverage: Seq<u8>,
    color: Rgb,
    antialias_color: Rgb,
    n: nat,
)
    requires
        n <= coverage.len(),
    ensures
        glyph_pixel_seq(bounds, coverage, color, antialias_color, n).len() == nonzero_count(
            coverage,
            n as int,
        ),
        forall|i: int|
            0 <= i < n && coverage[i] != 0 ==> #[trigger] glyph_pixel_seq(
                bounds,
                coverage,
                color,
                antialias_color,
                n,
            )[nonzero_count(coverage, i) as int] == (Pixel {
                point: bounds.point_at(i),
                color: blend(antialias_color, color, coverage[i]),
            }),
    decreases n,
{
    if n == 0 {
        assert(coverage.take(0) =~= Seq::<u8>::empty());
        reveal(Seq::filter);
    } else {
        let m = (n - 1) as nat;
        lemma_glyph_pixels_complete(bounds, coverage, color, antialias_color, m);
        lemma_nonzero_count_step(coverage, m as int);
        let prev = glyph_pixel_seq(bounds, coverage, color, antialias_color, m);
        let cur = glyph_pixel_seq(bounds, coverage, color, antialias_color, n);
        assert forall|i: int| 0 <= i < n && coverage[i] != 0 implies #[trigger] cur[nonzero_count(
            coverage,
            i,
        ) as int] == (Pixel {
            point: bounds.point_at(i),
            color: blend(antialias_color, color, coverage[i]),
        }) by {
            if i < m {
                lemma_nonzero_count_monotone(coverage, i + 1, m as int);
                lemma_nonzero_count_step(coverage, i);
                assert(prev[nonzero_count(coverage, i) as int] == (Pixel {
                    point: bounds.point_at(i),
                    color: blend(antialias_color, color, coverage[i]),
                }));
            }
        }
    }
}

proof fn lemma_nonzero_count_monotone(coverage: Seq<u8>, a: int, b: int)
    requires
        0 <= a <= b <= coverage.len(),
    ensures
        nonzero_count(coverage, a) <= nonzero_count(coverage, b),
    decreases b - a,
{
    if a < b {
        lemma_nonzero_count_monotone(coverage, a, b - 1);
        lemma_nonzero_count_step(coverage, b - 1);
    }
}

/// A glyph whose coverage is zero everywhere draws nothing.
pub proof fn lemma_blank_glyph_draws_nothing(
    bounds: Rectangle,
    coverage: Seq<u8>,
    color: Rgb,
    antialias_color: Rgb,
    n: nat,
)
    requires
        n <= coverage.len(),
        forall|i: int| 0 <= i < n ==> coverage[i] == 0,
    ensures
        glyph_pixel_seq(bounds, coverage, color, antialias_color, n) =~= Seq::<Pixel>::empty(),
    decreases n,
{
    if n > 0 {
        lemma_blank_glyph_draws_nothing(bounds, coverage, color, antialias_color, (n - 1) as nat);
    }
}

/// A glyph fully covering its points draws every point, in order, in exactly
/// the text colour, whatever the anti-aliasing colour.
pub proof fn lemma_solid_glyph_draws_text_color(
    bounds: Rectangle,
    coverage: Seq<u8>,
    color: Rgb,
    antialias_color: Rgb,
    n: nat,
)
    requires
        n <= coverage.len(),
        forall|i: int| 0 <= i < n ==> coverage[i] == 255,
    ensures
        glyph_pixel_seq(bounds, coverage, color, antialias_color, n).len() == n,
        forall|k: int|
            0 <= k < n ==> #[trigger] glyph_pixel_seq(bounds, coverage, color, antialias_color, n)[k]
                == (Pixel { point: bounds.point_at(k), color }),
    decreases n,
{
    if n > 0 {
        lemma_solid_glyph_draws_text_color(bounds, coverage, color, antialias_color, (n - 1) as nat);
        crate::color::lemma_blend_endpoints(antialias_color, color);
    }
}

} // verus!
