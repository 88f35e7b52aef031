use vstd::prelude::*;

use crate::geometry::{Point, Rectangle, Size, fits_i32};

verus! {

/// Text vertical alignment
#[derive(Clone, Copy, Debug, PartialEq, Eq, Structural)]
pub enum VerticalAlign {
    /// Aligns to top of max height
    Top,
    /// Aligns to bottom of max height
    Bottom,
    /// Aligns to middle of max height
    Middle,
}

impl Default for VerticalAlign {
    fn default() -> (v: VerticalAlign)
        ensures
            v == VerticalAlign::Top,
    {
        VerticalAlign::Top
    }
}

/// The line a text position refers to, relative to the glyphs drawn there.
#[derive(Clone, Copy, Debug, PartialEq, Eq, Structural)]
pub enum TextBaseline {
    /// The position is the top of the text.
    Top,
    /// The position is the bottom of the text.
    Bottom,
    /// The position is the middle of the text.
    Middle,
    /// The position is the alphabetic baseline the glyphs sit on.
    Alphabetic,
}

/// `v / 2` rounded towards zero.
pub open spec fn half_toward_zero(v: int) -> int {
    if v >= 0 {
        v / 2
    } else {
        -((-v) / 2)
    }
}

/// How far down from a position given for `baseline` the alphabetic baseline
/// lies, for a font of the given ascent and descent in whole pixels.
pub open spec fn baseline_offset_of(ascent: u16, descent: u16, baseline: TextBaseline) -> int {
    match baseline {
        TextBaseline::Top => if ascent >= 1 {
            ascent - 1
        } else {
            0
        },
        TextBaseline::Bottom => -descent,
        TextBaseline::Middle => half_toward_zero(ascent - descent),
        TextBaseline::Alphabetic => 0,
    }
}

/// The vertical offset from a position given for `baseline` to the
/// alphabetic baseline, for a font of the given ascent and descent.
pub fn baseline_offset(ascent: u16, descent: u16, baseline: TextBaseline) -> (offset: i32)
    ensures
        offset == baseline_offset_of(ascent, descent, baseline),
{
    match baseline {
        TextBaseline::Top => ascent.saturating_sub(1) as i32,
        TextBaseline::Bottom => -(descent as i32),
        TextBaseline::Middle => (ascent as i32 - descent as i32) / 2,
        TextBaseline::Alphabetic => 0,
    }
}

/// The offset for the middle of the text lies between the offsets for its
/// bottom and for its top, and the alphabetic baseline needs none.
pub proof fn lemma_middle_between_bottom_and_top(ascent: u16, descent: u16)
    ensures
        baseline_offset_of(ascent, descent, TextBaseline::Bottom) <= baseline_offset_of(
            ascent,
            descent,
            TextBaseline::Middle,
        ) <= baseline_offset_of(ascent, descent, TextBaseline::Top),
        baseline_offset_of(ascent, descent, TextBaseline::Alphabetic) == 0,
{
}

/// The position on the alphabetic baseline for a position given with the
/// baseline offset `offset`.
pub fn baseline_origin(position: Point, offset: i32) -> (p: Point)
    requires
        fits_i32(position.y + offset),
    ensures
        p == (Point { x: position.x, y: (position.y + offset) as i32 }),
{
    position.translate(Point::new(0, offset))
}

/// Where drawing continues after `width` pixels of whitespace drawn at
/// `position` with the baseline offset `offset`.
pub fn whitespace_end(position: Point, offset: i32, width: u32) -> (p: Point)
    requires
        fits_i32(position.y + offset),
        width <= i32::MAX,
        fits_i32(position.x + width),
    ensures
        p == (Point { x: (position.x + width) as i32, y: (position.y + offset) as i32 }),
{
    let position = baseline_origin(position, offset);
    position.add_size(Size::new(width, 0))
}

/// The extent of a measured string: the box it covers and where the next
/// text continues.
#[derive(Clone, Copy, Debug, PartialEq, Eq, Structural)]
pub struct TextMetrics {
    pub bounding_box: Rectangle,
    pub next_position: Point,
}

/// How far above the baseline the box of a measured string starts: the
/// ascent less one, at least zero, plus the vertical advance of its glyphs.
pub open spec fn measured_rise(ascent: u16, advance_y: u32) -> int {
    (if ascent >= 1 {
        ascent - 1
    } else {
        0
    }) + advance_y
}


/// What each baseline asks of the text: for `Top` the baseline lies the
/// ascent less one (at least zero) below the position, whatever the descent;
/// for `Bottom` it lies the descent above it, whatever the ascent; for
/// `Middle` the offset is half of ascent minus descent, rounded towards zero;
/// for `Alphabetic` the position already is on the baseline.
pub proof fn lemma_baseline_offsets(ascent: u16, descent: u16, other_ascent: u16, other_descent: u16)
    ensures
        ascent >= 1 ==> baseline_offset_of(ascent, descent, TextBaseline::Top) == ascent - 1,
        ascent == 0 ==> baseline_offset_of(ascent, descent, TextBaseline::Top) == 0,
        baseline_offset_of(ascent, descent, TextBaseline::Top) == baseline_offset_of(
            ascent,
            other_descent,
            TextBaseline::Top,
        ),
        baseline_offset_of(ascent, descent, TextBaseline::Bottom) + descent == 0,
        baseline_offset_of(ascent, descent, TextBaseline::Bottom) == baseline_offset_of(
            other_ascent,
            descent,
            TextBaseline::Bottom,
        ),
        ascent >= descent ==> 0 <= (ascent - descent) - 2 * baseline_offset_of(
            ascent,
            descent,
            TextBaseline::Middle,
        ) <= 1,
        ascent < descent ==> 0 <= 2 * baseline_offset_of(ascent, descent, TextBaseline::Middle) - (
        ascent - descent) <= 1,
        baseline_offset_of(ascent, descent, TextBaseline::Alphabetic) == 0,
{
}

/// The box of a measured string starts the ascent less one (at least zero)
/// above the baseline for text without vertical advance, and every pixel of
/// vertical advance raises it by one more.
pub proof fn lemma_measured_rise(ascent: u16, advance_y: u32)
    ensures
        ascent >= 1 ==> measured_rise(ascent, 0) == ascent - 1,
        ascent == 0 ==> measured_rise(ascent, 0) == 0,
        measured_rise(ascent, advance_y) == measured_rise(ascent, 0) + advance_y,
{
}

/// The metrics of a string laid out from `origin` on the baseline, whose
/// glyphs advance by `advance_x` and `advance_y` pixels in total, in a font of
/// the given ascent and line height.
pub fn string_metrics(
    origin: Point,
    ascent: u16,
    advance_x: u32,
    advance_y: u32,
    line_height: u32,
) -> (m: TextMetrics)
    requires
        measured_rise(ascent, advance_y) <= i32::MAX,
        fits_i32(origin.y - measured_rise(ascent, advance_y)),
        advance_x <= i32::MAX,
        fits_i32(origin.x + advance_x),
    ensures
        m.bounding_box == (Rectangle {
            top_left: Point {
                x: origin.x,
                y: (origin.y - measured_rise(ascent, advance_y)) as i32,
            },
            size: Size { width: advance_x, height: line_height },
        }),
        m.next_position == (Point { x: (origin.x + advance_x) as i32, y: origin.y }),
{
    let rise = ascent.saturating_sub(1) as u32 + advance_y;
    let bounding_box = Rectangle::new(
        origin.sub_size(Size::new(0, rise)),
        Size::new(advance_x, line_height),
    );
    TextMetrics { bounding_box, next_position: origin.add_size(Size::new(advance_x, 0)) }
}

} // verus!
