use vstd::prelude::*;

verus! {

/// The largest value of a colour channel.
pub const CHANNEL_MAX: u8 = 255;

/// A colour with three 8 bit channels (red, green, blue).
#[derive(Clone, Copy, Debug, PartialEq, Eq, Structural)]
pub struct Rgb {
    pub r: u8,
    pub g: u8,
    pub b: u8,
}

impl Rgb {
    /// Builds a colour from its three channels.
    pub fn new(r: u8, g: u8, b: u8) -> (c: Rgb)
        ensures
            c == (Rgb { r, g, b }),
    {
        Rgb { r, g, b }
    }
}

/// One channel of `foreground` laid over `background` with opacity `alpha`
/// out of 255, rounded down.
pub open spec fn blend_channel(background: u8, foreground: u8, alpha: u8) -> int {
    (foreground * alpha + background * (255 - alpha)) / 255
}

/// `foreground` laid over `background` with opacity `alpha`, channel by channel.
pub open spec fn blend(background: Rgb, foreground: Rgb, alpha: u8) -> Rgb {
    Rgb {
        r: blend_channel(background.r, foreground.r, alpha) as u8,
        g: blend_channel(background.g, foreground.g, alpha) as u8,
        b: blend_channel(background.b, foreground.b, alpha) as u8,
    }
}

/// The colour whose every channel is `CHANNEL_MAX` minus the channel of `c`.
pub open spec fn inverse_of(c: Rgb) -> Rgb {
    Rgb { r: (255 - c.r) as u8, g: (255 - c.g) as u8, b: (255 - c.b) as u8 }
}

proof fn lemma_channel_sum_bound(f: u16, b: u16, a: u16)
    by (nonlinear_arith)
    requires
        f <= 255,
        b <= 255,
        a <= 255,
    ensures
        f * a <= 255 * a,
        b * (255 - a) <= 255 * (255 - a),
        f * a + b * (255 - a) <= 65025,
{
}

/// Lays `foreground` over `background` with opacity `alpha` (0 is fully
/// transparent, 255 fully opaque).
pub fn alpha_composite(background: Rgb, foreground: Rgb, alpha: u8) -> (c: Rgb)
    ensures
        c == blend(background, foreground, alpha),
{
    let (r1, g1, b1) = (foreground.r as u16, foreground.g as u16, foreground.b as u16);
    let (r2, g2, b2) = (background.r as u16, background.g as u16, background.b as u16);

    let alpha = alpha as u16;
    let p = 255 - alpha;

    proof {
        lemma_channel_sum_bound(r1, r2, alpha);
        lemma_channel_sum_bound(g1, g2, alpha);
        lemma_channel_sum_bound(b1, b2, alpha);
    }

    Rgb::new(
        ((r1 * alpha + r2 * p) / 255) as u8,
        ((g1 * alpha + g2 * p) / 255) as u8,
        ((b1 * alpha + b2 * p) / 255) as u8,
    )
}

/// The inverse of a colour: each channel is replaced by `CHANNEL_MAX` minus it.
pub fn inverse(col: Rgb) -> (c: Rgb)
    ensures
        c == inverse_of(col),
{
    let (r, g, b) = (col.r, col.g, col.b);
    Rgb::new(CHANNEL_MAX - r, CHANNEL_MAX - g, CHANNEL_MAX - b)
}


/// Blending with full opacity yields the foreground, with no opacity the
/// background.
pub proof fn lemma_blend_endpoints(background: Rgb, foreground: Rgb)
    ensures
        blend(background, foreground, 255) == foreground,
        blend(background, foreground, 0) == background,
{
}

/// Blending a colour with itself yields that colour, whatever the opacity.
pub proof fn lemma_blend_same_color(c: Rgb, alpha: u8)
    ensures
        blend(c, c, alpha) == c,
{
    assert forall|x: u8| #![auto] blend_channel(x, x, alpha) == x by {
        assert(x * alpha + x * (255 - alpha) == x * 255) by (nonlinear_arith);
    }
}

/// Each blended channel lies between the background's and the foreground's
/// channel.
pub proof fn lemma_blend_channel_between(background: u8, foreground: u8, alpha: u8)
    ensures
        background <= foreground ==> background <= blend_channel(background, foreground, alpha)
            <= foreground,
        foreground <= background ==> foreground <= blend_channel(background, foreground, alpha)
            <= background,
{
    let a = alpha as int;
    let f = foreground as int;
    let b = background as int;
    let s = f * a + b * (255 - a);
    assert(s == b * 255 + (f - b) * a) by (nonlinear_arith)
        requires s == f * a + b * (255 - a);
    if b <= f {
        assert(b * 255 <= s <= f * 255) by (nonlinear_arith)
            requires s == b * 255 + (f - b) * a, 0 <= a <= 255, b <= f;
    } else {
        assert(f * 255 <= s <= b * 255) by (nonlinear_arith)
            requires s == b * 255 + (f - b) * a, 0 <= a <= 255, f <= b;
    }
}


/// Whether every channel of `c` lies between the same channel of `a` and `b`.
pub open spec fn color_between(a: Rgb, b: Rgb, c: Rgb) -> bool {
    &&& (a.r <= b.r ==> a.r <= c.r <= b.r) && (b.r <= a.r ==> b.r <= c.r <= a.r)
    &&& (a.g <= b.g ==> a.g <= c.g <= b.g) && (b.g <= a.g ==> b.g <= c.g <= a.g)
    &&& (a.b <= b.b ==> a.b <= c.b <= b.b) && (b.b <= a.b ==> b.b <= c.b <= a.b)
}

/// A blended colour lies, channel by channel, between the background and the
/// foreground.
pub proof fn lemma_blend_between(background: Rgb, foreground: Rgb, alpha: u8)
    ensures
        color_between(background, foreground, blend(background, foreground, alpha)),
{
    lemma_blend_channel_between(background.r, foreground.r, alpha);
    lemma_blend_channel_between(background.g, foreground.g, alpha);
    lemma_blend_channel_between(background.b, foreground.b, alpha);
}


/// Each blended channel is the weighted mean of the two channels, with the
/// opacity as the foreground's weight out of 255, rounded down:
/// `255 * c <= fg * alpha + bg * (255 - alpha) < 255 * (c + 1)`.
pub proof fn lemma_blend_is_weighted_mean(background: Rgb, foreground: Rgb, alpha: u8)
    ensures
        255 * blend(background, foreground, alpha).r <= foreground.r * alpha + background.r * (255
            - alpha) < 255 * (blend(background, foreground, alpha).r + 1),
        255 * blend(background, foreground, alpha).g <= foreground.g * alpha + background.g * (255
            - alpha) < 255 * (blend(background, foreground, alpha).g + 1),
        255 * blend(background, foreground, alpha).b <= foreground.b * alpha + background.b * (255
            - alpha) < 255 * (blend(background, foreground, alpha).b + 1),
{
    lemma_blend_between(background, foreground, alpha);
    let c = blend(background, foreground, alpha);
    let sr = foreground.r * alpha + background.r * (255 - alpha);
    let sg = foreground.g * alpha + background.g * (255 - alpha);
    let sb = foreground.b * alpha + background.b * (255 - alpha);
    vstd::arithmetic::div_mod::lemma_fundamental_div_mod(sr, 255);
    vstd::arithmetic::div_mod::lemma_fundamental_div_mod(sg, 255);
    vstd::arithmetic::div_mod::lemma_fundamental_div_mod(sb, 255);
    vstd::arithmetic::div_mod::lemma_mod_bound(sr, 255);
    vstd::arithmetic::div_mod::lemma_mod_bound(sg, 255);
    vstd::arithmetic::div_mod::lemma_mod_bound(sb, 255);
    lemma_blend_channel_between(background.r, foreground.r, alpha);
    lemma_blend_channel_between(background.g, foreground.g, alpha);
    lemma_blend_channel_between(background.b, foreground.b, alpha);
    assert(c.r == sr / 255);
    assert(c.g == sg / 255);
    assert(c.b == sb / 255);
}

/// White laid over black with opacity `alpha` is the gray of level `alpha`.
pub proof fn lemma_blend_white_over_black_is_gray(alpha: u8)
    ensures
        blend(Rgb { r: 0, g: 0, b: 0 }, Rgb { r: 255, g: 255, b: 255 }, alpha) == (Rgb {
            r: alpha,
            g: alpha,
            b: alpha,
        }),
{
    let c = blend(Rgb { r: 0, g: 0, b: 0 }, Rgb { r: 255, g: 255, b: 255 }, alpha);
    lemma_blend_is_weighted_mean(Rgb { r: 0, g: 0, b: 0 }, Rgb { r: 255, g: 255, b: 255 }, alpha);
    assert(c.r == alpha) by (nonlinear_arith)
        requires 255 * c.r <= 255 * alpha < 255 * (c.r + 1);
    assert(c.g == alpha) by (nonlinear_arith)
        requires 255 * c.g <= 255 * alpha < 255 * (c.g + 1);
    assert(c.b == alpha) by (nonlinear_arith)
        requires 255 * c.b <= 255 * alpha < 255 * (c.b + 1);
}

/// A colour and its inverse add up to `CHANNEL_MAX` in every channel.
pub proof fn lemma_inverse_complements(c: Rgb)
    ensures
        c.r + inverse_of(c).r == CHANNEL_MAX,
        c.g + inverse_of(c).g == CHANNEL_MAX,
        c.b + inverse_of(c).b == CHANNEL_MAX,
{
}

/// A higher opacity never moves a channel away from the foreground.
pub proof fn lemma_blend_channel_monotone(background: u8, foreground: u8, a1: u8, a2: u8)
    requires
        a1 <= a2,
    ensures
        background <= foreground ==> blend_channel(background, foreground, a1) <= blend_channel(
            background,
            foreground,
            a2,
        ),
        foreground <= background ==> blend_channel(background, foreground, a2) <= blend_channel(
            background,
            foreground,
            a1,
        ),
{
    let f = foreground as int;
    let b = background as int;
    let s1 = f * a1 + b * (255 - a1);
    let s2 = f * a2 + b * (255 - a2);
    assert(s2 - s1 == (f - b) * (a2 - a1)) by (nonlinear_arith)
        requires s1 == f * a1 + b * (255 - a1), s2 == f * a2 + b * (255 - a2);
    if b <= f {
        assert(s1 <= s2) by (nonlinear_arith)
            requires s2 - s1 == (f - b) * (a2 - a1), b <= f, a1 <= a2;
        vstd::arithmetic::div_mod::lemma_div_is_ordered(s1, s2, 255);
    }
    if f <= b {
        assert(s2 <= s1) by (nonlinear_arith)
            requires s2 - s1 == (f - b) * (a2 - a1), f <= b, a1 <= a2;
        vstd::arithmetic::div_mod::lemma_div_is_ordered(s2, s1, 255);
    }
}

/// Inverting a colour twice gives it back.
pub proof fn lemma_inverse_involution(c: Rgb)
    ensures
        inverse_of(inverse_of(c)) == c,
{
}

/// A colour and its inverse differ in every channel by at least one, so
/// anti-aliasing towards the inverse always has a distinct colour to blend with.
pub proof fn lemma_inverse_differs(c: Rgb)
    ensures
        inverse_of(c).r != c.r,
        inverse_of(c).g != c.g,
        inverse_of(c).b != c.b,
{
}

} // verus!
