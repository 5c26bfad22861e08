//! Colours with fixed-point channels, and the Nord palette.

use crate::fixed::{least, monus, mul_fixed, product, saturated, UNIT};
use vstd::prelude::*;

verus! {

/// A colour whose four channels are fixed-point fractions: `UNIT` is full
/// strength, zero is none.
#[derive(Clone, Copy, Debug, PartialEq, Eq, Structural)]
pub struct Rgba {
    pub r: u64,
    pub g: u64,
    pub b: u64,
    pub a: u64,
}

impl Rgba {
    /// Every channel lies between zero and full strength.
    pub open spec fn in_gamut(self) -> bool {
        self.r <= UNIT && self.g <= UNIT && self.b <= UNIT && self.a <= UNIT
    }

    /// The colour with the given channels.
    pub open spec fn of(r: int, g: int, b: int, a: int) -> Rgba {
        Rgba { r: r as u64, g: g as u64, b: b as u64, a: a as u64 }
    }

    /// The opaque colour with the given channels in hundredths.
    pub open spec fn percent(r: int, g: int, b: int) -> Rgba {
        Rgba::of(r * 10_000, g * 10_000, b * 10_000, 1_000_000)
    }

    pub fn new(r: u64, g: u64, b: u64, a: u64) -> (c: Rgba)
        ensures
            c == (Rgba { r, g, b, a }),
    {
        Rgba { r, g, b, a }
    }
}

fn opaque(r: u64, g: u64, b: u64) -> (c: Rgba)
    requires
        r <= 100,
        g <= 100,
        b <= 100,
    ensures
        c == Rgba::percent(r as int, g as int, b as int),
        c.in_gamut(),
{
    Rgba { r: r * 10_000, g: g * 10_000, b: b * 10_000, a: 1_000_000 }
}

/// A channel on the way from `from` to `to`: `from` plus `factor` times the
/// difference, not below zero and not above the largest `u64`.
pub open spec fn mix(from: u64, to: u64, factor: u64) -> int {
    if to >= from {
        saturated(from + product(to - from, factor as int))
    } else {
        monus(from as int, product(from - to, factor as int))
    }
}

fn mix_channel(from: u64, to: u64, factor: u64) -> (c: u64)
    ensures
        c == mix(from, to, factor),
        factor <= UNIT ==> least(from as int, to as int) <= c <= if from >= to {
            from
        } else {
            to
        },
        to <= from ==> c <= from,
{
    proof {
        if to == from {
            let gap: int = to - from;
            assert(gap * factor == 0) by (nonlinear_arith)
                requires
                    gap == 0,
            ;
        }
        if factor <= UNIT {
            let gap: int = if to >= from {
                to - from
            } else {
                from - to
            };
            assert(0 <= gap * factor <= gap * UNIT) by (nonlinear_arith)
                requires
                    0 <= gap,
                    0 <= factor <= UNIT,
            ;
            assert(gap * UNIT / (UNIT as int) == gap) by (nonlinear_arith);
            assert(0 <= gap * factor / (UNIT as int) <= gap * UNIT / (UNIT as int))
                by (nonlinear_arith)
                requires
                    0 <= gap * factor <= gap * UNIT,
            ;
        }
    }
    if to >= from {
        let step: u128 = mul_fixed(to - from, factor);
        if step > (u64::MAX - from) as u128 {
            u64::MAX
        } else {
            from + step as u64
        }
    } else {
        let step: u128 = mul_fixed(from - to, factor);
        if step >= from as u128 {
            0
        } else {
            from - step as u64
        }
    }
}

/// The Nord palette, and ways to vary a colour.
pub struct NordColors;

impl NordColors {
    /// The darkest background of the palette.
    pub fn base00() -> (c: Rgba)
        ensures
            c == Rgba::percent(18, 20, 25),
    {
        opaque(18, 20, 25)
    }

    pub fn base01() -> (c: Rgba)
        ensures
            c == Rgba::percent(23, 26, 32),
    {
        opaque(23, 26, 32)
    }

    pub fn base02() -> (c: Rgba)
        ensures
            c == Rgba::percent(26, 30, 37),
    {
        opaque(26, 30, 37)
    }

    pub fn base03() -> (c: Rgba)
        ensures
            c == Rgba::percent(30, 34, 42),
    {
        opaque(30, 34, 42)
    }

    /// The dimmest of the light foregrounds.
    pub fn base04() -> (c: Rgba)
        ensures
            c == Rgba::percent(85, 87, 91),
    {
        opaque(85, 87, 91)
    }

    pub fn base05() -> (c: Rgba)
        ensures
            c == Rgba::percent(90, 91, 94),
    {
        opaque(90, 91, 94)
    }

    pub fn base06() -> (c: Rgba)
        ensures
            c == Rgba::percent(93, 94, 96),
    {
        opaque(93, 94, 96)
    }

    pub fn frost_cyan() -> (c: Rgba)
        ensures
            c == Rgba::percent(56, 74, 73),
    {
        opaque(56, 74, 73)
    }

    pub fn frost_light_blue() -> (c: Rgba)
        ensures
            c == Rgba::percent(53, 75, 82),
    {
        opaque(53, 75, 82)
    }

    pub fn frost_medium_blue() -> (c: Rgba)
        ensures
            c == Rgba::percent(51, 63, 76),
    {
        opaque(51, 63, 76)
    }

    pub fn frost_dark_blue() -> (c: Rgba)
        ensures
            c == Rgba::percent(37, 51, 67),
    {
        opaque(37, 51, 67)
    }

    pub fn aurora_red() -> (c: Rgba)
        ensures
            c == Rgba::percent(75, 38, 42),
    {
        opaque(75, 38, 42)
    }

    pub fn aurora_orange() -> (c: Rgba)
        ensures
            c == Rgba::percent(82, 53, 44),
    {
        opaque(82, 53, 44)
    }

    pub fn aurora_yellow() -> (c: Rgba)
        ensures
            c == Rgba::percent(92, 80, 55),
    {
        opaque(92, 80, 55)
    }

    pub fn aurora_green() -> (c: Rgba)
        ensures
            c == Rgba::percent(64, 75, 55),
    {
        opaque(64, 75, 55)
    }

    pub fn aurora_purple() -> (c: Rgba)
        ensures
            c == Rgba::percent(71, 56, 68),
    {
        opaque(71, 56, 68)
    }

    /// The colour with another opacity.
    pub fn with_alpha(color: Rgba, alpha: u64) -> (c: Rgba)
        ensures
            c == (Rgba { a: alpha, ..color }),
    {
        Rgba { r: color.r, g: color.g, b: color.b, a: alpha }
    }

    /// The colour that lies `factor` of the way from `color1` to `color2`,
    /// channel by channel. Up to a factor of one it lies between the two.
    pub fn blend(color1: Rgba, color2: Rgba, factor: u64) -> (c: Rgba)
        ensures
            c == Rgba::of(
                mix(color1.r, color2.r, factor),
                mix(color1.g, color2.g, factor),
                mix(color1.b, color2.b, factor),
                mix(color1.a, color2.a, factor),
            ),
            factor <= UNIT && color1.in_gamut() && color2.in_gamut() ==> c.in_gamut(),
    {
        Rgba {
            r: mix_channel(color1.r, color2.r, factor),
            g: mix_channel(color1.g, color2.g, factor),
            b: mix_channel(color1.b, color2.b, factor),
            a: mix_channel(color1.a, color2.a, factor),
        }
    }

    /// The colour `factor` of the way to black, as opaque as before.
    pub fn darken(color: Rgba, factor: u64) -> (c: Rgba)
        ensures
            c == Rgba::of(
                mix(color.r, 0, factor),
                mix(color.g, 0, factor),
                mix(color.b, 0, factor),
                color.a as int,
            ),
            c.r <= color.r && c.g <= color.g && c.b <= color.b,
    {
        Rgba {
            r: mix_channel(color.r, 0, factor),
            g: mix_channel(color.g, 0, factor),
            b: mix_channel(color.b, 0, factor),
            a: color.a,
        }
    }

    /// The colour `factor` of the way to white, as opaque as before. A
    /// channel already above full strength moves down to it.
    pub fn lighten(color: Rgba, factor: u64) -> (c: Rgba)
        ensures
            c == Rgba::of(
                mix(color.r, UNIT, factor),
                mix(color.g, UNIT, factor),
                mix(color.b, UNIT, factor),
                color.a as int,
            ),
            factor <= UNIT && color.in_gamut() ==> c.in_gamut() && c.r >= color.r && c.g
                >= color.g && c.b >= color.b,
    {
        Rgba {
            r: mix_channel(color.r, UNIT, factor),
            g: mix_channel(color.g, UNIT, factor),
            b: mix_channel(color.b, UNIT, factor),
            a: color.a,
        }
    }
}

/// The Nord colour of the emotion with the given name.
pub open spec fn nord_color_of(name: Seq<char>) -> Rgba {
    if name == "Joy"@ {
        Rgba::percent(92, 80, 55)
    } else if name == "Sadness"@ {
        Rgba::percent(51, 63, 76)
    } else if name == "Anger"@ {
        Rgba::percent(75, 38, 42)
    } else if name == "Fear"@ {
        Rgba::percent(71, 56, 68)
    } else if name == "Disgust"@ {
        Rgba::percent(64, 75, 55)
    } else if name == "Anxiety"@ {
        Rgba::percent(37, 51, 67)
    } else if name == "Love"@ {
        Rgba::percent(82, 53, 44)
    } else if name == "Envy"@ {
        Rgba::percent(56, 74, 73)
    } else if name == "Embarrassment"@ {
        Rgba::percent(85, 50, 65)
    } else {
        Rgba::percent(85, 87, 91)
    }
}

/// Maps the name of an emotion to its colour in the Nord palette; any other
/// name to the palette's light foreground.
pub fn emotion_to_nord_color(emotion_type: &str) -> (c: Rgba)
    ensures
        c == nord_color_of(emotion_type@),
        c.in_gamut(),
{
    let name = emotion_type.to_owned();
    if name == "Joy".to_owned() {
        NordColors::aurora_yellow()
    } else if name == "Sadness".to_owned() {
        NordColors::frost_medium_blue()
    } else if name == "Anger".to_owned() {
        NordColors::aurora_red()
    } else if name == "Fear".to_owned() {
        NordColors::aurora_purple()
    } else if name == "Disgust".to_owned() {
        NordColors::aurora_green()
    } else if name == "Anxiety".to_owned() {
        NordColors::frost_dark_blue()
    } else if name == "Love".to_owned() {
        NordColors::aurora_orange()
    } else if name == "Envy".to_owned() {
        NordColors::frost_cyan()
    } else if name == "Embarrassment".to_owned() {
        opaque(85, 50, 65)
    } else {
        NordColors::base04()
    }
}

/// The colours of the interface, by their role.
pub struct NordUI;

impl NordUI {
    pub fn background() -> (c: Rgba)
        ensures
            c == Rgba::percent(18, 20, 25),
    {
        NordColors::base00()
    }

    pub fn panel_background() -> (c: Rgba)
        ensures
            c == Rgba::percent(23, 26, 32),
    {
        NordColors::base01()
    }

    pub fn button_background() -> (c: Rgba)
        ensures
            c == Rgba::percent(26, 30, 37),
    {
        NordColors::base02()
    }

    pub fn button_hover() -> (c: Rgba)
        ensures
            c == Rgba::percent(30, 34, 42),
    {
        NordColors::base03()
    }

    pub fn text_primary() -> (c: Rgba)
        ensures
            c == Rgba::percent(90, 91, 94),
    {
        NordColors::base05()
    }

    pub fn text_secondary() -> (c: Rgba)
        ensures
            c == Rgba::percent(85, 87, 91),
    {
        NordColors::base04()
    }

    pub fn text_accent() -> (c: Rgba)
        ensures
            c == Rgba::percent(53, 75, 82),
    {
        NordColors::frost_light_blue()
    }

    pub fn grid_lines() -> (c: Rgba)
        ensures
            c == Rgba::percent(26, 30, 37),
    {
        NordColors::base02()
    }

    pub fn grid_background() -> (c: Rgba)
        ensures
            c == Rgba::percent(23, 26, 32),
    {
        NordColors::base01()
    }

    pub fn success() -> (c: Rgba)
        ensures
            c == Rgba::percent(64, 75, 55),
    {
        NordColors::aurora_green()
    }

    pub fn warning() -> (c: Rgba)
        ensures
            c == Rgba::percent(92, 80, 55),
    {
        NordColors::aurora_yellow()
    }

    pub fn error() -> (c: Rgba)
        ensures
            c == Rgba::percent(75, 38, 42),
    {
        NordColors::aurora_red()
    }

    pub fn info() -> (c: Rgba)
        ensures
            c == Rgba::percent(53, 75, 82),
    {
        NordColors::frost_light_blue()
    }
}

} // verus!
