//! The closed catalogue of emotions, single-emotion cells and tick statistics.

use crate::colors::Rgba;
use crate::fixed::{add_capped, fraction, mul_fixed, least, product, ratio, saturated, UNIT};
use vstd::prelude::*;

verus! {

/// The emotions that a cell of the automaton can carry.
#[derive(Debug, Clone, Copy, PartialEq, Eq, Hash, Structural)]
pub enum EmotionType {
    Joy,
    Sadness,
    Anger,
    Fear,
    Disgust,
    Anxiety,
    Love,
    Envy,
    Embarrassment,
}

impl EmotionType {
    /// The catalogue, in its fixed order.
    pub open spec fn catalog() -> Seq<EmotionType> {
        seq![
            EmotionType::Joy,
            EmotionType::Sadness,
            EmotionType::Anger,
            EmotionType::Fear,
            EmotionType::Disgust,
            EmotionType::Anxiety,
            EmotionType::Love,
            EmotionType::Envy,
            EmotionType::Embarrassment,
        ]
    }

    /// The position of an emotion in the catalogue.
    pub open spec fn rank(self) -> int {
        match self {
            EmotionType::Joy => 0,
            EmotionType::Sadness => 1,
            EmotionType::Anger => 2,
            EmotionType::Fear => 3,
            EmotionType::Disgust => 4,
            EmotionType::Anxiety => 5,
            EmotionType::Love => 6,
            EmotionType::Envy => 7,
            EmotionType::Embarrassment => 8,
        }
    }

    /// The display colour of an emotion.
    pub open spec fn color_of(self) -> Rgba {
        match self {
            EmotionType::Joy => Rgba::of(640_000, 750_000, 550_000, 1_000_000),
            EmotionType::Sadness => Rgba::of(370_000, 510_000, 680_000, 1_000_000),
            EmotionType::Anger => Rgba::of(750_000, 380_000, 420_000, 1_000_000),
            EmotionType::Fear => Rgba::of(710_000, 560_000, 680_000, 1_000_000),
            EmotionType::Disgust => Rgba::of(920_000, 800_000, 550_000, 1_000_000),
            EmotionType::Anxiety => Rgba::of(640_000, 750_000, 550_000, 1_000_000),
            EmotionType::Love => Rgba::of(850_000, 870_000, 910_000, 1_000_000),
            EmotionType::Envy => Rgba::of(370_000, 510_000, 680_000, 1_000_000),
            EmotionType::Embarrassment => Rgba::of(710_000, 560_000, 680_000, 1_000_000),
        }
    }

    /// The English name of an emotion.
    pub open spec fn name_of(self) -> Seq<char> {
        match self {
            EmotionType::Joy => "Joy"@,
            EmotionType::Sadness => "Sadness"@,
            EmotionType::Anger => "Anger"@,
            EmotionType::Fear => "Fear"@,
            EmotionType::Disgust => "Disgust"@,
            EmotionType::Anxiety => "Anxiety"@,
            EmotionType::Love => "Love"@,
            EmotionType::Envy => "Envy"@,
            EmotionType::Embarrassment => "Embarrassment"@,
        }
    }

    /// The pictograph that stands for an emotion.
    pub open spec fn emoji_of(self) -> Seq<char> {
        match self {
            EmotionType::Joy => "\u{1F60A}"@,
            EmotionType::Sadness => "\u{1F622}"@,
            EmotionType::Anger => "\u{1F621}"@,
            EmotionType::Fear => "\u{1F628}"@,
            EmotionType::Disgust => "\u{1F922}"@,
            EmotionType::Anxiety => "\u{1F630}"@,
            EmotionType::Love => "\u{1F495}"@,
            EmotionType::Envy => "\u{1F612}"@,
            EmotionType::Embarrassment => "\u{1F633}"@,
        }
    }

    /// Every emotion of the catalogue, in catalogue order.
    pub fn all() -> (v: Vec<EmotionType>)
        ensures
            v@ == Self::catalog(),
    {
        let mut v: Vec<EmotionType> = Vec::new();
        v.push(EmotionType::Joy);
        v.push(EmotionType::Sadness);
        v.push(EmotionType::Anger);
        v.push(EmotionType::Fear);
        v.push(EmotionType::Disgust);
        v.push(EmotionType::Anxiety);
        v.push(EmotionType::Love);
        v.push(EmotionType::Envy);
        v.push(EmotionType::Embarrassment);
        assert(v@ =~= Self::catalog());
        v
    }

    pub fn color(&self) -> (c: Rgba)
        ensures
            c == self.color_of(),
    {
        match self {
            EmotionType::Joy => Rgba::new(640_000, 750_000, 550_000, 1_000_000),
            EmotionType::Sadness => Rgba::new(370_000, 510_000, 680_000, 1_000_000),
            EmotionType::Anger => Rgba::new(750_000, 380_000, 420_000, 1_000_000),
            EmotionType::Fear => Rgba::new(710_000, 560_000, 680_000, 1_000_000),
            EmotionType::Disgust => Rgba::new(920_000, 800_000, 550_000, 1_000_000),
            EmotionType::Anxiety => Rgba::new(640_000, 750_000, 550_000, 1_000_000),
            EmotionType::Love => Rgba::new(850_000, 870_000, 910_000, 1_000_000),
            EmotionType::Envy => Rgba::new(370_000, 510_000, 680_000, 1_000_000),
            EmotionType::Embarrassment => Rgba::new(710_000, 560_000, 680_000, 1_000_000),
        }
    }

    pub fn name(&self) -> (s: &'static str)
        ensures
            s@ == self.name_of(),
    {
        match self {
            EmotionType::Joy => "Joy",
            EmotionType::Sadness => "Sadness",
            EmotionType::Anger => "Anger",
            EmotionType::Fear => "Fear",
            EmotionType::Disgust => "Disgust",
            EmotionType::Anxiety => "Anxiety",
            EmotionType::Love => "Love",
            EmotionType::Envy => "Envy",
            EmotionType::Embarrassment => "Embarrassment",
        }
    }

    pub fn emoji(&self) -> (s: &'static str)
        ensures
            s@ == self.emoji_of(),
    {
        match self {
            EmotionType::Joy => "\u{1F60A}",
            EmotionType::Sadness => "\u{1F622}",
            EmotionType::Anger => "\u{1F621}",
            EmotionType::Fear => "\u{1F628}",
            EmotionType::Disgust => "\u{1F922}",
            EmotionType::Anxiety => "\u{1F630}",
            EmotionType::Love => "\u{1F495}",
            EmotionType::Envy => "\u{1F612}",
            EmotionType::Embarrassment => "\u{1F633}",
        }
    }
}

/// The intensity above which a cell's emotion is shown and spreads: one tenth.
pub const SIGNIFICANT: u64 = 100_000;

/// One cell of the automaton.
#[derive(Debug, Clone, Copy, PartialEq, Eq)]
pub struct EmotionCell {
    pub alive: bool,
    pub emotion: Option<EmotionType>,
    /// Fixed-point strength of the emotion; `UNIT` is the most a cell is given.
    pub intensity: u64,
}

impl EmotionCell {
    /// The dead, empty cell.
    pub open spec fn empty() -> EmotionCell {
        EmotionCell { alive: false, emotion: None, intensity: 0 }
    }

    /// A live cell carrying `emotion`, its intensity cut off at `UNIT`.
    pub open spec fn seeded(emotion: EmotionType, intensity: u64) -> EmotionCell {
        EmotionCell {
            alive: true,
            emotion: Some(emotion),
            intensity: least(intensity as int, UNIT as int) as u64,
        }
    }

    /// The cell is alive and carries an emotion above the significance
    /// threshold.
    pub open spec fn expressive(self) -> bool {
        self.alive && self.emotion is Some && self.intensity > SIGNIFICANT
    }

    /// The factor by which an expressive cell's colour is dimmed: three tenths
    /// plus seven tenths of the intensity.
    pub open spec fn brightness(self) -> int {
        saturated(300_000 + ratio(self.intensity as int, 7, 10))
    }

    /// The colour in which the cell is drawn.
    pub open spec fn shown(self) -> Rgba {
        if self.expressive() {
            let base = self.emotion->0.color_of();
            Rgba::of(
                saturated(product(base.r as int, self.brightness())),
                saturated(product(base.g as int, self.brightness())),
                saturated(product(base.b as int, self.brightness())),
                base.a as int,
            )
        } else if self.alive {
            Rgba::of(400_000, 400_000, 400_000, 1_000_000)
        } else {
            Rgba::of(0, 0, 0, 0)
        }
    }

    pub fn new() -> (c: EmotionCell)
        ensures
            c == Self::empty(),
    {
        EmotionCell { alive: false, emotion: None, intensity: 0 }
    }

    pub fn new_with_emotion(emotion: EmotionType, intensity: u64) -> (c: EmotionCell)
        ensures
            c == Self::seeded(emotion, intensity),
    {
        let clamped: u64 = if intensity > UNIT {
            UNIT
        } else {
            intensity
        };
        EmotionCell { alive: true, emotion: Some(emotion), intensity: clamped }
    }

    pub fn display_color(&self) -> (c: Rgba)
        ensures
            c == self.shown(),
    {
        if self.alive && self.emotion.is_some() && self.intensity > SIGNIFICANT {
            let base = self.emotion.unwrap().color();
            let brightness: u64 = add_capped(300_000, fraction(self.intensity, 7, 10), u64::MAX);
            Rgba::new(
                dim(base.r, brightness),
                dim(base.g, brightness),
                dim(base.b, brightness),
                base.a,
            )
        } else if self.alive {
            Rgba::new(400_000, 400_000, 400_000, 1_000_000)
        } else {
            Rgba::new(0, 0, 0, 0)
        }
    }
}

fn dim(channel: u64, brightness: u64) -> (r: u64)
    ensures
        r == saturated(product(channel as int, brightness as int)),
{
    let wide: u128 = mul_fixed(channel, brightness);
    if wide > u64::MAX as u128 {
        u64::MAX
    } else {
        wide as u64
    }
}

/// What one tick changed, and what the grid holds after it.
#[derive(Debug, Clone, Copy, PartialEq, Eq)]
pub struct GridStats {
    pub alive_count: u32,
    pub emotion_count: u32,
    pub births: u32,
    pub deaths: u32,
    pub emotion_spreads: u32,
}

impl GridStats {
    pub fn new() -> (s: GridStats)
        ensures
            s == (GridStats {
                alive_count: 0,
                emotion_count: 0,
                births: 0,
                deaths: 0,
                emotion_spreads: 0,
            }),
    {
        GridStats { alive_count: 0, emotion_count: 0, births: 0, deaths: 0, emotion_spreads: 0 }
    }
}

} // verus!
