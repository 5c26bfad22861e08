//! Emotion kinds, their catalogue of defaults, and single emotions.

use crate::colors::Rgba;
use crate::fixed::{add_capped, least, monus, mul_capped, mul_fixed, product, saturated, UNIT};
use vstd::prelude::*;
use vstd::std_specs::cmp::PartialEqSpecImpl;

verus! {

/// The kinds of emotion: nine built-in ones, and any other under a name.
#[derive(Debug, Hash)]
pub enum EmotionType {
    Joy,
    Sadness,
    Anger,
    Fear,
    Disgust,
    Anxiety,
    Love,
    Envy,
    Embarrassment,
    Custom(String),
}

/// An emotion kind as a value: a custom kind is its name.
pub enum Kind {
    Joy,
    Sadness,
    Anger,
    Fear,
    Disgust,
    Anxiety,
    Love,
    Envy,
    Embarrassment,
    Custom(Seq<char>),
}

impl View for EmotionType {
    type V = Kind;

    open spec fn view(&self) -> Kind {
        match self {
            EmotionType::Joy => Kind::Joy,
            EmotionType::Sadness => Kind::Sadness,
            EmotionType::Anger => Kind::Anger,
            EmotionType::Fear => Kind::Fear,
            EmotionType::Disgust => Kind::Disgust,
            EmotionType::Anxiety => Kind::Anxiety,
            EmotionType::Love => Kind::Love,
            EmotionType::Envy => Kind::Envy,
            EmotionType::Embarrassment => Kind::Embarrassment,
            EmotionType::Custom(name) => Kind::Custom(name@),
        }
    }
}

impl Clone for EmotionType {
    fn clone(&self) -> (copy: Self)
        ensures
            copy@ == self@,
    {
        match self {
            EmotionType::Joy => EmotionType::Joy,
            EmotionType::Sadness => EmotionType::Sadness,
            EmotionType::Anger => EmotionType::Anger,
            EmotionType::Fear => EmotionType::Fear,
            EmotionType::Disgust => EmotionType::Disgust,
            EmotionType::Anxiety => EmotionType::Anxiety,
            EmotionType::Love => EmotionType::Love,
            EmotionType::Envy => EmotionType::Envy,
            EmotionType::Embarrassment => EmotionType::Embarrassment,
            EmotionType::Custom(name) => EmotionType::Custom(name.clone()),
        }
    }
}

impl PartialEq for EmotionType {
    fn eq(&self, other: &Self) -> (same: bool) {
        match (self, other) {
            (EmotionType::Joy, EmotionType::Joy) => true,
            (EmotionType::Sadness, EmotionType::Sadness) => true,
            (EmotionType::Anger, EmotionType::Anger) => true,
            (EmotionType::Fear, EmotionType::Fear) => true,
            (EmotionType::Disgust, EmotionType::Disgust) => true,
            (EmotionType::Anxiety, EmotionType::Anxiety) => true,
            (EmotionType::Love, EmotionType::Love) => true,
            (EmotionType::Envy, EmotionType::Envy) => true,
            (EmotionType::Embarrassment, EmotionType::Embarrassment) => true,
            (EmotionType::Custom(a), EmotionType::Custom(b)) => *a == *b,
            _ => false,
        }
    }
}

impl PartialEqSpecImpl for EmotionType {
    open spec fn obeys_eq_spec() -> bool {
        true
    }

    /// Two kinds are equal where they are the same built-in kind or custom
    /// kinds of the same name.
    open spec fn eq_spec(&self, other: &Self) -> bool {
        self@ == other@
    }
}

impl Eq for EmotionType {

}

/// The neighbour thresholds and rates by which an emotion kind lives, dies
/// and passes on.
#[derive(Debug, Clone, Copy, PartialEq, Eq)]
pub struct ContagionRules {
    /// The number of neighbours at which the emotion appears in a cell.
    pub birth_neighbors: i32,
    /// The fewest neighbours with which the emotion survives.
    pub survival_min: i32,
    /// The most neighbours with which the emotion survives.
    pub survival_max: i32,
    /// The fixed-point chance of passing to a neighbour in a tick.
    pub transmission_rate: u64,
    /// The fixed-point fraction of intensity lost in a tick.
    pub decay_rate: u64,
}

impl ContagionRules {
    /// The survival range is not empty, and both rates are fractions.
    pub open spec fn wf(self) -> bool {
        &&& 0 <= self.birth_neighbors <= 8
        &&& 0 <= self.survival_min <= self.survival_max <= 8
        &&& self.transmission_rate <= UNIT
        &&& self.decay_rate <= UNIT
    }

    /// Whether a cell with `neighbors` live neighbours is alive after a tick
    /// under these rules: a live cell stays alive within the survival range,
    /// a dead one comes alive at exactly the birth count.
    pub open spec fn sustains(self, alive: bool, neighbors: int) -> bool {
        if alive {
            self.survival_min <= neighbors <= self.survival_max
        } else {
            neighbors == self.birth_neighbors
        }
    }

    /// Decides whether a cell is alive after a tick under these rules.
    pub fn next_alive(&self, alive: bool, neighbors: u8) -> (lives: bool)
        ensures
            lives == self.sustains(alive, neighbors as int),
    {
        if alive {
            self.survival_min <= neighbors as i32 && neighbors as i32 <= self.survival_max
        } else {
            neighbors as i32 == self.birth_neighbors
        }
    }

    /// The rules with the given numbers.
    pub open spec fn of(birth: int, min: int, max: int, transmission: int, decay: int) -> Self {
        ContagionRules {
            birth_neighbors: birth as i32,
            survival_min: min as i32,
            survival_max: max as i32,
            transmission_rate: transmission as u64,
            decay_rate: decay as u64,
        }
    }
}

impl Kind {
    /// The display name of a kind.
    pub open spec fn name(self) -> Seq<char> {
        match self {
            Kind::Joy => "Joy"@,
            Kind::Sadness => "Sadness"@,
            Kind::Anger => "Anger"@,
            Kind::Fear => "Fear"@,
            Kind::Disgust => "Disgust"@,
            Kind::Anxiety => "Anxiety"@,
            Kind::Love => "Love"@,
            Kind::Envy => "Envy"@,
            Kind::Embarrassment => "Embarrassment"@,
            Kind::Custom(name) => name,
        }
    }

    /// The colour that an emotion of this kind has unless it is given another.
    pub open spec fn color(self) -> Rgba {
        match self {
            Kind::Joy => Rgba::of(990_000, 980_000, 0, 1_000_000),
            Kind::Sadness => Rgba::of(0, 470_000, 950_000, 1_000_000),
            Kind::Anger => Rgba::of(900_000, 160_000, 220_000, 1_000_000),
            Kind::Fear => Rgba::of(780_000, 480_000, 1_000_000, 1_000_000),
            Kind::Disgust => Rgba::of(0, 890_000, 190_000, 1_000_000),
            Kind::Anxiety => Rgba::of(1_000_000, 630_000, 0, 1_000_000),
            Kind::Love => Rgba::of(1_000_000, 430_000, 760_000, 1_000_000),
            Kind::Envy => Rgba::of(0, 460_000, 170_000, 1_000_000),
            Kind::Embarrassment => Rgba::of(1_000_000, 700_000, 700_000, 1_000_000),
            Kind::Custom(_) => Rgba::of(510_000, 510_000, 510_000, 1_000_000),
        }
    }

    /// The fraction of its intensity that an emotion of this kind offers to
    /// what is around it.
    pub open spec fn spread_rate(self) -> u64 {
        match self {
            Kind::Joy => 800_000,
            Kind::Love => 700_000,
            Kind::Anger => 600_000,
            Kind::Fear => 500_000,
            Kind::Anxiety => 400_000,
            Kind::Sadness => 300_000,
            Kind::Disgust => 200_000,
            Kind::Embarrassment => 200_000,
            Kind::Envy => 100_000,
            Kind::Custom(_) => 500_000,
        }
    }

    /// The intensity that an emotion of this kind loses in a unit of time.
    pub open spec fn decay_rate(self) -> u64 {
        match self {
            Kind::Joy => 20_000,
            Kind::Love => 10_000,
            Kind::Sadness => 15_000,
            Kind::Anger => 50_000,
            Kind::Fear => 40_000,
            Kind::Anxiety => 30_000,
            Kind::Disgust => 40_000,
            Kind::Embarrassment => 60_000,
            Kind::Envy => 25_000,
            Kind::Custom(_) => 30_000,
        }
    }

    /// The contagion rules of this kind.
    pub open spec fn rules(self) -> ContagionRules {
        match self {
            Kind::Joy => ContagionRules::of(3, 2, 3, 400_000, 50_000),
            Kind::Sadness => ContagionRules::of(2, 2, 4, 300_000, 100_000),
            Kind::Anger => ContagionRules::of(3, 1, 3, 800_000, 200_000),
            Kind::Anxiety => ContagionRules::of(4, 2, 6, 600_000, 150_000),
            Kind::Love => ContagionRules::of(2, 1, 4, 300_000, 30_000),
            _ => ContagionRules::of(3, 2, 3, 300_000, 100_000),
        }
    }
}

impl EmotionType {
    /// The colour that an emotion of this kind has unless it is given another.
    pub fn default_color(&self) -> (c: Rgba)
        ensures
            c == self@.color(),
            c.in_gamut(),
    {
        match self {
            EmotionType::Joy => Rgba::new(990_000, 980_000, 0, 1_000_000),
            EmotionType::Sadness => Rgba::new(0, 470_000, 950_000, 1_000_000),
            EmotionType::Anger => Rgba::new(900_000, 160_000, 220_000, 1_000_000),
            EmotionType::Fear => Rgba::new(780_000, 480_000, 1_000_000, 1_000_000),
            EmotionType::Disgust => Rgba::new(0, 890_000, 190_000, 1_000_000),
            EmotionType::Anxiety => Rgba::new(1_000_000, 630_000, 0, 1_000_000),
            EmotionType::Love => Rgba::new(1_000_000, 430_000, 760_000, 1_000_000),
            EmotionType::Envy => Rgba::new(0, 460_000, 170_000, 1_000_000),
            EmotionType::Embarrassment => Rgba::new(1_000_000, 700_000, 700_000, 1_000_000),
            EmotionType::Custom(_) => Rgba::new(510_000, 510_000, 510_000, 1_000_000),
        }
    }

    /// The display name: for a custom kind, the name it was given.
    pub fn name(&self) -> (s: String)
        ensures
            s@ == self@.name(),
    {
        match self {
            EmotionType::Joy => "Joy".to_owned(),
            EmotionType::Sadness => "Sadness".to_owned(),
            EmotionType::Anger => "Anger".to_owned(),
            EmotionType::Fear => "Fear".to_owned(),
            EmotionType::Disgust => "Disgust".to_owned(),
            EmotionType::Anxiety => "Anxiety".to_owned(),
            EmotionType::Love => "Love".to_owned(),
            EmotionType::Envy => "Envy".to_owned(),
            EmotionType::Embarrassment => "Embarrassment".to_owned(),
            EmotionType::Custom(name) => name.clone(),
        }
    }

    /// The fraction of its intensity that an emotion of this kind offers to
    /// what is around it.
    pub fn default_spread_rate(&self) -> (rate: u64)
        ensures
            rate == self@.spread_rate(),
            rate <= UNIT,
    {
        match self {
            EmotionType::Joy => 800_000,
            EmotionType::Love => 700_000,
            EmotionType::Anger => 600_000,
            EmotionType::Fear => 500_000,
            EmotionType::Anxiety => 400_000,
            EmotionType::Sadness => 300_000,
            EmotionType::Disgust => 200_000,
            EmotionType::Embarrassment => 200_000,
            EmotionType::Envy => 100_000,
            EmotionType::Custom(_) => 500_000,
        }
    }

    /// The intensity that an emotion of this kind loses in a unit of time.
    pub fn default_decay_rate(&self) -> (rate: u64)
        ensures
            rate == self@.decay_rate(),
            rate <= UNIT,
    {
        match self {
            EmotionType::Joy => 20_000,
            EmotionType::Love => 10_000,
            EmotionType::Sadness => 15_000,
            EmotionType::Anger => 50_000,
            EmotionType::Fear => 40_000,
            EmotionType::Anxiety => 30_000,
            EmotionType::Disgust => 40_000,
            EmotionType::Embarrassment => 60_000,
            EmotionType::Envy => 25_000,
            EmotionType::Custom(_) => 30_000,
        }
    }

    /// The contagion rules of this kind. Kinds without rules of their own,
    /// custom kinds among them, get the rules of the classic game of life.
    pub fn contagion_rules(&self) -> (rules: ContagionRules)
        ensures
            rules == self@.rules(),
            rules.wf(),
    {
        match self {
            EmotionType::Joy => ContagionRules {
                birth_neighbors: 3,
                survival_min: 2,
                survival_max: 3,
                transmission_rate: 400_000,
                decay_rate: 50_000,
            },
            EmotionType::Sadness => ContagionRules {
                birth_neighbors: 2,
                survival_min: 2,
                survival_max: 4,
                transmission_rate: 300_000,
                decay_rate: 100_000,
            },
            EmotionType::Anger => ContagionRules {
                birth_neighbors: 3,
                survival_min: 1,
                survival_max: 3,
                transmission_rate: 800_000,
                decay_rate: 200_000,
            },
            EmotionType::Anxiety => ContagionRules {
                birth_neighbors: 4,
                survival_min: 2,
                survival_max: 6,
                transmission_rate: 600_000,
                decay_rate: 150_000,
            },
            EmotionType::Love => ContagionRules {
                birth_neighbors: 2,
                survival_min: 1,
                survival_max: 4,
                transmission_rate: 300_000,
                decay_rate: 30_000,
            },
            _ => ContagionRules {
                birth_neighbors: 3,
                survival_min: 2,
                survival_max: 3,
                transmission_rate: 300_000,
                decay_rate: 100_000,
            },
        }
    }
}

/// The kinds without rules of their own, and joy, live by Conway's rule.
pub proof fn lemma_classic_rules(kind: Kind, alive: bool, neighbors: nat)
    requires
        !(kind is Sadness || kind is Anger || kind is Anxiety || kind is Love),
    ensures
        kind.rules().sustains(alive, neighbors as int) == crate::life::grid::next_alive(
            alive,
            neighbors,
        ),
{
}

/// The intensity below which an emotion is dead: one hundredth.
pub const FAINT: u64 = 10_000;

/// The intensity above which an emotion is significant: one tenth.
pub const NOTABLE: u64 = 100_000;

/// The factor that a decay rate leaves of an intensity in `delta_time`: one
/// less the rate times the time, and nothing where that is one or more. In
/// one unit of time an emotion so loses the fraction `decay_rate`.
pub open spec fn kept(decay_rate: u64, delta_time: u64) -> int {
    monus(UNIT as int, product(decay_rate as int, delta_time as int))
}

/// Fading never raises an intensity. It lowers every intensity above zero
/// as soon as the decay rate times the time is a millionth or more; in one
/// unit of time the intensity `i` of an emotion with decay rate `r` becomes
/// `i * (1 - r)`.
pub proof fn lemma_fading(e: EmotionData, delta_time: u64)
    ensures
        0 <= product(e.intensity as int, kept(e.decay_rate, delta_time)) <= e.intensity,
        e.faded(delta_time).intensity <= e.intensity,
        e.intensity > 0 && product(e.decay_rate as int, delta_time as int) >= 1 ==> e.faded(
            delta_time,
        ).intensity < e.intensity,
        delta_time == UNIT && e.decay_rate <= UNIT ==> e.faded(delta_time).intensity
            == e.intensity * (UNIT - e.decay_rate) / (UNIT as int),
        e.bounded() ==> e.faded(delta_time).bounded(),
{
    let i = e.intensity as int;
    let k = kept(e.decay_rate, delta_time);
    let u = UNIT as int;
    assert(0 <= k <= u);
    assert(0 <= i * k <= i * u) by (nonlinear_arith)
        requires
            0 <= i,
            0 <= k <= u,
    ;
    assert(i * u / u == i) by (nonlinear_arith)
        requires
            u > 0,
    ;
    assert(0 <= i * k / u <= i * u / u) by (nonlinear_arith)
        requires
            0 <= i * k <= i * u,
            u > 0,
    ;
    if i > 0 && k < u {
        assert(i * k <= i * u - i) by (nonlinear_arith)
            requires
                0 < i,
                0 <= k <= u - 1,
        ;
        assert(i * k / u < i) by (nonlinear_arith)
            requires
                i * k <= i * u - i,
                0 <= i * k,
                0 < i,
                u > 0,
        ;
    }
    if delta_time == UNIT {
        let r = e.decay_rate as int;
        assert(r * u / u == r) by (nonlinear_arith)
            requires
                u > 0,
        ;
    }
}

/// One emotion: a kind, how intense it is and may become, how it spreads and
/// fades, and the colour it is drawn in. All quantities are fixed-point.
#[derive(Debug)]
pub struct Emotion {
    pub emotion_type: EmotionType,
    pub intensity: u64,
    pub spread_rate: u64,
    pub decay_rate: u64,
    pub max_intensity: u64,
    pub color: Rgba,
}

/// An emotion as a value.
pub struct EmotionData {
    pub kind: Kind,
    pub intensity: u64,
    pub spread_rate: u64,
    pub decay_rate: u64,
    pub max_intensity: u64,
    pub color: Rgba,
}

impl EmotionData {
    /// An emotion of `kind` with the defaults of its kind, its intensity cut
    /// off at `UNIT`, which is also the most it may reach.
    pub open spec fn fresh(kind: Kind, intensity: u64) -> EmotionData {
        EmotionData {
            kind,
            intensity: least(intensity as int, UNIT as int) as u64,
            spread_rate: kind.spread_rate(),
            decay_rate: kind.decay_rate(),
            max_intensity: UNIT,
            color: kind.color(),
        }
    }

    /// The same emotion at another intensity.
    pub open spec fn at(self, intensity: int) -> EmotionData {
        EmotionData { intensity: intensity as u64, ..self }
    }

    /// The emotion after `delta_time`: its intensity is multiplied by what
    /// its decay rate leaves of it in that time, see [`kept`].
    pub open spec fn faded(self, delta_time: u64) -> EmotionData {
        self.at(product(self.intensity as int, kept(self.decay_rate, delta_time)))
    }

    /// The emotion with `amount` more intensity, up to the most it may reach.
    pub open spec fn raised(self, amount: u64) -> EmotionData {
        self.at(least(self.intensity + amount, self.max_intensity as int))
    }

    /// The emotion with its intensity multiplied by `factor`, up to the most
    /// it may reach.
    pub open spec fn scaled(self, factor: u64) -> EmotionData {
        self.at(least(product(self.intensity as int, factor as int), self.max_intensity as int))
    }

    /// The emotion has all but vanished.
    pub open spec fn dead(self) -> bool {
        self.intensity < FAINT
    }

    /// What the emotion offers at `distance`: its intensity times its spread
    /// rate, divided by one plus the distance; nothing at distance zero.
    pub open spec fn spread(self, distance: u64) -> int {
        if distance == 0 {
            0
        } else {
            saturated(self.intensity * self.spread_rate / (UNIT + distance))
        }
    }

    /// The colour of the emotion, as opaque as the emotion is intense, but at
    /// least one tenth.
    pub open spec fn shown(self) -> Rgba {
        Rgba {
            a: if self.intensity < NOTABLE {
                NOTABLE
            } else {
                least(self.intensity as int, UNIT as int) as u64
            },
            ..self.color
        }
    }

    /// The intensity does not exceed what the emotion may reach, and that is
    /// at most `UNIT`.
    pub open spec fn bounded(self) -> bool {
        self.intensity <= self.max_intensity <= UNIT
    }
}

impl View for Emotion {
    type V = EmotionData;

    open spec fn view(&self) -> EmotionData {
        EmotionData {
            kind: self.emotion_type@,
            intensity: self.intensity,
            spread_rate: self.spread_rate,
            decay_rate: self.decay_rate,
            max_intensity: self.max_intensity,
            color: self.color,
        }
    }
}

impl Clone for Emotion {
    fn clone(&self) -> (copy: Self)
        ensures
            copy@ == self@,
    {
        Emotion {
            emotion_type: self.emotion_type.clone(),
            intensity: self.intensity,
            spread_rate: self.spread_rate,
            decay_rate: self.decay_rate,
            max_intensity: self.max_intensity,
            color: self.color,
        }
    }
}

impl Emotion {
    /// An emotion with the defaults of its kind.
    pub fn new(emotion_type: EmotionType, intensity: u64) -> (e: Emotion)
        ensures
            e@ == EmotionData::fresh(emotion_type@, intensity),
            e@.bounded(),
    {
        Emotion {
            spread_rate: emotion_type.default_spread_rate(),
            decay_rate: emotion_type.default_decay_rate(),
            max_intensity: UNIT,
            color: emotion_type.default_color(),
            emotion_type,
            intensity: if intensity > UNIT {
                UNIT
            } else {
                intensity
            },
        }
    }

    /// An emotion with rates and colour of its own.
    pub fn custom(
        emotion_type: EmotionType,
        intensity: u64,
        spread_rate: u64,
        decay_rate: u64,
        color: Rgba,
    ) -> (e: Emotion)
        ensures
            e@ == (EmotionData {
                kind: emotion_type@,
                intensity: least(intensity as int, UNIT as int) as u64,
                spread_rate,
                decay_rate,
                max_intensity: UNIT,
                color,
            }),
            e@.bounded(),
    {
        Emotion {
            emotion_type,
            intensity: if intensity > UNIT {
                UNIT
            } else {
                intensity
            },
            spread_rate,
            decay_rate,
            max_intensity: UNIT,
            color,
        }
    }

    /// Lets the emotion fade for `delta_time`.
    pub fn update(&mut self, delta_time: u64)
        ensures
            final(self)@ == old(self)@.faded(delta_time),
            final(self).intensity <= old(self).intensity,
    {
        proof {
            lemma_fading(self@, delta_time);
        }
        let lost: u128 = mul_fixed(self.decay_rate, delta_time);
        let left: u64 = if lost >= UNIT as u128 {
            0
        } else {
            UNIT - (lost as u64)
        };
        self.intensity = mul_capped(self.intensity, left, u64::MAX);
    }

    /// Adds `amount` to the intensity, up to the most the emotion may reach.
    pub fn add_intensity(&mut self, amount: u64)
        ensures
            final(self)@ == old(self)@.raised(amount),
    {
        self.intensity = add_capped(self.intensity, amount, self.max_intensity);
    }

    /// Multiplies the intensity by `factor`, up to the most the emotion may
    /// reach.
    pub fn multiply_intensity(&mut self, factor: u64)
        ensures
            final(self)@ == old(self)@.scaled(factor),
    {
        self.intensity = mul_capped(self.intensity, factor, self.max_intensity);
    }

    /// Whether the emotion has all but vanished.
    pub fn is_dead(&self) -> (dead: bool)
        ensures
            dead == self@.dead(),
    {
        self.intensity < FAINT
    }

    /// What the emotion offers at `distance`.
    pub fn calculate_spread(&self, distance: u64) -> (amount: u64)
        ensures
            amount == self@.spread(distance),
    {
        if distance == 0 {
            return 0;
        }
        proof {
            crate::fixed::lemma_product_fits(self.intensity, self.spread_rate);
        }
        let base: u128 = (self.intensity as u128) * (self.spread_rate as u128);
        let reach: u128 = (UNIT as u128) + (distance as u128);
        let share: u128 = base / reach;
        if share > u64::MAX as u128 {
            u64::MAX
        } else {
            share as u64
        }
    }

    /// The colour in which the emotion is drawn.
    pub fn visual_color(&self) -> (c: Rgba)
        ensures
            c == self@.shown(),
    {
        let alpha: u64 = if self.intensity < NOTABLE {
            NOTABLE
        } else if self.intensity > UNIT {
            UNIT
        } else {
            self.intensity
        };
        Rgba::new(self.color.r, self.color.g, self.color.b, alpha)
    }
}

} // verus!
