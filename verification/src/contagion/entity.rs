//! The characters that carry emotions through the world.

use crate::colors::{emotion_to_nord_color, nord_color_of, NordColors, Rgba};
use crate::contagion::emotion_set::{
    absorbed, faded, merged, passed_on, strongest, EmotionSet,
};
use crate::contagion::emotions::{Emotion, EmotionData, EmotionType, Kind};
use crate::fixed::{add_capped, saturated, UNIT};
use crate::world::Position;
use vstd::prelude::*;

verus! {

/// The six characters.
#[derive(Clone, Copy, Debug, PartialEq, Eq, Structural)]
pub enum CharacterType {
    HappyPerson,
    DepressedPerson,
    AngryPerson,
    AnxiousPerson,
    LoveSpreader,
    ChaosAgent,
}

impl CharacterType {
    /// The pictograph of a character.
    pub open spec fn emoji_of(self) -> Seq<char> {
        match self {
            CharacterType::HappyPerson => "\u{1F60A}"@,
            CharacterType::DepressedPerson => "\u{1F622}"@,
            CharacterType::AngryPerson => "\u{1F621}"@,
            CharacterType::AnxiousPerson => "\u{1F630}"@,
            CharacterType::LoveSpreader => "\u{1F495}"@,
            CharacterType::ChaosAgent => "\u{1F32A}\u{FE0F}"@,
        }
    }

    /// The name of a character.
    pub open spec fn name_of(self) -> Seq<char> {
        match self {
            CharacterType::HappyPerson => "Happy Person"@,
            CharacterType::DepressedPerson => "Depressed Person"@,
            CharacterType::AngryPerson => "Angry Person"@,
            CharacterType::AnxiousPerson => "Anxious Person"@,
            CharacterType::LoveSpreader => "Love Spreader"@,
            CharacterType::ChaosAgent => "Chaos Agent"@,
        }
    }

    /// The colour of a character.
    pub open spec fn color_of(self) -> Rgba {
        match self {
            CharacterType::HappyPerson => Rgba::percent(100, 84, 0),
            CharacterType::DepressedPerson => Rgba::percent(25, 41, 88),
            CharacterType::AngryPerson => Rgba::percent(86, 8, 24),
            CharacterType::AnxiousPerson => Rgba::percent(58, 44, 86),
            CharacterType::LoveSpreader => Rgba::percent(100, 41, 71),
            CharacterType::ChaosAgent => Rgba::percent(55, 0, 0),
        }
    }

    /// How far a character's emotion reaches, in cells.
    pub open spec fn radius_of(self) -> u64 {
        match self {
            CharacterType::HappyPerson => 2_000_000,
            CharacterType::DepressedPerson => 1_500_000,
            CharacterType::AngryPerson => 3_000_000,
            CharacterType::AnxiousPerson => 1_000_000,
            CharacterType::LoveSpreader => 2_500_000,
            CharacterType::ChaosAgent => 4_000_000,
        }
    }

    /// How strongly a character emits its emotion.
    pub open spec fn strength_of(self) -> u64 {
        match self {
            CharacterType::HappyPerson => 1_200_000,
            CharacterType::DepressedPerson => 1_000_000,
            CharacterType::AngryPerson => 2_000_000,
            CharacterType::AnxiousPerson => 1_500_000,
            CharacterType::LoveSpreader => 1_800_000,
            CharacterType::ChaosAgent => 3_000_000,
        }
    }

    /// The emotion that a character stands for.
    pub open spec fn emotion_of(self) -> Kind {
        match self {
            CharacterType::HappyPerson => Kind::Joy,
            CharacterType::DepressedPerson => Kind::Sadness,
            CharacterType::AngryPerson => Kind::Anger,
            CharacterType::AnxiousPerson => Kind::Anxiety,
            CharacterType::LoveSpreader => Kind::Love,
            CharacterType::ChaosAgent => Kind::Anger,
        }
    }

    pub fn emoji(&self) -> (s: &'static str)
        ensures
            s@ == self.emoji_of(),
    {
        match self {
            CharacterType::HappyPerson => "\u{1F60A}",
            CharacterType::DepressedPerson => "\u{1F622}",
            CharacterType::AngryPerson => "\u{1F621}",
            CharacterType::AnxiousPerson => "\u{1F630}",
            CharacterType::LoveSpreader => "\u{1F495}",
            CharacterType::ChaosAgent => "\u{1F32A}\u{FE0F}",
        }
    }

    pub fn name(&self) -> (s: &'static str)
        ensures
            s@ == self.name_of(),
    {
        match self {
            CharacterType::HappyPerson => "Happy Person",
            CharacterType::DepressedPerson => "Depressed Person",
            CharacterType::AngryPerson => "Angry Person",
            CharacterType::AnxiousPerson => "Anxious Person",
            CharacterType::LoveSpreader => "Love Spreader",
            CharacterType::ChaosAgent => "Chaos Agent",
        }
    }

    pub fn color(&self) -> (c: Rgba)
        ensures
            c == self.color_of(),
            c.in_gamut(),
    {
        match self {
            CharacterType::HappyPerson => Rgba::new(1_000_000, 840_000, 0, 1_000_000),
            CharacterType::DepressedPerson => Rgba::new(250_000, 410_000, 880_000, 1_000_000),
            CharacterType::AngryPerson => Rgba::new(860_000, 80_000, 240_000, 1_000_000),
            CharacterType::AnxiousPerson => Rgba::new(580_000, 440_000, 860_000, 1_000_000),
            CharacterType::LoveSpreader => Rgba::new(1_000_000, 410_000, 710_000, 1_000_000),
            CharacterType::ChaosAgent => Rgba::new(550_000, 0, 0, 1_000_000),
        }
    }

    pub fn emission_radius(&self) -> (radius: u64)
        ensures
            radius == self.radius_of(),
    {
        match self {
            CharacterType::HappyPerson => 2_000_000,
            CharacterType::DepressedPerson => 1_500_000,
            CharacterType::AngryPerson => 3_000_000,
            CharacterType::AnxiousPerson => 1_000_000,
            CharacterType::LoveSpreader => 2_500_000,
            CharacterType::ChaosAgent => 4_000_000,
        }
    }

    pub fn emission_strength(&self) -> (strength: u64)
        ensures
            strength == self.strength_of(),
    {
        match self {
            CharacterType::HappyPerson => 1_200_000,
            CharacterType::DepressedPerson => 1_000_000,
            CharacterType::AngryPerson => 2_000_000,
            CharacterType::AnxiousPerson => 1_500_000,
            CharacterType::LoveSpreader => 1_800_000,
            CharacterType::ChaosAgent => 3_000_000,
        }
    }

    pub fn primary_emotion(&self) -> (emotion: EmotionType)
        ensures
            emotion@ == self.emotion_of(),
    {
        match self {
            CharacterType::HappyPerson => EmotionType::Joy,
            CharacterType::DepressedPerson => EmotionType::Sadness,
            CharacterType::AngryPerson => EmotionType::Anger,
            CharacterType::AnxiousPerson => EmotionType::Anxiety,
            CharacterType::LoveSpreader => EmotionType::Love,
            CharacterType::ChaosAgent => EmotionType::Anger,
        }
    }
}

/// How a character moves. Speeds are in world units per unit of time, radii
/// and thresholds in world units, chances are fractions; all fixed-point.
#[derive(Clone, Copy, Debug, PartialEq, Eq)]
pub enum CharacterAI {
    RandomWalk { speed: u64 },
    AvoidCrowds { speed: u64, avoidance_radius: u64 },
    AggressiveApproach { speed: u64, target_radius: u64 },
    ErraticFleeing { speed: u64, panic_threshold: u64 },
    SeekSadness { speed: u64, healing_radius: u64 },
    PureChaos { speed: u64, teleport_chance: u64 },
}

/// The outline in which an entity is drawn.
#[derive(Clone, Copy, Debug, PartialEq, Eq)]
pub enum EntityShape {
    Circle,
    Square,
    Triangle,
    Heart,
    Star,
}

/// How an entity is drawn.
#[derive(Clone, Copy, Debug, PartialEq, Eq)]
pub struct Appearance {
    pub size: u64,
    pub shape: EntityShape,
    pub base_color: Rgba,
    pub show_emotions: bool,
    pub show_stats: bool,
}

/// The speed at which an entity walks unless told otherwise.
pub const WALKING_SPEED: u64 = 50_000_000;

/// The intensity with which a source is given its emotion: eight tenths.
pub const SOURCE_INTENSITY: u64 = 800_000;

/// The intensity that an entity adds to its strongest emotion in every
/// update: one half.
pub const RENEWAL: u64 = 500_000;

/// The distance beyond which entities pass nothing on to each other.
pub const REACH: u64 = 100_000_000;

/// A character in the world: where it is, how it moves and looks, and what it
/// feels. All fractional quantities are fixed-point.
#[derive(Debug, Clone)]
pub struct Entity {
    pub id: u32,
    pub character_type: CharacterType,
    pub position: Position,
    pub ai_behavior: CharacterAI,
    pub movement_timer: u64,
    /// The heading in degrees.
    pub movement_angle: i64,
    pub emotions: EmotionSet,
    pub total_emotions_given: u64,
    pub total_emotions_received: u64,
    pub appearance: Appearance,
    pub is_visible: bool,
    pub lifetime: u64,
    pub last_update: u64,
}

/// An entity as a value.
pub struct EntityData {
    pub id: u32,
    pub character_type: CharacterType,
    pub position: Position,
    pub ai_behavior: CharacterAI,
    pub movement_timer: u64,
    pub movement_angle: i64,
    pub emotions: Seq<EmotionData>,
    pub total_capacity: u64,
    pub total_emotions_given: u64,
    pub total_emotions_received: u64,
    pub appearance: Appearance,
    pub is_visible: bool,
    pub lifetime: u64,
    pub last_update: u64,
}

impl View for Entity {
    type V = EntityData;

    open spec fn view(&self) -> EntityData {
        EntityData {
            id: self.id,
            character_type: self.character_type,
            position: self.position,
            ai_behavior: self.ai_behavior,
            movement_timer: self.movement_timer,
            movement_angle: self.movement_angle,
            emotions: self.emotions@,
            total_capacity: self.emotions.total_capacity,
            total_emotions_given: self.total_emotions_given,
            total_emotions_received: self.total_emotions_received,
            appearance: self.appearance,
            is_visible: self.is_visible,
            lifetime: self.lifetime,
            last_update: self.last_update,
        }
    }
}

impl EntityData {
    /// A visible entity that has not lived yet: it walks at random, stands
    /// still, and has neither given nor received anything.
    pub open spec fn newcomer(
        id: u32,
        position: Position,
        character_type: CharacterType,
        emotions: Seq<EmotionData>,
        appearance: Appearance,
    ) -> EntityData {
        EntityData {
            id,
            character_type,
            position,
            ai_behavior: CharacterAI::RandomWalk { speed: WALKING_SPEED },
            movement_timer: 0,
            movement_angle: 0,
            emotions,
            total_capacity: UNIT,
            total_emotions_given: 0,
            total_emotions_received: 0,
            appearance,
            is_visible: true,
            lifetime: 0,
            last_update: 0,
        }
    }

    /// The looks of a character: a circle in the character's colour that
    /// shows its emotions.
    pub open spec fn looks(character_type: CharacterType) -> Appearance {
        Appearance {
            size: 12_000_000,
            shape: EntityShape::Circle,
            base_color: character_type.color_of(),
            show_emotions: true,
            show_stats: false,
        }
    }

    /// The looks of a source of `kind`: a larger square in the Nord colour of
    /// the kind, with its statistics shown. A custom kind has the palette's
    /// light foreground.
    pub open spec fn source_looks(kind: Kind) -> Appearance {
        Appearance {
            size: 18_000_000,
            shape: EntityShape::Square,
            base_color: match kind {
                Kind::Custom(_) => Rgba::percent(85, 87, 91),
                _ => nord_color_of(kind.name()),
            },
            show_emotions: true,
            show_stats: true,
        }
    }

    /// The emotions after the entity has renewed its strongest one by
    /// `RENEWAL`; an entity without emotion has none to renew.
    pub open spec fn renewed(emotions: Seq<EmotionData>) -> Seq<EmotionData> {
        if emotions.len() == 0 {
            emotions
        } else {
            merged(emotions, EmotionData::fresh(emotions[strongest(emotions)].kind, RENEWAL))
        }
    }
}

impl Entity {
    /// No emotion kind occurs twice in what the entity feels.
    pub open spec fn wf(&self) -> bool {
        self.emotions.wf()
    }

    /// A visible entity of the given character, without emotion.
    pub fn new(id: u32, position: Position, entity_type: CharacterType) -> (e: Entity)
        ensures
            e.wf(),
            e@ == EntityData::newcomer(
                id,
                position,
                entity_type,
                Seq::empty(),
                EntityData::looks(entity_type),
            ),
    {
        let appearance = Appearance {
            size: 12_000_000,
            shape: EntityShape::Circle,
            base_color: entity_type.color(),
            show_emotions: true,
            show_stats: false,
        };
        Entity {
            id,
            character_type: entity_type,
            position,
            ai_behavior: CharacterAI::RandomWalk { speed: WALKING_SPEED },
            movement_timer: 0,
            movement_angle: 0,
            emotions: EmotionSet::new(),
            total_emotions_given: 0,
            total_emotions_received: 0,
            appearance,
            is_visible: true,
            lifetime: 0,
            last_update: 0,
        }
    }

    /// A happy person who walks at `speed`.
    pub fn person(id: u32, position: Position, speed: u64) -> (e: Entity)
        ensures
            e.wf(),
            e@ == (EntityData {
                ai_behavior: CharacterAI::RandomWalk { speed },
                ..EntityData::newcomer(
                    id,
                    position,
                    CharacterType::HappyPerson,
                    Seq::empty(),
                    EntityData::looks(CharacterType::HappyPerson),
                )
            }),
    {
        let mut entity = Entity::new(id, position, CharacterType::HappyPerson);
        entity.ai_behavior = CharacterAI::RandomWalk { speed };
        entity
    }

    /// A happy person who feels one emotion of the given kind and intensity.
    pub fn emotion_source(id: u32, position: Position, emotion_type: EmotionType, intensity: u64) -> (e:
        Entity)
        ensures
            e.wf(),
            e@ == EntityData::newcomer(
                id,
                position,
                CharacterType::HappyPerson,
                seq![EmotionData::fresh(emotion_type@, intensity)],
                EntityData::looks(CharacterType::HappyPerson),
            ),
    {
        let mut entity = Entity::new(id, position, CharacterType::HappyPerson);
        entity.emotions.add_emotion(Emotion::new(emotion_type, intensity));
        assert(entity.emotions@ =~= seq![EmotionData::fresh(emotion_type@, intensity)]);
        entity
    }

    /// Lets the entity feel for `delta_time`: it renews its strongest
    /// emotion, then all its emotions fade, and it grows older. Its place and
    /// heading are left to whoever moves it.
    pub fn update(&mut self, delta_time: u64)
        requires
            old(self).wf(),
        ensures
            final(self).wf(),
            final(self)@ == (EntityData {
                emotions: faded(EntityData::renewed(old(self)@.emotions), delta_time),
                lifetime: saturated(old(self).lifetime + delta_time) as u64,
                ..old(self)@
            }),
    {
        let renewal = match self.emotions.get_dominant_emotion() {
            Some(dominant) => Some(Emotion::new(dominant.emotion_type.clone(), RENEWAL)),
            None => None,
        };
        if let Some(emotion) = renewal {
            self.emotions.add_emotion(emotion);
        }
        self.emotions.update(delta_time);
        self.lifetime = add_capped(self.lifetime, delta_time, u64::MAX);
    }

    /// Passes the entity's emotions on to `other` at `distance`: each emotion
    /// that offers more than a hundredth there joins what `other` feels.
    /// Nothing passes at distance zero or beyond `REACH`. Both entities count
    /// what was passed.
    pub fn spread_emotions_to(&mut self, other: &mut Entity, distance: u64)
        requires
            old(self).wf(),
            old(other).wf(),
        ensures
            final(self).wf(),
            final(other).wf(),
            distance == 0 || distance > REACH ==> final(self)@ == old(self)@ && final(other)@
                == old(other)@,
            0 < distance <= REACH ==> {
                &&& final(other)@ == (EntityData {
                    emotions: absorbed(old(other)@.emotions, old(self)@.emotions, distance, 0),
                    total_emotions_received: saturated(
                        old(other).total_emotions_received + saturated(
                            passed_on(old(self)@.emotions, distance, 0) as int,
                        ),
                    ) as u64,
                    ..old(other)@
                })
                &&& final(self)@ == (EntityData {
                    total_emotions_given: saturated(
                        old(self).total_emotions_given + saturated(
                            passed_on(old(self)@.emotions, distance, 0) as int,
                        ),
                    ) as u64,
                    ..old(self)@
                })
            },
    {
        if distance == 0 || distance > REACH {
            return ;
        }
        let passed = other.emotions.absorb(&self.emotions, distance, 0);
        other.total_emotions_received = add_capped(other.total_emotions_received, passed, u64::MAX);
        self.total_emotions_given = add_capped(self.total_emotions_given, passed, u64::MAX);
    }

    /// The distance to another entity.
    pub fn distance_to(&self, other: &Entity) -> (d: u64)
        ensures
            d == self.position.apart(other.position),
    {
        self.position.distance_to(&other.position)
    }

    /// Whether both entities are visible and no further apart than
    /// `max_distance`.
    pub fn can_interact_with(&self, other: &Entity, max_distance: u64) -> (can: bool)
        ensures
            can == (self.is_visible && other.is_visible && self.position.apart(other.position)
                <= max_distance),
    {
        self.is_visible && other.is_visible && self.distance_to(other) <= max_distance
    }

    /// A happy person without emotion.
    pub fn new_person(id: u32, position: Position) -> (e: Entity)
        ensures
            e.wf(),
            e@ == EntityData::newcomer(
                id,
                position,
                CharacterType::HappyPerson,
                Seq::empty(),
                EntityData::looks(CharacterType::HappyPerson),
            ),
    {
        Entity::new(id, position, CharacterType::HappyPerson)
    }

    /// A source of the given emotion.
    pub fn new_source(id: u32, position: Position, emotion_type: EmotionType) -> (e: Entity)
        ensures
            e.wf(),
            e@ == EntityData::newcomer(
                id,
                position,
                CharacterType::HappyPerson,
                seq![EmotionData::fresh(emotion_type@, SOURCE_INTENSITY)],
                EntityData::source_looks(emotion_type@),
            ),
    {
        let base_color = match &emotion_type {
            EmotionType::Custom(_) => NordColors::base04(),
            _ => {
                let name = emotion_type.name();
                emotion_to_nord_color(name.as_str())
            },
        };
        let mut emotions = EmotionSet::new();
        emotions.add_emotion(Emotion::new(emotion_type, SOURCE_INTENSITY));
        assert(emotions@ =~= seq![EmotionData::fresh(emotion_type@, SOURCE_INTENSITY)]);
        Entity {
            id,
            character_type: CharacterType::HappyPerson,
            position,
            ai_behavior: CharacterAI::RandomWalk { speed: WALKING_SPEED },
            movement_timer: 0,
            movement_angle: 0,
            emotions,
            total_emotions_given: 0,
            total_emotions_received: 0,
            appearance: Appearance {
                size: 18_000_000,
                shape: EntityShape::Square,
                base_color,
                show_emotions: true,
                show_stats: true,
            },
            is_visible: true,
            lifetime: 0,
            last_update: 0,
        }
    }
}

} // verus!
