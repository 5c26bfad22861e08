use emotion_contagion::colors::Rgba;
use emotion_contagion::contagion::emotion_set::EmotionSet;
use emotion_contagion::contagion::emotions::{ContagionRules, Emotion, EmotionType};
use emotion_contagion::fixed::UNIT;

fn builtin() -> Vec<EmotionType> {
    vec![
        EmotionType::Joy,
        EmotionType::Sadness,
        EmotionType::Anger,
        EmotionType::Fear,
        EmotionType::Disgust,
        EmotionType::Anxiety,
        EmotionType::Love,
        EmotionType::Envy,
        EmotionType::Embarrassment,
    ]
}

fn strong(kind: EmotionType, intensity: u64) -> Emotion {
    let mut emotion = Emotion::new(kind, 0);
    emotion.max_intensity = 100 * UNIT;
    emotion.intensity = intensity;
    emotion
}

fn levels(set: &EmotionSet) -> Vec<(String, u64)> {
    set.emotions.iter().map(|e| (e.emotion_type.name(), e.intensity)).collect()
}

#[test]
fn test_builtin_emotions_have_correct_properties() {
    let joy = Emotion::new(EmotionType::Joy, UNIT);
    assert_eq!(joy.emotion_type.name(), "Joy");
    assert_eq!(joy.decay_rate, 20_000);
    assert_eq!(joy.spread_rate, 800_000);
    assert_eq!(joy.max_intensity, UNIT);
    assert_eq!(joy.intensity, UNIT);
    assert_eq!(joy.color, Rgba { r: 990_000, g: 980_000, b: 0, a: UNIT });
    let spread = [800_000, 300_000, 600_000, 500_000, 200_000, 400_000, 700_000, 100_000, 200_000];
    let decay = [20_000, 15_000, 50_000, 40_000, 40_000, 30_000, 10_000, 25_000, 60_000];
    for (i, kind) in builtin().into_iter().enumerate() {
        assert_eq!(kind.default_spread_rate(), spread[i]);
        assert_eq!(kind.default_decay_rate(), decay[i]);
        let emotion = Emotion::new(kind.clone(), 0);
        assert_eq!(emotion.spread_rate, spread[i]);
        assert_eq!(emotion.decay_rate, decay[i]);
        assert_eq!(emotion.color, kind.default_color());
    }
}

#[test]
fn test_custom_emotion_creation() {
    let kind = EmotionType::Custom("Nostalgia".to_string());
    assert_eq!(kind.name(), "Nostalgia");
    assert_eq!(kind.default_spread_rate(), 500_000);
    assert_eq!(kind.default_decay_rate(), 30_000);
    assert_eq!(kind.default_color(), Rgba { r: 510_000, g: 510_000, b: 510_000, a: UNIT });
    assert_eq!(kind, EmotionType::Custom("Nostalgia".to_string()));
    assert_ne!(kind, EmotionType::Custom("Awe".to_string()));
    assert_ne!(kind, EmotionType::Joy);
    assert_eq!(kind.clone(), kind);
    let color = Rgba { r: 1, g: 2, b: 3, a: 4 };
    let emotion = Emotion::custom(kind.clone(), 2 * UNIT, 250_000, 125_000, color);
    assert_eq!(emotion.emotion_type, kind);
    assert_eq!(emotion.intensity, UNIT);
    assert_eq!(emotion.spread_rate, 250_000);
    assert_eq!(emotion.decay_rate, 125_000);
    assert_eq!(emotion.max_intensity, UNIT);
    assert_eq!(emotion.color, color);
}

#[test]
fn test_emotion_intensity_clamping() {
    assert_eq!(Emotion::new(EmotionType::Anger, 5 * UNIT).intensity, UNIT);
    assert_eq!(Emotion::new(EmotionType::Anger, u64::MAX).intensity, UNIT);
    let mut emotion = Emotion::new(EmotionType::Anger, 600_000);
    emotion.add_intensity(300_000);
    assert_eq!(emotion.intensity, 900_000);
    emotion.add_intensity(300_000);
    assert_eq!(emotion.intensity, UNIT);
    emotion.add_intensity(u64::MAX);
    assert_eq!(emotion.intensity, UNIT);
    emotion.multiply_intensity(500_000);
    assert_eq!(emotion.intensity, 500_000);
    emotion.multiply_intensity(1_500_000);
    assert_eq!(emotion.intensity, 750_000);
    emotion.multiply_intensity(3 * UNIT);
    assert_eq!(emotion.intensity, UNIT);
    emotion.multiply_intensity(u64::MAX);
    assert_eq!(emotion.intensity, UNIT);
    emotion.multiply_intensity(0);
    assert_eq!(emotion.intensity, 0);
    emotion.max_intensity = 2 * UNIT;
    emotion.add_intensity(3 * UNIT);
    assert_eq!(emotion.intensity, 2 * UNIT);
}

#[test]
fn test_emotion_decay_calculation() {
    let mut joy = Emotion::new(EmotionType::Joy, 500_000);
    joy.update(UNIT);
    // 0.5 * (1 - 0.02)
    assert_eq!(joy.intensity, 490_000);
    joy.update(500_000);
    // 0.49 * (1 - 0.02 * 0.5)
    assert_eq!(joy.intensity, 485_100);
    joy.update(16_667);
    assert_eq!(joy.intensity, 484_938);
    joy.update(0);
    assert_eq!(joy.intensity, 484_938);
    joy.update(49 * UNIT);
    // 0.484938 * (1 - 0.98)
    assert_eq!(joy.intensity, 9_698);
    assert!(joy.is_dead());
    joy.update(50 * UNIT);
    assert_eq!(joy.intensity, 0);
    joy.intensity = 700_000;
    joy.update(u64::MAX);
    assert_eq!(joy.intensity, 0);
    let mut steady = Emotion::custom(EmotionType::Fear, 300_000, 0, 0, joy.color);
    steady.update(1_000 * UNIT);
    assert_eq!(steady.intensity, 300_000);
    let mut faint = Emotion::new(EmotionType::Love, 10_000);
    assert!(!faint.is_dead());
    faint.update(100);
    assert_eq!(faint.intensity, 9_999);
    assert!(faint.is_dead());
}

#[test]
fn test_emotion_spreading_calculation() {
    let joy = Emotion::new(EmotionType::Joy, 500_000);
    assert_eq!(joy.calculate_spread(0), 0);
    assert_eq!(joy.calculate_spread(UNIT), 200_000);
    assert_eq!(joy.calculate_spread(1_414_213), 165_685);
    assert_eq!(joy.calculate_spread(3 * UNIT), 100_000);
    assert_eq!(joy.calculate_spread(u64::MAX), 0);
    let envy = Emotion::new(EmotionType::Envy, 150_000);
    assert_eq!(envy.calculate_spread(UNIT), 7_500);
    let mut wild = Emotion::new(EmotionType::Joy, 0);
    wild.intensity = u64::MAX;
    wild.spread_rate = u64::MAX;
    assert_eq!(wild.calculate_spread(1), u64::MAX);
}

#[test]
fn test_multiple_emotions_coexist() {
    let mut set = EmotionSet::new();
    assert_eq!(set.total_capacity, UNIT);
    assert!(set.is_empty());
    set.add_emotion(Emotion::new(EmotionType::Joy, 400_000));
    set.add_emotion(Emotion::new(EmotionType::Fear, 300_000));
    set.add_emotion(Emotion::new(EmotionType::Custom("Awe".to_string()), 200_000));
    set.add_emotion(Emotion::new(EmotionType::Custom("Dread".to_string()), 100_000));
    assert_eq!(set.emotions.len(), 4);
    assert_eq!(set.get_intensity(&EmotionType::Joy), 400_000);
    assert_eq!(set.get_intensity(&EmotionType::Fear), 300_000);
    assert_eq!(set.get_intensity(&EmotionType::Custom("Awe".to_string())), 200_000);
    assert_eq!(set.get_intensity(&EmotionType::Custom("Dread".to_string())), 100_000);
    assert_eq!(set.get_intensity(&EmotionType::Custom("Hope".to_string())), 0);
    assert_eq!(set.get_intensity(&EmotionType::Anger), 0);
    set.add_emotion(Emotion::new(EmotionType::Fear, 500_000));
    set.add_emotion(Emotion::new(EmotionType::Custom("Awe".to_string()), 900_000));
    assert_eq!(
        levels(&set),
        vec![
            ("Joy".to_string(), 400_000),
            ("Fear".to_string(), 800_000),
            ("Awe".to_string(), UNIT),
            ("Dread".to_string(), 100_000),
        ]
    );
    assert!(!set.is_empty());
    let copy = set.clone();
    assert_eq!(levels(&copy), levels(&set));
}

#[test]
fn test_emotion_intensity_normalization() {
    let mut set = EmotionSet::new();
    for kind in builtin() {
        set.add_emotion(Emotion::new(kind, 700_000));
    }
    assert_eq!(set.total_intensity(), 6_300_000);
    assert_eq!(set.get_total_intensity(), 6_300_000);
    for emotion in &set.emotions {
        assert!(emotion.intensity <= emotion.max_intensity);
    }
    let mut huge = EmotionSet::new();
    huge.add_emotion(strong(EmotionType::Joy, 0));
    huge.add_emotion(strong(EmotionType::Fear, 0));
    huge.emotions[0].intensity = u64::MAX;
    huge.emotions[1].intensity = 5;
    assert_eq!(huge.total_intensity(), u64::MAX);
    let mut faint = EmotionSet::new();
    faint.add_emotion(Emotion::new(EmotionType::Joy, 4_000));
    faint.add_emotion(Emotion::new(EmotionType::Fear, 5_999));
    assert!(faint.is_empty());
    faint.add_emotion(Emotion::new(EmotionType::Fear, 1));
    assert!(!faint.is_empty());
}

#[test]
fn test_dominant_emotion_calculation() {
    let mut set = EmotionSet::new();
    assert!(set.dominant_emotion().is_none());
    assert!(set.get_dominant_emotion().is_none());
    set.add_emotion(Emotion::new(EmotionType::Sadness, 300_000));
    set.add_emotion(Emotion::new(EmotionType::Anger, 800_000));
    set.add_emotion(Emotion::new(EmotionType::Joy, 500_000));
    assert_eq!(set.dominant_emotion().unwrap().emotion_type, EmotionType::Anger);
    assert_eq!(set.get_dominant_emotion().unwrap().intensity, 800_000);
    set.add_emotion(Emotion::new(EmotionType::Joy, 300_000));
    // joy has caught up with anger; anger joined first
    for _ in 0..10 {
        assert_eq!(set.dominant_emotion().unwrap().emotion_type, EmotionType::Anger);
    }
    set.add_emotion(Emotion::new(EmotionType::Joy, 1));
    assert_eq!(set.dominant_emotion().unwrap().emotion_type, EmotionType::Joy);
    let mut tie = EmotionSet::new();
    tie.add_emotion(Emotion::new(EmotionType::Joy, 0));
    tie.add_emotion(Emotion::new(EmotionType::Fear, 0));
    assert_eq!(tie.dominant_emotion().unwrap().emotion_type, EmotionType::Joy);
}

#[test]
fn test_anxiety_spreads_faster_than_love() {
    let anxiety = EmotionType::Anxiety.contagion_rules();
    let love = EmotionType::Love.contagion_rules();
    assert_eq!(anxiety.transmission_rate, 600_000);
    assert_eq!(love.transmission_rate, 300_000);
    assert!(anxiety.transmission_rate > love.transmission_rate);
}

#[test]
fn contagion_rules_decide_who_lives() {
    let classic = EmotionType::Fear.contagion_rules();
    for n in 0..=8u8 {
        assert_eq!(classic.next_alive(true, n), n == 2 || n == 3);
        assert_eq!(classic.next_alive(false, n), n == 3);
        assert_eq!(EmotionType::Joy.contagion_rules().next_alive(true, n), n == 2 || n == 3);
        assert_eq!(EmotionType::Anxiety.contagion_rules().next_alive(true, n), (2..=6).contains(&n));
        assert_eq!(EmotionType::Anxiety.contagion_rules().next_alive(false, n), n == 4);
        assert_eq!(EmotionType::Love.contagion_rules().next_alive(true, n), (1..=4).contains(&n));
        assert_eq!(EmotionType::Sadness.contagion_rules().next_alive(false, n), n == 2);
        assert_eq!(EmotionType::Anger.contagion_rules().next_alive(true, n), (1..=3).contains(&n));
    }
}

#[test]
fn test_embarrassment_decays_fastest() {
    let fastest = EmotionType::Embarrassment.default_decay_rate();
    assert_eq!(fastest, 60_000);
    for kind in builtin() {
        if kind != EmotionType::Embarrassment {
            assert!(kind.default_decay_rate() < fastest);
        }
    }
    assert!(EmotionType::Custom("Awe".to_string()).default_decay_rate() < fastest);
}

#[test]
fn catalogue_spread_rates_order_the_kinds() {
    assert!(EmotionType::Joy.default_spread_rate() > EmotionType::Love.default_spread_rate());
    assert!(EmotionType::Love.default_spread_rate() > EmotionType::Anxiety.default_spread_rate());
    assert!(EmotionType::Anxiety.default_spread_rate() > EmotionType::Envy.default_spread_rate());
}

#[test]
fn contagion_rules_of_each_kind() {
    let rules = |b, lo, hi, t, d| ContagionRules {
        birth_neighbors: b,
        survival_min: lo,
        survival_max: hi,
        transmission_rate: t,
        decay_rate: d,
    };
    assert_eq!(EmotionType::Joy.contagion_rules(), rules(3, 2, 3, 400_000, 50_000));
    assert_eq!(EmotionType::Sadness.contagion_rules(), rules(2, 2, 4, 300_000, 100_000));
    assert_eq!(EmotionType::Anger.contagion_rules(), rules(3, 1, 3, 800_000, 200_000));
    assert_eq!(EmotionType::Anxiety.contagion_rules(), rules(4, 2, 6, 600_000, 150_000));
    assert_eq!(EmotionType::Love.contagion_rules(), rules(2, 1, 4, 300_000, 30_000));
    let classic = rules(3, 2, 3, 300_000, 100_000);
    assert_eq!(EmotionType::Fear.contagion_rules(), classic);
    assert_eq!(EmotionType::Disgust.contagion_rules(), classic);
    assert_eq!(EmotionType::Envy.contagion_rules(), classic);
    assert_eq!(EmotionType::Embarrassment.contagion_rules(), classic);
    assert_eq!(EmotionType::Custom("Awe".to_string()).contagion_rules(), classic);
    for kind in builtin() {
        let r = kind.contagion_rules();
        assert!(r.survival_min <= r.survival_max);
        assert!(r.transmission_rate <= UNIT && r.decay_rate <= UNIT);
    }
}

#[test]
fn visual_color_is_as_opaque_as_the_emotion_is_intense() {
    let mut joy = Emotion::new(EmotionType::Joy, 650_000);
    assert_eq!(joy.visual_color(), Rgba { r: 990_000, g: 980_000, b: 0, a: 650_000 });
    joy.intensity = 20_000;
    assert_eq!(joy.visual_color().a, 100_000);
    joy.intensity = 7 * UNIT;
    assert_eq!(joy.visual_color().a, UNIT);
}

#[test]
fn set_update_fades_and_drops_the_dead() {
    let mut set = EmotionSet::new();
    set.add_emotion(Emotion::new(EmotionType::Joy, 500_000));
    set.add_emotion(Emotion::new(EmotionType::Anger, 10_400));
    set.add_emotion(Emotion::new(EmotionType::Love, 10_102));
    set.add_emotion(Emotion::new(EmotionType::Embarrassment, 10_638));
    set.update(UNIT);
    // anger is left with 0.00988, embarrassment with 0.009999
    assert_eq!(levels(&set), vec![("Joy".to_string(), 490_000), ("Love".to_string(), 10_000)]);
    set.update(1);
    assert_eq!(levels(&set), vec![("Joy".to_string(), 490_000), ("Love".to_string(), 10_000)]);
    set.update(100);
    assert_eq!(levels(&set), vec![("Joy".to_string(), 489_999)]);
    set.update(u64::MAX);
    assert!(set.emotions.is_empty());
    assert_eq!(set.total_capacity, UNIT);
}

#[test]
fn absorb_takes_what_passes_at_a_distance() {
    let mut from = EmotionSet::new();
    from.add_emotion(Emotion::new(EmotionType::Joy, UNIT));
    from.add_emotion(Emotion::new(EmotionType::Envy, 150_000));
    from.add_emotion(Emotion::new(EmotionType::Sadness, 100_000));
    from.add_emotion(Emotion::new(EmotionType::Love, 100_001));
    let mut into = EmotionSet::new();
    into.add_emotion(Emotion::new(EmotionType::Love, 990_000));
    let taken = into.absorb(&from, UNIT, 100_000);
    // envy offers 0.0075, sadness is not above the floor, love offers 0.035
    assert_eq!(taken, 400_000 + 35_000);
    assert_eq!(levels(&into), vec![("Love".to_string(), UNIT), ("Joy".to_string(), 400_000)]);
    let mut none = EmotionSet::new();
    assert_eq!(none.absorb(&from, 0, 0), 0);
    assert!(none.emotions.is_empty());
    assert_eq!(none.absorb(&from, UNIT, 0), 400_000 + 15_000 + 35_000);
    assert_eq!(
        levels(&none),
        vec![
            ("Joy".to_string(), 400_000),
            ("Sadness".to_string(), 15_000),
            ("Love".to_string(), 35_000),
        ]
    );
}

#[test]
fn joy_and_sadness_neutralise_each_other() {
    let mut set = EmotionSet::new();
    set.add_emotion(strong(EmotionType::Joy, 6_000_000));
    set.add_emotion(strong(EmotionType::Sadness, 4_000_000));
    set.apply_emotional_interactions();
    assert_eq!(
        levels(&set),
        vec![("Joy".to_string(), 4_800_000), ("Sadness".to_string(), 2_800_000)]
    );
    set.apply_emotional_interactions();
    assert_eq!(
        levels(&set),
        vec![("Joy".to_string(), 4_800_000), ("Sadness".to_string(), 2_800_000)]
    );
    let mut capped = EmotionSet::new();
    capped.add_emotion(strong(EmotionType::Sadness, 9_000_000));
    capped.add_emotion(strong(EmotionType::Joy, 8_000_000));
    capped.apply_emotional_interactions();
    // both lose two whole units, and their sum then brings anxiety
    assert_eq!(
        levels(&capped),
        vec![
            ("Sadness".to_string(), 7_000_000),
            ("Joy".to_string(), 6_000_000),
            ("Anxiety".to_string(), 500_000),
        ]
    );
    let mut edge = EmotionSet::new();
    edge.add_emotion(strong(EmotionType::Joy, 5_000_000));
    edge.add_emotion(strong(EmotionType::Sadness, 9_000_000));
    edge.apply_emotional_interactions();
    assert_eq!(
        levels(&edge),
        vec![("Joy".to_string(), 5_000_000), ("Sadness".to_string(), 9_000_000)]
    );
}

#[test]
fn repeated_interaction_stops_at_zero() {
    let mut set = EmotionSet::new();
    set.add_emotion(strong(EmotionType::Joy, 5_100_000));
    set.add_emotion(strong(EmotionType::Sadness, 3_000_001));
    set.add_emotion(strong(EmotionType::Anger, 30_000_000));
    set.add_emotion(strong(EmotionType::Love, 1_000_000));
    for _ in 0..50 {
        set.apply_emotional_interactions();
        for emotion in &set.emotions {
            assert!(emotion.intensity <= 30_000_000);
        }
    }
    assert_eq!(set.get_intensity(&EmotionType::Joy), 0);
    assert_eq!(set.get_intensity(&EmotionType::Love), 0);
    assert_eq!(set.get_intensity(&EmotionType::Anger), 30_000_000);
    // joy lost 0.9 to sadness and the rest to anger in the first pass
    assert_eq!(set.get_intensity(&EmotionType::Sadness), 3_000_001 - 900_000);
    assert_eq!(set.get_intensity(&EmotionType::Anxiety), 10_000_000);
}

#[test]
fn anger_and_love_wear_each_other_down() {
    let mut set = EmotionSet::new();
    set.add_emotion(strong(EmotionType::Joy, 6_000_000));
    set.add_emotion(strong(EmotionType::Sadness, 4_000_000));
    set.add_emotion(strong(EmotionType::Anger, 8_000_000));
    set.add_emotion(strong(EmotionType::Love, 7_000_000));
    set.add_emotion(strong(EmotionType::Fear, 9_000_000));
    set.apply_emotional_interactions();
    assert_eq!(
        levels(&set),
        vec![
            ("Joy".to_string(), 3_200_000),
            ("Sadness".to_string(), 2_100_000),
            ("Anger".to_string(), 6_950_000),
            ("Love".to_string(), 5_800_000),
            ("Fear".to_string(), 9_000_000),
            ("Anxiety".to_string(), 500_000),
        ]
    );
    assert_eq!(set.emotions[5].max_intensity, UNIT);
    let mut below = EmotionSet::new();
    below.add_emotion(strong(EmotionType::Anger, 6_999_999));
    below.add_emotion(strong(EmotionType::Love, 5_999_999));
    below.add_emotion(strong(EmotionType::Joy, 2_000_002));
    below.apply_emotional_interactions();
    assert_eq!(
        levels(&below),
        vec![
            ("Anger".to_string(), 6_999_999),
            ("Love".to_string(), 5_999_999),
            ("Joy".to_string(), 2_000_002),
        ]
    );
}

#[test]
fn anxiety_grows_under_overload_up_to_its_cap() {
    let mut set = EmotionSet::new();
    set.add_emotion(strong(EmotionType::Anxiety, 9_300_000));
    set.add_emotion(strong(EmotionType::Anger, 16_000_000));
    set.apply_emotional_interactions();
    assert_eq!(set.get_intensity(&EmotionType::Anxiety), 9_800_000);
    set.apply_emotional_interactions();
    assert_eq!(set.get_intensity(&EmotionType::Anxiety), 10_000_000);
    set.apply_emotional_interactions();
    assert_eq!(set.get_intensity(&EmotionType::Anxiety), 10_000_000);
    let mut level = EmotionSet::new();
    level.add_emotion(strong(EmotionType::Anger, 15_000_000));
    level.apply_emotional_interactions();
    assert_eq!(levels(&level), vec![("Anger".to_string(), 15_000_000)]);
}

#[test]
fn bounded_sets_are_left_alone_by_interaction() {
    let mut set = EmotionSet::new();
    for kind in builtin() {
        set.add_emotion(Emotion::new(kind, UNIT));
    }
    let before = levels(&set);
    set.apply_emotional_interactions();
    assert_eq!(levels(&set), before);
}

#[test]
fn mixed_color_weighs_colors_by_intensity() {
    let white = Rgba { r: UNIT, g: UNIT, b: UNIT, a: UNIT };
    let mut set = EmotionSet::new();
    assert_eq!(set.mixed_color(), white);
    set.add_emotion(Emotion::new(EmotionType::Joy, 0));
    assert_eq!(set.mixed_color(), white);
    set.emotions[0].intensity = 600_000;
    assert_eq!(set.mixed_color(), Rgba { r: 990_000, g: 980_000, b: 0, a: 600_000 });
    set.add_emotion(Emotion::new(EmotionType::Sadness, 200_000));
    // (0.99 * 0.6 + 0 * 0.2) / 0.8, (0.98 * 0.6 + 0.47 * 0.2) / 0.8, (0.95 * 0.2) / 0.8
    assert_eq!(set.mixed_color(), Rgba { r: 742_500, g: 852_500, b: 237_500, a: 400_000 });
    set.emotions[0].intensity = 30_000;
    set.emotions[1].intensity = 30_000;
    assert_eq!(set.mixed_color(), Rgba { r: 495_000, g: 725_000, b: 475_000, a: 100_000 });
    assert_eq!(EmotionSet::default().mixed_color(), white);
}
