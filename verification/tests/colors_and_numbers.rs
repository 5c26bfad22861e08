use emotion_contagion::colors::{emotion_to_nord_color, NordColors, NordUI, Rgba};
use emotion_contagion::fixed::{
    add_capped, distance, fraction, mul_capped, mul_fixed, sqrt_floor, sub_floor, UNIT,
};
use emotion_contagion::life::emotions::EmotionType;
use emotion_contagion::life::entity::{Character, CharacterToolbox};
use emotion_contagion::moore::shift;
use emotion_contagion::world::{index_of, Position};
use emotion_contagion::contagion::emotions::EmotionType as Kind;
use macroquad::color::{
    Color, BLUE, DARKGREEN, GRAY, GREEN, ORANGE, PINK, PURPLE, RED, YELLOW,
};

fn rgb(r: u64, g: u64, b: u64) -> Rgba {
    Rgba { r: r * 10_000, g: g * 10_000, b: b * 10_000, a: UNIT }
}

fn close(c: Rgba, m: Color) -> bool {
    let near = |fixed: u64, float: f32| ((fixed as f64) / 1e6 - float as f64).abs() < 1e-6;
    near(c.r, m.r) && near(c.g, m.g) && near(c.b, m.b) && near(c.a, m.a)
}

#[test]
fn fixed_point_products_round_down() {
    assert_eq!(mul_fixed(500_000, 500_000), 250_000);
    assert_eq!(mul_fixed(3, 333_333), 0);
    assert_eq!(mul_fixed(3, 333_334), 1);
    assert_eq!(mul_fixed(u64::MAX, u64::MAX), (u64::MAX as u128) * (u64::MAX as u128) / 1_000_000);
    assert_eq!(mul_capped(900_000, 900_000, UNIT), 810_000);
    assert_eq!(mul_capped(900_000, 2 * UNIT, UNIT), UNIT);
    assert_eq!(mul_capped(u64::MAX, u64::MAX, 7), 7);
    assert_eq!(fraction(1_000_001, 9, 10), 900_000);
    assert_eq!(fraction(u64::MAX, 10, 10), u64::MAX);
    assert_eq!(fraction(7, 3, 20), 1);
    assert_eq!(add_capped(3, 4, 10), 7);
    assert_eq!(add_capped(6, 4, 10), 10);
    assert_eq!(add_capped(u64::MAX, u64::MAX, u64::MAX), u64::MAX);
    assert_eq!(add_capped(50, 0, 10), 10);
    assert_eq!(sub_floor(10, 4), 6);
    assert_eq!(sub_floor(4, 10), 0);
}

#[test]
fn square_roots_round_down() {
    let cases: [(u128, u64); 9] = [
        (0, 0),
        (1, 1),
        (3, 1),
        (4, 2),
        (15, 3),
        (16, 4),
        (2_000_000_000_000, 1_414_213),
        (u64::MAX as u128, 4_294_967_295),
        (u128::MAX, u64::MAX),
    ];
    for (n, root) in cases {
        assert_eq!(sqrt_floor(n), root);
    }
    for n in 0..2_000u128 {
        let r = sqrt_floor(n) as u128;
        assert!(r * r <= n && n < (r + 1) * (r + 1));
    }
    assert_eq!(distance(3 * UNIT, 4 * UNIT), 5 * UNIT);
    assert_eq!(distance(0, 0), 0);
    assert_eq!(distance(UNIT, 0), UNIT);
    assert_eq!(distance(UNIT, UNIT), 1_414_213);
    assert_eq!(distance(u64::MAX, 0), u64::MAX);
    assert_eq!(distance(u64::MAX, u64::MAX), u64::MAX);
    assert_eq!(distance(u64::MAX, 1), u64::MAX);
}

#[test]
fn indices_and_steps() {
    assert_eq!(index_of(0, 4), 0);
    assert_eq!(index_of(7, 4), 1);
    assert_eq!(index_of(8, 4), 2);
    assert_eq!(index_of(-1, 4), 0);
    assert_eq!(index_of(i64::MIN, 1), 0);
    assert_eq!(index_of(i64::MAX, 1), i64::MAX as usize);
    assert_eq!(shift(5, -1), Some(4));
    assert_eq!(shift(5, 0), Some(5));
    assert_eq!(shift(5, 1), Some(6));
    assert_eq!(shift(0, -1), None);
    assert_eq!(shift(usize::MAX, 1), None);
    assert_eq!(Position::new(0, 0).distance_to(&Position::new(-3, 4)), 5);
    assert_eq!(Position::new(-6, -8).distance_to(&Position::new(0, 0)), 10);
}

#[test]
fn nord_palette() {
    assert_eq!(NordColors::base00(), rgb(18, 20, 25));
    assert_eq!(NordColors::base01(), rgb(23, 26, 32));
    assert_eq!(NordColors::base02(), rgb(26, 30, 37));
    assert_eq!(NordColors::base03(), rgb(30, 34, 42));
    assert_eq!(NordColors::base04(), rgb(85, 87, 91));
    assert_eq!(NordColors::base05(), rgb(90, 91, 94));
    assert_eq!(NordColors::base06(), rgb(93, 94, 96));
    assert_eq!(NordColors::frost_cyan(), rgb(56, 74, 73));
    assert_eq!(NordColors::frost_light_blue(), rgb(53, 75, 82));
    assert_eq!(NordColors::frost_medium_blue(), rgb(51, 63, 76));
    assert_eq!(NordColors::frost_dark_blue(), rgb(37, 51, 67));
    assert_eq!(NordColors::aurora_red(), rgb(75, 38, 42));
    assert_eq!(NordColors::aurora_orange(), rgb(82, 53, 44));
    assert_eq!(NordColors::aurora_yellow(), rgb(92, 80, 55));
    assert_eq!(NordColors::aurora_green(), rgb(64, 75, 55));
    assert_eq!(NordColors::aurora_purple(), rgb(71, 56, 68));
    assert_eq!(NordUI::background(), NordColors::base00());
    assert_eq!(NordUI::panel_background(), NordColors::base01());
    assert_eq!(NordUI::button_background(), NordColors::base02());
    assert_eq!(NordUI::button_hover(), NordColors::base03());
    assert_eq!(NordUI::text_primary(), NordColors::base05());
    assert_eq!(NordUI::text_secondary(), NordColors::base04());
    assert_eq!(NordUI::text_accent(), NordColors::frost_light_blue());
    assert_eq!(NordUI::grid_lines(), NordColors::base02());
    assert_eq!(NordUI::grid_background(), NordColors::base01());
    assert_eq!(NordUI::success(), NordColors::aurora_green());
    assert_eq!(NordUI::warning(), NordColors::aurora_yellow());
    assert_eq!(NordUI::error(), NordColors::aurora_red());
    assert_eq!(NordUI::info(), NordColors::frost_light_blue());
}

#[test]
fn emotions_map_to_nord_colors_by_name() {
    assert_eq!(emotion_to_nord_color("Joy"), NordColors::aurora_yellow());
    assert_eq!(emotion_to_nord_color("Sadness"), NordColors::frost_medium_blue());
    assert_eq!(emotion_to_nord_color("Anger"), NordColors::aurora_red());
    assert_eq!(emotion_to_nord_color("Fear"), NordColors::aurora_purple());
    assert_eq!(emotion_to_nord_color("Disgust"), NordColors::aurora_green());
    assert_eq!(emotion_to_nord_color("Anxiety"), NordColors::frost_dark_blue());
    assert_eq!(emotion_to_nord_color("Love"), NordColors::aurora_orange());
    assert_eq!(emotion_to_nord_color("Envy"), NordColors::frost_cyan());
    assert_eq!(emotion_to_nord_color("Embarrassment"), rgb(85, 50, 65));
    assert_eq!(emotion_to_nord_color("joy"), NordColors::base04());
    assert_eq!(emotion_to_nord_color(""), NordColors::base04());
    assert_eq!(emotion_to_nord_color("Joy "), NordColors::base04());
}

#[test]
fn colors_blend_darken_and_lighten() {
    let a = Rgba { r: 200_000, g: 800_000, b: 0, a: UNIT };
    let b = Rgba { r: 600_000, g: 400_000, b: UNIT, a: 0 };
    assert_eq!(NordColors::blend(a, b, 0), a);
    assert_eq!(NordColors::blend(a, b, UNIT), b);
    assert_eq!(
        NordColors::blend(a, b, 250_000),
        Rgba { r: 300_000, g: 700_000, b: 250_000, a: 750_000 }
    );
    assert_eq!(
        NordColors::blend(a, b, 2 * UNIT),
        Rgba { r: UNIT, g: 0, b: 2 * UNIT, a: 0 }
    );
    assert_eq!(NordColors::with_alpha(a, 123), Rgba { r: 200_000, g: 800_000, b: 0, a: 123 });
    assert_eq!(NordColors::darken(a, 250_000), Rgba { r: 150_000, g: 600_000, b: 0, a: UNIT });
    assert_eq!(NordColors::darken(b, UNIT), Rgba { r: 0, g: 0, b: 0, a: 0 });
    assert_eq!(NordColors::darken(b, 5 * UNIT), Rgba { r: 0, g: 0, b: 0, a: 0 });
    assert_eq!(NordColors::darken(a, 0), a);
    assert_eq!(NordColors::lighten(a, 500_000), Rgba { r: 600_000, g: 900_000, b: 500_000, a: UNIT });
    assert_eq!(NordColors::lighten(a, UNIT), Rgba { r: UNIT, g: UNIT, b: UNIT, a: UNIT });
    assert_eq!(NordColors::lighten(a, 0), a);
}

#[test]
fn default_colors_are_those_of_the_drawing_library() {
    assert!(close(Kind::Joy.default_color(), YELLOW));
    assert!(close(Kind::Sadness.default_color(), BLUE));
    assert!(close(Kind::Anger.default_color(), RED));
    assert!(close(Kind::Fear.default_color(), PURPLE));
    assert!(close(Kind::Disgust.default_color(), GREEN));
    assert!(close(Kind::Anxiety.default_color(), ORANGE));
    assert!(close(Kind::Love.default_color(), PINK));
    assert!(close(Kind::Envy.default_color(), DARKGREEN));
    assert!(close(Kind::Embarrassment.default_color(), Color::new(1.0, 0.7, 0.7, 1.0)));
    assert!(close(Kind::Custom("Awe".to_string()).default_color(), GRAY));
}

#[test]
fn characters_portray_the_catalogue() {
    let characters = Character::all();
    let emotions = EmotionType::all();
    assert_eq!(characters.len(), 9);
    for (character, emotion) in characters.iter().zip(emotions) {
        assert_eq!(character.emotion, emotion);
        assert_eq!(character.name, emotion.name());
        assert_eq!(character.color, emotion.color());
        assert_eq!(character.emoji, emotion.emoji());
    }
    assert_eq!(characters[0].description, "Spreads happiness and positive energy");
    assert_eq!(characters[1].description, "Creates melancholy and reflection");
    assert_eq!(characters[2].description, "Generates intense, aggressive energy");
    assert_eq!(characters[3].description, "Creates anxiety and uncertainty");
    assert_eq!(characters[4].description, "Spreads aversion and rejection");
    assert_eq!(characters[5].description, "Creates nervous tension");
    assert_eq!(characters[6].description, "Spreads warmth and connection");
    assert_eq!(characters[7].description, "Creates jealousy and resentment");
    assert_eq!(characters[8].description, "Generates awkwardness");
}

#[test]
fn toolbox_finds_the_character_under_the_pointer() {
    let unit = UNIT as i64;
    let toolbox = CharacterToolbox::new(500 * unit, 10 * unit, 280 * unit, 300 * unit);
    assert_eq!(toolbox.characters, Character::all());
    assert_eq!(toolbox.position, Position::new(500 * unit, 10 * unit));
    assert!(toolbox.dragging_character.is_none());
    let at = |x: i64, y: i64| Position::new(500 * unit + x * unit, 10 * unit + y * unit);
    assert!(toolbox.is_inside_toolbox(at(0, 50)));
    assert!(toolbox.is_inside_toolbox(at(280, 300)));
    assert!(!toolbox.is_inside_toolbox(at(0, 49)));
    assert!(!toolbox.is_inside_toolbox(at(-1, 60)));
    assert!(!toolbox.is_inside_toolbox(at(281, 60)));
    assert!(!toolbox.is_inside_toolbox(at(10, 301)));
    let name = |p: Position| toolbox.get_character_at_pos(p).map(|c| c.name);
    assert_eq!(name(at(30, 60)), Some("Joy"));
    assert_eq!(name(at(5, 60)), Some("Joy"));
    assert_eq!(name(at(119, 129)), Some("Joy"));
    assert_eq!(name(at(120, 60)), Some("Sadness"));
    assert_eq!(name(at(230, 60)), Some("Anger"));
    assert_eq!(name(at(30, 130)), Some("Fear"));
    assert_eq!(name(at(130, 140)), Some("Disgust"));
    assert_eq!(name(at(30, 220)), Some("Love"));
    assert_eq!(name(at(230, 220)), Some("Embarrassment"));
    assert_eq!(name(at(30, 290)), None);
    assert_eq!(name(at(30, 40)), None);
    assert_eq!(name(at(300, 60)), None);
    let mut wide = CharacterToolbox::new(0, 0, 1_000 * unit, 300 * unit);
    assert_eq!(wide.get_character_at_pos(Position::new(520 * unit, 60 * unit)).map(|c| c.name), Some("Anxiety"));
    assert_eq!(wide.get_character_at_pos(Position::new(920 * unit, 60 * unit)), None);
    let joy = Character::all()[0];
    wide.start_drag(joy, Position::new(130 * unit, 140 * unit));
    assert_eq!(wide.dragging_character, Some(joy));
    assert_eq!(wide.drag_offset, Position::new(-30 * unit, -20 * unit));
    wide.start_drag(joy, Position::new(0, 0));
    assert_eq!(wide.drag_offset, Position::new(-60 * unit, -80 * unit));
    assert_eq!(wide.stop_drag(), Some(joy));
    assert_eq!(wide.dragging_character, None);
    assert_eq!(wide.drag_offset, Position::new(0, 0));
    assert_eq!(wide.stop_drag(), None);
}
