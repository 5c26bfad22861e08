//! The characters that can be dropped on the automaton, and the toolbox from
//! which they are dragged.

use crate::colors::Rgba;
use crate::life::emotions::EmotionType;
use crate::world::Position;
use vstd::prelude::*;

verus! {

/// A character: an emotion with a face and a few words about it.
#[derive(Debug, Clone, Copy, PartialEq, Eq)]
pub struct Character {
    pub name: &'static str,
    pub emotion: EmotionType,
    pub color: Rgba,
    pub emoji: &'static str,
    pub description: &'static str,
}

impl Character {
    /// What is said of the character of an emotion.
    pub open spec fn blurb(emotion: EmotionType) -> Seq<char> {
        match emotion {
            EmotionType::Joy => "Spreads happiness and positive energy"@,
            EmotionType::Sadness => "Creates melancholy and reflection"@,
            EmotionType::Anger => "Generates intense, aggressive energy"@,
            EmotionType::Fear => "Creates anxiety and uncertainty"@,
            EmotionType::Disgust => "Spreads aversion and rejection"@,
            EmotionType::Anxiety => "Creates nervous tension"@,
            EmotionType::Love => "Spreads warmth and connection"@,
            EmotionType::Envy => "Creates jealousy and resentment"@,
            EmotionType::Embarrassment => "Generates awkwardness"@,
        }
    }

    /// The character carries the name, colour and pictograph of its emotion,
    /// and the words that go with it.
    pub open spec fn portrays(self, emotion: EmotionType) -> bool {
        &&& self.emotion == emotion
        &&& self.name@ == emotion.name_of()
        &&& self.color == emotion.color_of()
        &&& self.emoji@ == emotion.emoji_of()
        &&& self.description@ == Self::blurb(emotion)
    }

    fn of(emotion: EmotionType) -> (c: Character)
        ensures
            c.portrays(emotion),
    {
        let description = match emotion {
            EmotionType::Joy => "Spreads happiness and positive energy",
            EmotionType::Sadness => "Creates melancholy and reflection",
            EmotionType::Anger => "Generates intense, aggressive energy",
            EmotionType::Fear => "Creates anxiety and uncertainty",
            EmotionType::Disgust => "Spreads aversion and rejection",
            EmotionType::Anxiety => "Creates nervous tension",
            EmotionType::Love => "Spreads warmth and connection",
            EmotionType::Envy => "Creates jealousy and resentment",
            EmotionType::Embarrassment => "Generates awkwardness",
        };
        Character {
            name: emotion.name(),
            emotion,
            color: emotion.color(),
            emoji: emotion.emoji(),
            description,
        }
    }

    /// One character for every emotion of the catalogue, in its order.
    pub fn all() -> (characters: Vec<Character>)
        ensures
            characters@.len() == EmotionType::catalog().len(),
            forall|i: int|
                0 <= i < characters@.len() ==> (#[trigger] characters@[i]).portrays(
                    EmotionType::catalog()[i],
                ),
    {
        let emotions = EmotionType::all();
        let mut characters: Vec<Character> = Vec::new();
        let mut i: usize = 0;
        while i < emotions.len()
            invariant
                i <= emotions@.len(),
                emotions@ == EmotionType::catalog(),
                characters@.len() == i,
                forall|j: int|
                    0 <= j < i ==> (#[trigger] characters@[j]).portrays(EmotionType::catalog()[j]),
            decreases emotions@.len() - i,
        {
            characters.push(Character::of(emotions[i]));
            i += 1;
        }
        characters
    }
}

/// The space to the left of the first column of characters.
pub const MARGIN: i64 = 20_000_000;

/// The height of the title above the first row of characters.
pub const HEADER: i64 = 50_000_000;

/// The distance from one column of characters to the next.
pub const COLUMN_PITCH: i64 = 100_000_000;

/// The distance from one row of characters to the next.
pub const ROW_PITCH: i64 = 80_000_000;

/// The number of characters in a row.
pub const PER_ROW: usize = 3;

/// The row or column that holds the offset `rel` from the first one: zero
/// for an offset before it.
pub open spec fn slot(rel: int, pitch: int) -> int {
    if rel < 0 {
        0
    } else {
        rel / pitch
    }
}

/// `v` moved into the range of `i64`.
pub open spec fn clipped(v: int) -> i64 {
    if v < i64::MIN {
        i64::MIN
    } else if v > i64::MAX {
        i64::MAX
    } else {
        v as i64
    }
}

/// The toolbox: a panel of characters, three in a row under a title, from
/// which one at a time is dragged. Lengths and positions are fixed-point.
#[derive(Debug, Clone)]
pub struct CharacterToolbox {
    pub characters: Vec<Character>,
    pub position: Position,
    pub width: i64,
    pub height: i64,
    pub dragging_character: Option<Character>,
    pub drag_offset: Position,
}

impl CharacterToolbox {
    /// The pointer is on the panel, below its title.
    pub open spec fn covers(&self, mouse: Position) -> bool {
        &&& mouse.x >= self.position.x
        &&& mouse.x <= self.position.x + self.width
        &&& mouse.y >= self.position.y + HEADER
        &&& mouse.y <= self.position.y + self.height
    }

    /// The column under the pointer.
    pub open spec fn column(&self, mouse: Position) -> int {
        slot(mouse.x - self.position.x - MARGIN, COLUMN_PITCH as int)
    }

    /// The row under the pointer.
    pub open spec fn row(&self, mouse: Position) -> int {
        slot(mouse.y - self.position.y - HEADER, ROW_PITCH as int)
    }

    /// The place in the list of the character under the pointer.
    pub open spec fn place(&self, mouse: Position) -> int {
        self.row(mouse) * PER_ROW + self.column(mouse)
    }

    /// The character under the pointer, if the pointer is on the panel and
    /// over one.
    pub open spec fn under(&self, mouse: Position) -> Option<Character> {
        if self.covers(mouse) && self.place(mouse) < self.characters@.len() {
            Some(self.characters@[self.place(mouse)])
        } else {
            None
        }
    }

    /// Where the pointer is relative to the middle of the place under it.
    pub open spec fn grip(&self, mouse: Position) -> Position {
        Position {
            x: clipped(
                mouse.x - self.position.x - MARGIN - self.column(mouse) * COLUMN_PITCH
                    - 40_000_000,
            ),
            y: clipped(
                mouse.y - self.position.y - HEADER - self.row(mouse) * ROW_PITCH - 30_000_000,
            ),
        }
    }

    /// A toolbox of all characters with its corner at `(x, y)`.
    pub fn new(x: i64, y: i64, width: i64, height: i64) -> (toolbox: CharacterToolbox)
        ensures
            toolbox.position == (Position { x, y }),
            toolbox.width == width,
            toolbox.height == height,
            toolbox.dragging_character is None,
            toolbox.drag_offset == (Position { x: 0, y: 0 }),
            toolbox.characters@.len() == EmotionType::catalog().len(),
            forall|i: int|
                0 <= i < toolbox.characters@.len() ==> (#[trigger] toolbox.characters@[i]).portrays(
                    EmotionType::catalog()[i],
                ),
    {
        CharacterToolbox {
            characters: Character::all(),
            position: Position { x, y },
            width,
            height,
            dragging_character: None,
            drag_offset: Position { x: 0, y: 0 },
        }
    }

    fn slots(&self, mouse_pos: Position) -> (at: (i128, i128))
        ensures
            at.0 == self.column(mouse_pos),
            at.1 == self.row(mouse_pos),
            0 <= at.0 <= 0x1_0000_0000_0000_0000,
            0 <= at.1 <= 0x1_0000_0000_0000_0000,
    {
        let rel_x: i128 = (mouse_pos.x as i128) - (self.position.x as i128) - (MARGIN as i128);
        let rel_y: i128 = (mouse_pos.y as i128) - (self.position.y as i128) - (HEADER as i128);
        let col: i128 = if rel_x < 0 {
            0
        } else {
            rel_x / (COLUMN_PITCH as i128)
        };
        let row: i128 = if rel_y < 0 {
            0
        } else {
            rel_y / (ROW_PITCH as i128)
        };
        (col, row)
    }

    /// The character under the pointer, if any.
    pub fn get_character_at_pos(&self, mouse_pos: Position) -> (found: Option<Character>)
        ensures
            found == self.under(mouse_pos),
    {
        if !self.is_inside_toolbox(mouse_pos) {
            return None;
        }
        let (col, row) = self.slots(mouse_pos);
        let index: i128 = row * (PER_ROW as i128) + col;
        if index < self.characters.len() as i128 {
            Some(self.characters[index as usize])
        } else {
            None
        }
    }

    /// Whether the pointer is on the panel, below its title.
    pub fn is_inside_toolbox(&self, mouse_pos: Position) -> (inside: bool)
        ensures
            inside == self.covers(mouse_pos),
    {
        let left = self.position.x as i128;
        let top = self.position.y as i128;
        let x = mouse_pos.x as i128;
        let y = mouse_pos.y as i128;
        x >= left && x <= left + (self.width as i128) && y >= top + (HEADER as i128) && y <= top + (
        self.height as i128)
    }

    /// Picks up a character, and notes where the pointer holds it.
    pub fn start_drag(&mut self, character: Character, mouse_pos: Position)
        ensures
            final(self).dragging_character == Some(character),
            final(self).drag_offset == old(self).grip(mouse_pos),
            final(self).characters == old(self).characters,
            final(self).position == old(self).position,
            final(self).width == old(self).width,
            final(self).height == old(self).height,
    {
        let (col, row) = self.slots(mouse_pos);
        let rel_x: i128 = (mouse_pos.x as i128) - (self.position.x as i128) - (MARGIN as i128);
        let rel_y: i128 = (mouse_pos.y as i128) - (self.position.y as i128) - (HEADER as i128);
        assert(COLUMN_PITCH == 100_000_000 && ROW_PITCH == 80_000_000);
        let off_x: i128 = rel_x - col * 100_000_000 - 40_000_000;
        let off_y: i128 = rel_y - row * 80_000_000 - 30_000_000;
        self.dragging_character = Some(character);
        self.drag_offset = Position { x: clip(off_x), y: clip(off_y) };
    }

    /// Lets go of the character that is dragged, and hands it out.
    pub fn stop_drag(&mut self) -> (dropped: Option<Character>)
        ensures
            dropped == old(self).dragging_character,
            final(self).dragging_character is None,
            final(self).drag_offset == (Position { x: 0, y: 0 }),
            final(self).characters == old(self).characters,
            final(self).position == old(self).position,
            final(self).width == old(self).width,
            final(self).height == old(self).height,
    {
        let character = self.dragging_character;
        self.dragging_character = None;
        self.drag_offset = Position { x: 0, y: 0 };
        character
    }
}

fn clip(v: i128) -> (r: i64)
    ensures
        r == clipped(v as int),
{
    if v < i64::MIN as i128 {
        i64::MIN
    } else if v > i64::MAX as i128 {
        i64::MAX
    } else {
        v as i64
    }
}

} // verus!
