//! The grid of the weighted model: cells that hold sets of emotions, walls
//! that stop them, and the tick that lets them fade and spread.

use crate::colors::Rgba;
use crate::config::ConfigError;
use crate::contagion::emotion_set::{
    absorbed, all_bounded, displayable, distinct, faded, intensity_of, interacted,
    lemma_calm_set_is_settled, merged, mixed, total, EmotionSet,
};
use crate::contagion::emotions::{Emotion, EmotionData, EmotionType, Kind, FAINT, NOTABLE};
use crate::contagion::entity::Entity;
use crate::fixed::{
    add_capped, distance, is_root, lemma_product_fits, lemma_root_is_unique, root, saturated, span,
    UNIT,
};
use crate::moore::shift;
use crate::world::{cell_index, clamped_index, fits, index_of, Position};
use vstd::prelude::*;

verus! {

/// One cell of the grid.
#[derive(Debug, Clone)]
pub struct Cell {
    pub x: i32,
    pub y: i32,
    pub emotions: EmotionSet,
    /// The entities that stand in the cell, by their ids.
    pub entities: Vec<u32>,
    pub background_color: Rgba,
    /// A barrier holds no emotion and lets none through.
    pub is_barrier: bool,
}

/// A cell as a value.
pub struct CellData {
    pub x: i32,
    pub y: i32,
    pub emotions: Seq<EmotionData>,
    pub total_capacity: u64,
    pub entities: Seq<u32>,
    pub background_color: Rgba,
    pub is_barrier: bool,
}

impl View for Cell {
    type V = CellData;

    open spec fn view(&self) -> CellData {
        CellData {
            x: self.x,
            y: self.y,
            emotions: self.emotions@,
            total_capacity: self.emotions.total_capacity,
            entities: self.entities@,
            background_color: self.background_color,
            is_barrier: self.is_barrier,
        }
    }
}

/// `ids` with `id` in it: added at the end unless it is there already.
pub open spec fn with_id(ids: Seq<u32>, id: u32) -> Seq<u32> {
    if ids.contains(id) {
        ids
    } else {
        ids.push(id)
    }
}

/// `ids` without any occurrence of `id`, the others in their order.
pub open spec fn without_id(ids: Seq<u32>, id: u32) -> Seq<u32>
    decreases ids.len(),
{
    if ids.len() == 0 {
        ids
    } else if ids.last() == id {
        without_id(ids.drop_last(), id)
    } else {
        without_id(ids.drop_last(), id).push(ids.last())
    }
}

impl CellData {
    /// The cell at `(x, y)` as it is made: no emotion, nobody in it, a light
    /// grey background, no barrier.
    pub open spec fn vacant(x: int, y: int) -> CellData {
        CellData {
            x: x as i32,
            y: y as i32,
            emotions: Seq::empty(),
            total_capacity: UNIT,
            entities: Seq::empty(),
            background_color: Rgba::percent(95, 95, 95),
            is_barrier: false,
        }
    }

    /// The cell turned into a barrier: it loses its emotions.
    pub open spec fn walled(self) -> CellData {
        CellData { is_barrier: true, emotions: Seq::empty(), total_capacity: UNIT, ..self }
    }

    /// The cell holds an emotion to speak of: more than a hundredth in sum.
    pub open spec fn active(self) -> bool {
        total(self.emotions) > FAINT
    }

    /// The colour in which the cell is drawn: dark grey for a barrier, the
    /// background for a cell without emotion to speak of, and otherwise the
    /// opaque mean of the background and the colour of its emotions.
    pub open spec fn shown(self) -> Rgba {
        if self.is_barrier {
            Rgba::percent(30, 30, 30)
        } else if self.emotions.len() == 0 || total(self.emotions) < FAINT {
            self.background_color
        } else {
            Rgba::of(
                self.background_color.r / 2 + mixed(self.emotions).r / 2,
                self.background_color.g / 2 + mixed(self.emotions).g / 2,
                self.background_color.b / 2 + mixed(self.emotions).b / 2,
                1_000_000,
            )
        }
    }
}

impl Cell {
    /// No emotion kind occurs twice, and a barrier holds no emotion.
    pub open spec fn wf(&self) -> bool {
        self.emotions.wf() && (self.is_barrier ==> self.emotions@.len() == 0)
    }

    /// The cell at column `position.0` of row `position.1`.
    pub fn new(position: (usize, usize)) -> (cell: Cell)
        requires
            position.0 <= i32::MAX,
            position.1 <= i32::MAX,
        ensures
            cell@ == CellData::vacant(position.0 as int, position.1 as int),
            cell.wf(),
    {
        Cell {
            x: position.0 as i32,
            y: position.1 as i32,
            emotions: EmotionSet::new(),
            entities: Vec::new(),
            background_color: Rgba::new(950_000, 950_000, 950_000, 1_000_000),
            is_barrier: false,
        }
    }

    /// Lets the emotions of the cell fade for `delta_time`.
    pub fn update(&mut self, delta_time: u64)
        requires
            old(self).wf(),
        ensures
            final(self).wf(),
            final(self)@ == (CellData {
                emotions: faded(old(self)@.emotions, delta_time),
                ..old(self)@
            }),
    {
        self.emotions.update(delta_time);
        proof {
            if self.is_barrier {
                assert(old(self)@.emotions.len() == 0);
                assert(faded(old(self)@.emotions, delta_time) =~= Seq::empty());
            }
        }
    }

    /// Notes that an entity stands in the cell.
    pub fn add_entity(&mut self, entity_id: u32)
        ensures
            final(self)@ == (CellData {
                entities: with_id(old(self)@.entities, entity_id),
                ..old(self)@
            }),
    {
        let mut found = false;
        let mut i: usize = 0;
        while i < self.entities.len()
            invariant
                i <= self.entities@.len(),
                *self == *old(self),
                found <==> exists|j: int| 0 <= j < i && self.entities@[j] == entity_id,
            decreases self.entities@.len() - i,
        {
            if self.entities[i] == entity_id {
                found = true;
            }
            i += 1;
        }
        if !found {
            self.entities.push(entity_id);
        }
    }

    /// Notes that an entity has left the cell.
    pub fn remove_entity(&mut self, entity_id: u32)
        ensures
            final(self)@ == (CellData {
                entities: without_id(old(self)@.entities, entity_id),
                ..old(self)@
            }),
    {
        let mut kept: Vec<u32> = Vec::new();
        let mut i: usize = 0;
        while i < self.entities.len()
            invariant
                i <= self.entities@.len(),
                *self == *old(self),
                kept@ == without_id(self.entities@.take(i as int), entity_id),
            decreases self.entities@.len() - i,
        {
            proof {
                assert(self.entities@.take(i + 1).drop_last() =~= self.entities@.take(i as int));
            }
            if self.entities[i] != entity_id {
                kept.push(self.entities[i]);
            }
            i += 1;
        }
        assert(self.entities@.take(i as int) =~= self.entities@);
        self.entities = kept;
    }

    /// The colour in which the cell is drawn.
    pub fn visual_color(&self) -> (c: Rgba)
        requires
            displayable(self@.emotions),
        ensures
            c == self@.shown(),
    {
        if self.is_barrier {
            return Rgba::new(300_000, 300_000, 300_000, 1_000_000);
        }
        if self.emotions.is_empty() {
            self.background_color
        } else {
            let emotion_color = self.emotions.mixed_color();
            Rgba::new(
                self.background_color.r / 2 + emotion_color.r / 2,
                self.background_color.g / 2 + emotion_color.g / 2,
                self.background_color.b / 2 + emotion_color.b / 2,
                1_000_000,
            )
        }
    }
}

/// The cells of a grid, as values.
pub open spec fn cells_of(cells: Seq<Vec<Cell>>) -> Seq<Seq<CellData>> {
    Seq::new(cells.len(), |y: int| Seq::new(cells[y]@.len(), |x: int| cells[y]@[x]@))
}

/// `(x, y)` is a cell of the grid.
pub open spec fn inside(cells: Seq<Seq<CellData>>, x: int, y: int) -> bool {
    0 <= y < cells.len() && 0 <= x < cells[y].len()
}

/// `(x, y)` is a cell of the grid and no barrier.
pub open spec fn open_at(cells: Seq<Seq<CellData>>, x: int, y: int) -> bool {
    inside(cells, x, y) && !cells[y][x].is_barrier
}

/// Every cell knows its place, holds no emotion kind twice, and holds no
/// emotion at all where it is a barrier.
pub open spec fn sound(cells: Seq<Seq<CellData>>) -> bool {
    forall|x: int, y: int| #[trigger]
        inside(cells, x, y) ==> {
            &&& cells[y][x].x == x
            &&& cells[y][x].y == y
            &&& distinct(cells[y][x].emotions)
            &&& cells[y][x].is_barrier ==> cells[y][x].emotions.len() == 0
        }
}

/// Every emotion of every cell is within bounds: its intensity does not
/// exceed what it may reach, which is at most `UNIT`.
pub open spec fn bounded(cells: Seq<Seq<CellData>>) -> bool {
    forall|x: int, y: int| #[trigger] inside(cells, x, y) ==> all_bounded(cells[y][x].emotions)
}

/// A grid of `height` rows of `width` vacant cells.
pub open spec fn vacant_grid(width: nat, height: nat) -> Seq<Seq<CellData>> {
    Seq::new(height, |y: int| Seq::new(width, |x: int| CellData::vacant(x, y)))
}

/// The grid with the cell at `(x, y)` replaced, or as it is where it has no
/// such cell.
pub open spec fn with_cell(cells: Seq<Seq<CellData>>, x: int, y: int, cell: CellData) -> Seq<
    Seq<CellData>,
> {
    if inside(cells, x, y) {
        cells.update(y, cells[y].update(x, cell))
    } else {
        cells
    }
}

/// The neighbour of `(x, y)` one step `(dx, dy)` away, where a grid of the
/// given size has one.
pub open spec fn neighbor(width: int, height: int, x: int, y: int, dx: int, dy: int) -> Seq<
    (usize, usize),
> {
    if 0 <= x + dx < width && 0 <= y + dy < height {
        seq![((x + dx) as usize, (y + dy) as usize)]
    } else {
        Seq::empty()
    }
}

/// The cells that touch `(x, y)` in a grid of the given size, row by row from
/// the top, each row from the left.
pub open spec fn neighbors(width: int, height: int, x: int, y: int) -> Seq<(usize, usize)> {
    neighbor(width, height, x, y, -1, -1) + neighbor(width, height, x, y, 0, -1) + neighbor(
        width,
        height,
        x,
        y,
        1,
        -1,
    ) + neighbor(width, height, x, y, -1, 0) + neighbor(width, height, x, y, 1, 0) + neighbor(
        width,
        height,
        x,
        y,
        -1,
        1,
    ) + neighbor(width, height, x, y, 0, 1) + neighbor(width, height, x, y, 1, 1)
}

/// The ids of the visible entities that stand in the cell `(x, y)`, in the
/// order of the list, each once.
pub open spec fn lodgers(entities: Seq<Entity>, x: int, y: int, cell_size: int) -> Seq<u32>
    decreases entities.len(),
{
    if entities.len() == 0 {
        Seq::empty()
    } else {
        let last = entities.last();
        if last.is_visible && clamped_index(last.position.x as int, cell_size) == x
            && clamped_index(last.position.y as int, cell_size) == y {
            with_id(lodgers(entities.drop_last(), x, y, cell_size), last.id)
        } else {
            lodgers(entities.drop_last(), x, y, cell_size)
        }
    }
}

/// The grid in which every cell holds exactly the visible entities of the
/// list that stand in it.
pub open spec fn lodged(cells: Seq<Seq<CellData>>, entities: Seq<Entity>, cell_size: int) -> Seq<
    Seq<CellData>,
> {
    Seq::new(
        cells.len(),
        |y: int|
            Seq::new(
                cells[y].len(),
                |x: int|
                    CellData { entities: lodgers(entities, x, y, cell_size), ..cells[y][x] },
            ),
    )
}

/// The length of one step along an axis: nothing, or one cell.
pub open spec fn reach(d: int) -> u64 {
    if d == 0 {
        0
    } else {
        UNIT
    }
}

/// The distance, in cells, between a cell and the one a step `(dx, dy)` away.
pub open spec fn step_length(dx: int, dy: int) -> u64 {
    span(reach(dx) as int, reach(dy) as int) as u64
}

/// A step along one axis is one cell long; a diagonal step is the square root
/// of two cells long, rounded down to the millionth.
pub proof fn lemma_step_lengths()
    ensures
        step_length(1, 0) == 1_000_000,
        step_length(0, 1) == 1_000_000,
        step_length(-1, 0) == 1_000_000,
        step_length(0, -1) == 1_000_000,
        step_length(1, 1) == 1_414_213,
        step_length(-1, 1) == 1_414_213,
        step_length(1, -1) == 1_414_213,
        step_length(-1, -1) == 1_414_213,
{
    let one: int = 1_000_000;
    assert(one * one == 1_000_000_000_000) by (nonlinear_arith)
        requires
            one == 1_000_000,
    ;
    let zero: int = 0;
    assert(zero * zero == 0) by (nonlinear_arith)
        requires
            zero == 0,
    ;
    assert(is_root(1_000_000_000_000, 1_000_000)) by (nonlinear_arith);
    assert(is_root(2_000_000_000_000, 1_414_213)) by (nonlinear_arith);
    lemma_root_is_unique(1_000_000_000_000, 1_000_000, root(1_000_000_000_000));
    lemma_root_is_unique(2_000_000_000_000, 1_414_213, root(2_000_000_000_000));
}

/// `into` after it has taken what the neighbour of `(x, y)` a step
/// `(dx, dy)` away passes on in a tick of `delta_time`: the neighbour's
/// emotions fade first, and those that are then significant spread by the
/// length of the step. A barrier, like the outside of the grid, passes
/// nothing on.
pub open spec fn taken_from(
    cells: Seq<Seq<CellData>>,
    into: Seq<EmotionData>,
    x: int,
    y: int,
    dx: int,
    dy: int,
    delta_time: u64,
) -> Seq<EmotionData> {
    if open_at(cells, x + dx, y + dy) {
        absorbed(
            into,
            faded(cells[y + dy][x + dx].emotions, delta_time),
            step_length(dx, dy),
            NOTABLE,
        )
    } else {
        into
    }
}

/// What the cell at `(x, y)` holds once its emotions have faded and it has
/// taken what its eight neighbours pass on, row by row from the top, each row
/// from the left. A barrier takes nothing.
pub open spec fn diffused(cells: Seq<Seq<CellData>>, x: int, y: int, delta_time: u64) -> Seq<
    EmotionData,
> {
    let own = faded(cells[y][x].emotions, delta_time);
    if cells[y][x].is_barrier {
        own
    } else {
        let a = taken_from(cells, own, x, y, -1, -1, delta_time);
        let b = taken_from(cells, a, x, y, 0, -1, delta_time);
        let c = taken_from(cells, b, x, y, 1, -1, delta_time);
        let d = taken_from(cells, c, x, y, -1, 0, delta_time);
        let e = taken_from(cells, d, x, y, 1, 0, delta_time);
        let f = taken_from(cells, e, x, y, -1, 1, delta_time);
        let g = taken_from(cells, f, x, y, 0, 1, delta_time);
        taken_from(cells, g, x, y, 1, 1, delta_time)
    }
}

/// The emotions of the cell at `(x, y)` after a tick of `delta_time`,
/// computed from the grid before it: they fade, the cell takes what its
/// neighbours pass on, and then its emotions act on one another.
pub open spec fn next_emotions(cells: Seq<Seq<CellData>>, x: int, y: int, delta_time: u64) -> Seq<
    EmotionData,
> {
    interacted(diffused(cells, x, y, delta_time))
}

/// The cell at `(x, y)` after a tick: only its emotions change.
pub open spec fn next_cell(cells: Seq<Seq<CellData>>, x: int, y: int, delta_time: u64) -> CellData {
    CellData { emotions: next_emotions(cells, x, y, delta_time), ..cells[y][x] }
}

/// The grid after a tick of `delta_time`: every cell is computed from the
/// grid before it.
pub open spec fn step(cells: Seq<Seq<CellData>>, delta_time: u64) -> Seq<Seq<CellData>> {
    Seq::new(
        cells.len(),
        |y: int| Seq::new(cells[y].len(), |x: int| next_cell(cells, x, y, delta_time)),
    )
}

/// The summed intensity of the first `n` cells of row `y`.
pub open spec fn row_total(cells: Seq<Seq<CellData>>, y: int, n: nat) -> nat
    decreases n,
{
    if n == 0 {
        0
    } else {
        row_total(cells, y, (n - 1) as nat) + total(cells[y][n - 1].emotions)
    }
}

/// The summed intensity of the first `rows` rows.
pub open spec fn rows_total(cells: Seq<Seq<CellData>>, rows: nat) -> nat
    decreases rows,
{
    if rows == 0 {
        0
    } else {
        rows_total(cells, (rows - 1) as nat) + row_total(cells, rows - 1, cells[rows - 1].len())
    }
}

/// The sum of all intensities in the grid.
pub open spec fn grid_total(cells: Seq<Seq<CellData>>) -> nat {
    rows_total(cells, cells.len())
}

/// The summed intensity of `kind` in the first `n` cells of row `y`.
pub open spec fn row_kind_total(cells: Seq<Seq<CellData>>, kind: Kind, y: int, n: nat) -> nat
    decreases n,
{
    if n == 0 {
        0
    } else {
        row_kind_total(cells, kind, y, (n - 1) as nat) + intensity_of(
            cells[y][n - 1].emotions,
            kind,
        ) as nat
    }
}

/// The summed intensity of `kind` in the first `rows` rows.
pub open spec fn rows_kind_total(cells: Seq<Seq<CellData>>, kind: Kind, rows: nat) -> nat
    decreases rows,
{
    if rows == 0 {
        0
    } else {
        rows_kind_total(cells, kind, (rows - 1) as nat) + row_kind_total(
            cells,
            kind,
            rows - 1,
            cells[rows - 1].len(),
        )
    }
}

/// The sum of the intensities of `kind` in the grid.
pub open spec fn kind_total(cells: Seq<Seq<CellData>>, kind: Kind) -> nat {
    rows_kind_total(cells, kind, cells.len())
}

/// The number of active cells among the first `n` of row `y`.
pub open spec fn row_active(cells: Seq<Seq<CellData>>, y: int, n: nat) -> nat
    decreases n,
{
    if n == 0 {
        0
    } else {
        row_active(cells, y, (n - 1) as nat) + if cells[y][n - 1].active() {
            1nat
        } else {
            0nat
        }
    }
}

/// The number of active cells in the first `rows` rows.
pub open spec fn rows_active(cells: Seq<Seq<CellData>>, rows: nat) -> nat
    decreases rows,
{
    if rows == 0 {
        0
    } else {
        rows_active(cells, (rows - 1) as nat) + row_active(cells, rows - 1, cells[rows - 1].len())
    }
}

/// The number of cells that hold an emotion to speak of.
pub open spec fn active_cells(cells: Seq<Seq<CellData>>) -> nat {
    rows_active(cells, cells.len())
}

/// The maze has a wall at `(x, y)`: on every fourth row from the third, with
/// a gap at every eighth column, and on every sixth column from the third,
/// with a gap at every sixth row; a margin of two cells stays free.
pub open spec fn in_wall(x: int, y: int, width: int, height: int) -> bool {
    &&& 2 <= x < width - 2
    &&& 2 <= y < height - 2
    &&& ((y - 2) % 4 == 0 && x % 8 != 0) || ((x - 2) % 6 == 0 && y % 6 != 0)
}

/// The grid with the walls of the maze built.
pub open spec fn mazed(cells: Seq<Seq<CellData>>, width: int, height: int) -> Seq<Seq<CellData>> {
    Seq::new(
        cells.len(),
        |y: int|
            Seq::new(
                cells[y].len(),
                |x: int|
                    if in_wall(x, y, width, height) {
                        cells[y][x].walled()
                    } else {
                        cells[y][x]
                    },
            ),
    )
}

/// A barrier does not change in a tick.
pub proof fn lemma_barrier_is_inert(cells: Seq<Seq<CellData>>, x: int, y: int, delta_time: u64)
    requires
        sound(cells),
        inside(cells, x, y),
        cells[y][x].is_barrier,
    ensures
        step(cells, delta_time)[y][x] == cells[y][x],
{
    assert(cells[y][x].emotions.len() == 0);
    assert(faded(cells[y][x].emotions, delta_time) =~= cells[y][x].emotions);
    assert(all_bounded(cells[y][x].emotions));
    lemma_calm_set_is_settled(cells[y][x].emotions);
}

/// Nothing comes out of a barrier: what a cell takes from a neighbour that
/// is a barrier is nothing.
pub proof fn lemma_barrier_passes_nothing(
    cells: Seq<Seq<CellData>>,
    into: Seq<EmotionData>,
    x: int,
    y: int,
    dx: int,
    dy: int,
    delta_time: u64,
)
    requires
        inside(cells, x + dx, y + dy),
        cells[y + dy][x + dx].is_barrier,
    ensures
        taken_from(cells, into, x, y, dx, dy, delta_time) == into,
{
}

/// A cell whose neighbours hold no emotion only fades: after the tick it
/// holds its own emotions, faded, as they then act on one another.
pub proof fn lemma_isolated_cell_only_fades(
    cells: Seq<Seq<CellData>>,
    x: int,
    y: int,
    delta_time: u64,
)
    requires
        inside(cells, x, y),
        forall|dx: int, dy: int|
            -1 <= dx <= 1 && -1 <= dy <= 1 && (dx != 0 || dy != 0) && #[trigger] inside(
                cells,
                x + dx,
                y + dy,
            ) ==> cells[y + dy][x + dx].emotions.len() == 0,
    ensures
        diffused(cells, x, y, delta_time) == faded(cells[y][x].emotions, delta_time),
        step(cells, delta_time)[y][x].emotions == interacted(
            faded(cells[y][x].emotions, delta_time),
        ),
{
    assert forall|into: Seq<EmotionData>, dx: int, dy: int|
        -1 <= dx <= 1 && -1 <= dy <= 1 && (dx != 0 || dy != 0) implies #[trigger] taken_from(
        cells,
        into,
        x,
        y,
        dx,
        dy,
        delta_time,
    ) == into by {
        if open_at(cells, x + dx, y + dy) {
            assert(inside(cells, x + dx, y + dy));
            assert(faded(cells[y + dy][x + dx].emotions, delta_time) =~= Seq::empty());
        }
    }
}

/// A row of barriers separates what is above it from what is below: two
/// grids that are alike above a row which is all barriers in both are alike
/// above that row after a tick, whatever lies below it.
pub proof fn lemma_wall_separates(
    one: Seq<Seq<CellData>>,
    other: Seq<Seq<CellData>>,
    wall: int,
    delta_time: u64,
)
    requires
        one.len() == other.len(),
        0 <= wall < one.len(),
        forall|y: int| 0 <= y < one.len() ==> (#[trigger] one[y]).len() == other[y].len(),
        forall|y: int| 0 <= y < wall ==> #[trigger] one[y] == other[y],
        forall|x: int|
            0 <= x < one[wall].len() ==> (#[trigger] one[wall][x]).is_barrier
                && other[wall][x].is_barrier,
    ensures
        forall|y: int| 0 <= y < wall ==> #[trigger] step(one, delta_time)[y] == step(other, delta_time)[y],
{
    assert forall|y: int| 0 <= y < wall implies #[trigger] step(one, delta_time)[y] == step(
        other,
        delta_time,
    )[y] by {
        assert forall|x: int| 0 <= x < one[y].len() implies next_cell(one, x, y, delta_time)
            == next_cell(other, x, y, delta_time) by {
            let own = faded(one[y][x].emotions, delta_time);
            assert forall|into: Seq<EmotionData>, dx: int, dy: int|
                -1 <= dx <= 1 && -1 <= dy <= 1 implies #[trigger] taken_from(
                one,
                into,
                x,
                y,
                dx,
                dy,
                delta_time,
            ) == taken_from(other, into, x, y, dx, dy, delta_time) by {
                if 0 <= y + dy < one.len() {
                    if y + dy < wall {
                        assert(one[y + dy] == other[y + dy]);
                    } else {
                        assert(y + dy == wall);
                        if 0 <= x + dx < one[wall].len() {
                            assert(one[wall][x + dx].is_barrier);
                            assert(other[wall][x + dx].is_barrier);
                        }
                    }
                }
            }
        }
        assert(step(one, delta_time)[y] =~= step(other, delta_time)[y]);
    }
}

/// The faded emotions of every cell, kept apart while a tick is computed.
spec fn rested_from(rested: Seq<Vec<EmotionSet>>, cells: Seq<Seq<CellData>>, delta_time: u64) -> bool {
    &&& rested.len() == cells.len()
    &&& forall|y: int| 0 <= y < cells.len() ==> (#[trigger] rested[y])@.len() == cells[y].len()
    &&& forall|x: int, y: int| #[trigger]
        inside(cells, x, y) ==> {
            &&& rested[y]@[x]@ == faded(cells[y][x].emotions, delta_time)
            &&& rested[y]@[x].wf()
            &&& rested[y]@[x].total_capacity == cells[y][x].total_capacity
            &&& all_bounded(cells[y][x].emotions) ==> all_bounded(rested[y]@[x]@)
        }
}

/// The emotions of every cell after a tick, before they are put in place.
spec fn ready_for(next: Seq<Vec<EmotionSet>>, cells: Seq<Seq<CellData>>, delta_time: u64) -> bool {
    &&& next.len() == cells.len()
    &&& forall|y: int| 0 <= y < cells.len() ==> (#[trigger] next[y])@.len() == cells[y].len()
    &&& forall|x: int, y: int| #[trigger]
        inside(cells, x, y) ==> {
            &&& next[y]@[x]@ == next_emotions(cells, x, y, delta_time)
            &&& next[y]@[x].wf()
            &&& next[y]@[x].total_capacity == cells[y][x].total_capacity
            &&& all_bounded(cells[y][x].emotions) && bounded(cells) ==> all_bounded(next[y]@[x]@)
        }
}

/// The grid of the weighted model. Rows run from the top, cells in a row from
/// the left; `cell_size` is the fixed-point edge length of a cell in the
/// world.
#[derive(Debug, Clone)]
pub struct Grid {
    pub width: i32,
    pub height: i32,
    pub cell_size: u64,
    pub cells: Vec<Vec<Cell>>,
    /// The sum of all intensities as of the last tick.
    pub total_emotion_intensity: u64,
}

impl View for Grid {
    type V = Seq<Seq<CellData>>;

    open spec fn view(&self) -> Seq<Seq<CellData>> {
        cells_of(self.cells@)
    }
}

impl Grid {
    /// The grid is rectangular and not empty, its cells have an extent and
    /// are sound, and its shape is within the machine's limits.
    pub open spec fn wf(&self) -> bool {
        &&& 0 < self.width
        &&& 0 < self.height
        &&& 0 < self.cell_size
        &&& fits(self.width as int, self.height as int, self.cell_size as int)
        &&& self.cells@.len() == self.height
        &&& forall|y: int| 0 <= y < self.height ==> (#[trigger] self.cells@[y])@.len() == self.width
        &&& sound(self@)
    }

    /// Builds a grid of vacant cells.
    pub fn new(width: usize, height: usize, cell_size: u64) -> (grid: Grid)
        requires
            0 < width <= i32::MAX,
            0 < height <= i32::MAX,
            0 < cell_size,
            fits(width as int, height as int, cell_size as int),
        ensures
            grid.wf(),
            grid.width == width,
            grid.height == height,
            grid.cell_size == cell_size,
            grid.total_emotion_intensity == 0,
            grid@ == vacant_grid(width as nat, height as nat),
    {
        let mut cells: Vec<Vec<Cell>> = Vec::new();
        let mut y: usize = 0;
        while y < height
            invariant
                y <= height <= i32::MAX,
                width <= i32::MAX,
                cells@.len() == y,
                forall|j: int| 0 <= j < y ==> (#[trigger] cells@[j])@.len() == width,
                forall|j: int, i: int|
                    0 <= j < y && 0 <= i < width ==> (#[trigger] cells@[j]@[i])@
                        == CellData::vacant(i, j),
            decreases height - y,
        {
            let mut row: Vec<Cell> = Vec::new();
            let mut x: usize = 0;
            while x < width
                invariant
                    x <= width <= i32::MAX,
                    y < height <= i32::MAX,
                    row@.len() == x,
                    forall|i: int| 0 <= i < x ==> (#[trigger] row@[i])@ == CellData::vacant(i, y as int),
                decreases width - x,
            {
                row.push(Cell::new((x, y)));
                x += 1;
            }
            cells.push(row);
            y += 1;
        }
        let grid = Grid {
            width: width as i32,
            height: height as i32,
            cell_size,
            cells,
            total_emotion_intensity: 0,
        };
        assert(grid@ =~~= vacant_grid(width as nat, height as nat));
        grid
    }

    /// Builds a grid of vacant cells, or says why the shape is refused.
    pub fn try_new(width: usize, height: usize, cell_size: u64) -> (r: Result<Grid, ConfigError>)
        ensures
            width == 0 ==> r matches Err(ConfigError::ZeroWidth),
            width > 0 && height == 0 ==> r matches Err(ConfigError::ZeroHeight),
            width > 0 && height > 0 && cell_size == 0 ==> r matches Err(ConfigError::ZeroCellSize),
            width > 0 && height > 0 && cell_size > 0 && !(width <= i32::MAX && height <= i32::MAX
                && fits(width as int, height as int, cell_size as int)) ==> r matches Err(
                ConfigError::TooLarge,
            ),
            width > 0 && height > 0 && cell_size > 0 && width <= i32::MAX && height <= i32::MAX
                && fits(width as int, height as int, cell_size as int) ==> {
                &&& r matches Ok(grid)
                &&& grid.wf()
                &&& grid.width == width
                &&& grid.height == height
                &&& grid.cell_size == cell_size
                &&& grid.total_emotion_intensity == 0
                &&& grid@ == vacant_grid(width as nat, height as nat)
            },
    {
        if width == 0 {
            return Err(ConfigError::ZeroWidth);
        }
        if height == 0 {
            return Err(ConfigError::ZeroHeight);
        }
        if cell_size == 0 {
            return Err(ConfigError::ZeroCellSize);
        }
        proof {
            lemma_product_fits(width as u64, height as u64);
            lemma_product_fits(width as u64, cell_size);
            lemma_product_fits(height as u64, cell_size);
        }
        let area: u128 = (width as u128) * (height as u128);
        let across: u128 = (width as u128) * (cell_size as u128);
        let down: u128 = (height as u128) * (cell_size as u128);
        if width > i32::MAX as usize || height > i32::MAX as usize || area > u32::MAX as u128
            || across > i64::MAX as u128 || down > i64::MAX as u128 {
            return Err(ConfigError::TooLarge);
        }
        Ok(Grid::new(width, height, cell_size))
    }

    /// The cell at `(x, y)`, if the grid has one.
    pub fn get_cell(&self, x: usize, y: usize) -> (cell: Option<&Cell>)
        ensures
            cell is Some <==> inside(self@, x as int, y as int),
            cell matches Some(c) ==> c@ == self@[y as int][x as int] && *c
                == self.cells@[y as int]@[x as int],
    {
        if y < self.cells.len() && x < self.cells[y].len() {
            Some(&self.cells[y][x])
        } else {
            None
        }
    }

    /// The cell at `(x, y)`, to be changed in place, if the grid has one.
    /// What the caller makes of the cell becomes the cell of the grid.
    pub fn get_cell_mut(&mut self, x: usize, y: usize) -> (cell: Option<&mut Cell>)
        ensures
            cell is Some <==> inside(old(self)@, x as int, y as int),
            cell is None ==> *final(self) == *old(self),
            cell matches Some(c) ==> {
                &&& *c == old(self).cells@[y as int]@[x as int]
                &&& final(self).width == old(self).width
                &&& final(self).height == old(self).height
                &&& final(self).cell_size == old(self).cell_size
                &&& final(self).total_emotion_intensity == old(self).total_emotion_intensity
                &&& final(self).cells@.len() == old(self).cells@.len()
                &&& final(self).cells@ == old(self).cells@.update(
                    y as int,
                    final(self).cells@[y as int],
                )
                &&& final(self).cells@[y as int]@ == old(self).cells@[y as int]@.update(
                    x as int,
                    *final(c),
                )
            },
    {
        if y < self.cells.len() && x < self.cells[y].len() {
            Some(&mut self.cells[y][x])
        } else {
            None
        }
    }

    /// The cell that holds a position of the world, with both indices moved
    /// into the range of `usize`: a negative coordinate gives index zero. The
    /// cell need not be one of the grid.
    pub fn world_to_grid(&self, pos: Position) -> (at: (usize, usize))
        requires
            0 < self.cell_size,
        ensures
            at.0 == clamped_index(pos.x as int, self.cell_size as int),
            at.1 == clamped_index(pos.y as int, self.cell_size as int),
    {
        (index_of(pos.x, self.cell_size), index_of(pos.y, self.cell_size))
    }

    /// The centre of the cell `(x, y)` in the world.
    pub fn grid_to_world(&self, x: usize, y: usize) -> (pos: Position)
        requires
            self.wf(),
            x < self.width,
            y < self.height,
        ensures
            pos.x == x * self.cell_size + self.cell_size / 2,
            pos.y == y * self.cell_size + self.cell_size / 2,
    {
        proof {
            let (w, h, cs) = (self.width as int, self.height as int, self.cell_size as int);
            assert(0 <= x * cs && x * cs + cs <= w * cs) by (nonlinear_arith)
                requires
                    0 <= x < w,
                    0 < cs,
            ;
            assert(0 <= y * cs && y * cs + cs <= h * cs) by (nonlinear_arith)
                requires
                    0 <= y < h,
                    0 < cs,
            ;
        }
        let half = self.cell_size / 2;
        Position {
            x: ((x as u64) * self.cell_size + half) as i64,
            y: ((y as u64) * self.cell_size + half) as i64,
        }
    }

    fn note_neighbor(&self, x: usize, y: usize, dx: i8, dy: i8, found: &mut Vec<(usize, usize)>)
        requires
            -1 <= dx <= 1,
            -1 <= dy <= 1,
        ensures
            final(found)@ == old(found)@ + neighbor(
                self.width as int,
                self.height as int,
                x as int,
                y as int,
                dx as int,
                dy as int,
            ),
    {
        let ghost before = found@;
        if self.width > 0 && self.height > 0 {
            if let Some(nx) = shift(x, dx) {
                if let Some(ny) = shift(y, dy) {
                    if nx < self.width as usize && ny < self.height as usize {
                        found.push((nx, ny));
                        return ;
                    }
                }
            }
        }
        assert(before + Seq::<(usize, usize)>::empty() =~= before);
    }

    /// Lists the cells that touch `(x, y)`.
    pub fn get_neighbors(&self, x: usize, y: usize) -> (found: Vec<(usize, usize)>)
        ensures
            found@ == neighbors(self.width as int, self.height as int, x as int, y as int),
    {
        let mut found: Vec<(usize, usize)> = Vec::new();
        assert(found@ =~= Seq::empty());
        self.note_neighbor(x, y, -1, -1, &mut found);
        self.note_neighbor(x, y, 0, -1, &mut found);
        self.note_neighbor(x, y, 1, -1, &mut found);
        self.note_neighbor(x, y, -1, 0, &mut found);
        self.note_neighbor(x, y, 1, 0, &mut found);
        self.note_neighbor(x, y, -1, 1, &mut found);
        self.note_neighbor(x, y, 0, 1, &mut found);
        self.note_neighbor(x, y, 1, 1, &mut found);
        assert(found@ =~= neighbors(self.width as int, self.height as int, x as int, y as int));
        found
    }

    /// Turns the cell at `(x, y)` into a barrier, which clears its emotions.
    /// Outside the grid nothing changes.
    pub fn add_barrier(&mut self, x: usize, y: usize)
        requires
            old(self).wf(),
        ensures
            final(self).wf(),
            final(self).width == old(self).width,
            final(self).height == old(self).height,
            final(self).cell_size == old(self).cell_size,
            final(self).total_emotion_intensity == old(self).total_emotion_intensity,
            final(self)@ == with_cell(
                old(self)@,
                x as int,
                y as int,
                old(self)@[y as int][x as int].walled(),
            ),
            bounded(old(self)@) ==> bounded(final(self)@),
    {
        let ghost before = self@;
        if y < self.cells.len() && x < self.cells[y].len() {
            assert(inside(before, x as int, y as int));
            self.cells[y][x].is_barrier = true;
            self.cells[y][x].emotions = EmotionSet::new();
            assert(self@ =~~= with_cell(
                before,
                x as int,
                y as int,
                before[y as int][x as int].walled(),
            ));
            proof {
                lemma_with_cell_keeps(before, x as int, y as int, before[y as int][x as int].walled());
            }
        } else {
            assert(!inside(before, x as int, y as int));
        }
    }

    /// Lets an emotion of the given kind join the cell that holds the world
    /// position, at full intensity. A position outside the grid or on a
    /// barrier changes nothing.
    pub fn add_emotion_source(&mut self, emotion: EmotionType, world_x: i64, world_y: i64)
        requires
            old(self).wf(),
        ensures
            final(self).wf(),
            final(self).width == old(self).width,
            final(self).height == old(self).height,
            final(self).cell_size == old(self).cell_size,
            final(self).total_emotion_intensity == old(self).total_emotion_intensity,
            ({
                let gx = cell_index(world_x as int, old(self).cell_size as int);
                let gy = cell_index(world_y as int, old(self).cell_size as int);
                if open_at(old(self)@, gx, gy) {
                    final(self)@ == with_cell(
                        old(self)@,
                        gx,
                        gy,
                        CellData {
                            emotions: merged(
                                old(self)@[gy][gx].emotions,
                                EmotionData::fresh(emotion@, UNIT),
                            ),
                            ..old(self)@[gy][gx]
                        },
                    )
                } else {
                    final(self)@ == old(self)@
                }
            }),
            bounded(old(self)@) ==> bounded(final(self)@),
    {
        proof {
            let cs = self.cell_size as int;
            if world_x < 0 {
                assert((world_x as int) / cs < 0) by (nonlinear_arith)
                    requires
                        world_x < 0,
                        cs > 0,
                ;
            }
            if world_y < 0 {
                assert((world_y as int) / cs < 0) by (nonlinear_arith)
                    requires
                        world_y < 0,
                        cs > 0,
                ;
            }
        }
        if world_x < 0 || world_y < 0 {
            return ;
        }
        let gx: u64 = (world_x as u64) / self.cell_size;
        let gy: u64 = (world_y as u64) / self.cell_size;
        if gx < self.width as u64 && gy < self.height as u64 {
            let ghost before = self@;
            let (x, y) = (gx as usize, gy as usize);
            assert(inside(before, x as int, y as int));
            if !self.cells[y][x].is_barrier {
                self.cells[y][x].emotions.add_emotion(Emotion::new(emotion, UNIT));
                let ghost cell = CellData {
                    emotions: merged(
                        before[y as int][x as int].emotions,
                        EmotionData::fresh(emotion@, UNIT),
                    ),
                    ..before[y as int][x as int]
                };
                assert(self@ =~~= with_cell(before, x as int, y as int, cell));
                proof {
                    lemma_with_cell_keeps(before, x as int, y as int, cell);
                }
            }
        }
    }

    /// Empties every cell of entities.
    pub fn clear_entity_positions(&mut self)
        requires
            old(self).wf(),
        ensures
            final(self).wf(),
            final(self).width == old(self).width,
            final(self).height == old(self).height,
            final(self).cell_size == old(self).cell_size,
            final(self).total_emotion_intensity == old(self).total_emotion_intensity,
            final(self)@ == lodged(old(self)@, Seq::empty(), old(self).cell_size as int),
    {
        let ghost before = self@;
        let ghost cs = self.cell_size as int;
        let mut y: usize = 0;
        while y < self.cells.len()
            invariant
                y <= self.cells@.len(),
                self.width == old(self).width,
                self.height == old(self).height,
                self.cell_size == old(self).cell_size,
                self.total_emotion_intensity == old(self).total_emotion_intensity,
                before == old(self)@,
                self@.len() == before.len(),
                forall|j: int| 0 <= j < before.len() ==> (#[trigger] self@[j]).len() == before[j].len(),
                forall|i: int, j: int|
                    0 <= j < y && 0 <= i < before[j].len() ==> (#[trigger] self@[j][i])
                        == (CellData { entities: Seq::empty(), ..before[j][i] }),
                forall|i: int, j: int|
                    y <= j < before.len() && 0 <= i < before[j].len() ==> (#[trigger] self@[j][i])
                        == before[j][i],
            decreases self.cells@.len() - y,
        {
            let mut x: usize = 0;
            while x < self.cells[y].len()
                invariant
                    y < self.cells@.len(),
                    x <= self.cells@[y as int]@.len(),
                    self.width == old(self).width,
                    self.height == old(self).height,
                    self.cell_size == old(self).cell_size,
                    self.total_emotion_intensity == old(self).total_emotion_intensity,
                    before == old(self)@,
                    self@.len() == before.len(),
                    forall|j: int|
                        0 <= j < before.len() ==> (#[trigger] self@[j]).len() == before[j].len(),
                    forall|i: int, j: int|
                        (0 <= j < y && 0 <= i < before[j].len()) || (j == y && 0 <= i < x) ==> (
                        #[trigger] self@[j][i]) == (CellData {
                            entities: Seq::empty(),
                            ..before[j][i]
                        }),
                    forall|i: int, j: int|
                        (y < j < before.len() && 0 <= i < before[j].len()) || (j == y && x <= i
                            < before[j].len()) ==> (#[trigger] self@[j][i]) == before[j][i],
                decreases self.cells@[y as int]@.len() - x,
            {
                let ghost mid = self@;
                assert(mid[y as int].len() == before[y as int].len());
                self.cells[y][x].entities = Vec::new();
                proof {
                    assert(self@ =~~= with_cell(
                        mid,
                        x as int,
                        y as int,
                        CellData { entities: Seq::empty(), ..mid[y as int][x as int] },
                    ));
                }
                x += 1;
            }
            y += 1;
        }
        assert(self@ =~~= lodged(before, Seq::empty(), cs));
        proof {
            assert(self.cells@.len() == self@.len());
            assert forall|j: int| 0 <= j < self.height implies (#[trigger] self.cells@[j])@.len()
                == self.width by {
                assert(self@[j].len() == self.cells@[j]@.len());
                assert(before[j].len() == old(self).cells@[j]@.len());
            }
            assert forall|x: int, y: int| #[trigger] inside(self@, x, y) implies {
                &&& self@[y][x].x == x
                &&& self@[y][x].y == y
                &&& distinct(self@[y][x].emotions)
                &&& self@[y][x].is_barrier ==> self@[y][x].emotions.len() == 0
            } by {
                assert(inside(before, x, y));
            }
        }
    }

    /// Notes the entity in the cell that holds its position, whether it is
    /// visible or not. An entity outside the grid is noted nowhere.
    pub fn add_entity_to_cell(&mut self, entity: &Entity)
        requires
            old(self).wf(),
        ensures
            final(self).wf(),
            final(self).width == old(self).width,
            final(self).height == old(self).height,
            final(self).cell_size == old(self).cell_size,
            final(self).total_emotion_intensity == old(self).total_emotion_intensity,
            ({
                let gx = clamped_index(entity.position.x as int, old(self).cell_size as int);
                let gy = clamped_index(entity.position.y as int, old(self).cell_size as int);
                final(self)@ == with_cell(
                    old(self)@,
                    gx,
                    gy,
                    CellData {
                        entities: with_id(old(self)@[gy][gx].entities, entity.id),
                        ..old(self)@[gy][gx]
                    },
                )
            }),
    {
        let ghost before = self@;
        let (x, y) = self.world_to_grid(entity.position);
        if y < self.cells.len() && x < self.cells[y].len() {
            assert(inside(before, x as int, y as int));
            self.cells[y][x].add_entity(entity.id);
            let ghost cell = CellData {
                entities: with_id(before[y as int][x as int].entities, entity.id),
                ..before[y as int][x as int]
            };
            assert(self@ =~~= with_cell(before, x as int, y as int, cell));
            proof {
                lemma_with_cell_keeps(before, x as int, y as int, cell);
            }
        } else {
            assert(!inside(before, x as int, y as int));
        }
    }

    fn rest(&self, delta_time: u64) -> (rested: Vec<Vec<EmotionSet>>)
        requires
            self.wf(),
        ensures
            rested_from(rested@, self@, delta_time),
    {
        let ghost cells = self@;
        let mut rested: Vec<Vec<EmotionSet>> = Vec::new();
        let mut y: usize = 0;
        while y < self.cells.len()
            invariant
                self.wf(),
                cells == self@,
                y <= self.cells@.len(),
                rested@.len() == y,
                forall|j: int| 0 <= j < y ==> (#[trigger] rested@[j])@.len() == cells[j].len(),
                forall|i: int, j: int|
                    0 <= j < y && 0 <= i < cells[j].len() ==> {
                        &&& (#[trigger] rested@[j]@[i])@ == faded(cells[j][i].emotions, delta_time)
                        &&& rested@[j]@[i].wf()
                        &&& rested@[j]@[i].total_capacity == cells[j][i].total_capacity
                        &&& all_bounded(cells[j][i].emotions) ==> all_bounded(rested@[j]@[i]@)
                    },
            decreases self.cells@.len() - y,
        {
            let mut row: Vec<EmotionSet> = Vec::new();
            let mut x: usize = 0;
            while x < self.cells[y].len()
                invariant
                    self.wf(),
                    cells == self@,
                    y < self.cells@.len(),
                    x <= self.cells@[y as int]@.len(),
                    row@.len() == x,
                    forall|i: int|
                        0 <= i < x ==> {
                            &&& (#[trigger] row@[i])@ == faded(
                                cells[y as int][i].emotions,
                                delta_time,
                            )
                            &&& row@[i].wf()
                            &&& row@[i].total_capacity == cells[y as int][i].total_capacity
                            &&& all_bounded(cells[y as int][i].emotions) ==> all_bounded(row@[i]@)
                        },
                decreases self.cells@[y as int]@.len() - x,
            {
                assert(inside(cells, x as int, y as int));
                let mut set = self.cells[y][x].emotions.clone();
                set.update(delta_time);
                row.push(set);
                x += 1;
            }
            rested.push(row);
            y += 1;
        }
        rested
    }

    fn draw(
        &self,
        rested: &Vec<Vec<EmotionSet>>,
        into: &mut EmotionSet,
        x: usize,
        y: usize,
        dx: i8,
        dy: i8,
        Ghost(delta_time): Ghost<u64>,
    )
        requires
            rested_from(rested@, self@, delta_time),
            old(into).wf(),
            -1 <= dx <= 1,
            -1 <= dy <= 1,
        ensures
            final(into).wf(),
            final(into).total_capacity == old(into).total_capacity,
            final(into)@ == taken_from(
                self@,
                old(into)@,
                x as int,
                y as int,
                dx as int,
                dy as int,
                delta_time,
            ),
            all_bounded(old(into)@) ==> all_bounded(final(into)@),
    {
        let rows = self.cells.len();
        let ny = match shift(y, dy) {
            Some(ny) => ny,
            None => {
                return ;
            },
        };
        if ny >= rows {
            return ;
        }
        let cols = self.cells[ny].len();
        let nx = match shift(x, dx) {
            Some(nx) => nx,
            None => {
                return ;
            },
        };
        if nx >= cols {
            return ;
        }
        assert(inside(self@, nx as int, ny as int));
        if self.cells[ny][nx].is_barrier {
            return ;
        }
        let across: u64 = if dx == 0 {
            0
        } else {
            UNIT
        };
        let down: u64 = if dy == 0 {
            0
        } else {
            UNIT
        };
        let length = distance(across, down);
        let _ = into.absorb(&rested[ny][nx], length, NOTABLE);
    }

    fn spread(&self, rested: &Vec<Vec<EmotionSet>>, Ghost(delta_time): Ghost<u64>) -> (next: Vec<
        Vec<EmotionSet>,
    >)
        requires
            self.wf(),
            rested_from(rested@, self@, delta_time),
        ensures
            ready_for(next@, self@, delta_time),
    {
        let ghost cells = self@;
        let mut next: Vec<Vec<EmotionSet>> = Vec::new();
        let mut y: usize = 0;
        while y < self.cells.len()
            invariant
                self.wf(),
                cells == self@,
                rested_from(rested@, cells, delta_time),
                y <= self.cells@.len(),
                next@.len() == y,
                forall|j: int| 0 <= j < y ==> (#[trigger] next@[j])@.len() == cells[j].len(),
                forall|i: int, j: int|
                    0 <= j < y && 0 <= i < cells[j].len() ==> {
                        &&& (#[trigger] next@[j]@[i])@ == next_emotions(cells, i, j, delta_time)
                        &&& next@[j]@[i].wf()
                        &&& next@[j]@[i].total_capacity == cells[j][i].total_capacity
                        &&& all_bounded(cells[j][i].emotions) && bounded(cells) ==> all_bounded(
                            next@[j]@[i]@,
                        )
                    },
            decreases self.cells@.len() - y,
        {
            let mut row: Vec<EmotionSet> = Vec::new();
            let mut x: usize = 0;
            while x < self.cells[y].len()
                invariant
                    self.wf(),
                    cells == self@,
                    rested_from(rested@, cells, delta_time),
                    y < self.cells@.len(),
                    x <= self.cells@[y as int]@.len(),
                    row@.len() == x,
                    forall|i: int|
                        0 <= i < x ==> {
                            &&& (#[trigger] row@[i])@ == next_emotions(
                                cells,
                                i,
                                y as int,
                                delta_time,
                            )
                            &&& row@[i].wf()
                            &&& row@[i].total_capacity == cells[y as int][i].total_capacity
                            &&& all_bounded(cells[y as int][i].emotions) && bounded(cells)
                                ==> all_bounded(row@[i]@)
                        },
                decreases self.cells@[y as int]@.len() - x,
            {
                assert(inside(cells, x as int, y as int));
                let mut set = rested[y][x].clone();
                if !self.cells[y][x].is_barrier {
                    self.draw(rested, &mut set, x, y, -1, -1, Ghost(delta_time));
                    self.draw(rested, &mut set, x, y, 0, -1, Ghost(delta_time));
                    self.draw(rested, &mut set, x, y, 1, -1, Ghost(delta_time));
                    self.draw(rested, &mut set, x, y, -1, 0, Ghost(delta_time));
                    self.draw(rested, &mut set, x, y, 1, 0, Ghost(delta_time));
                    self.draw(rested, &mut set, x, y, -1, 1, Ghost(delta_time));
                    self.draw(rested, &mut set, x, y, 0, 1, Ghost(delta_time));
                    self.draw(rested, &mut set, x, y, 1, 1, Ghost(delta_time));
                }
                proof {
                    if all_bounded(set@) {
                        lemma_calm_set_is_settled(set@);
                    }
                }
                set.apply_emotional_interactions();
                row.push(set);
                x += 1;
            }
            next.push(row);
            y += 1;
        }
        next
    }

    fn install(&mut self, next: &Vec<Vec<EmotionSet>>, Ghost(delta_time): Ghost<u64>)
        requires
            old(self).wf(),
            ready_for(next@, old(self)@, delta_time),
        ensures
            final(self).wf(),
            final(self).width == old(self).width,
            final(self).height == old(self).height,
            final(self).cell_size == old(self).cell_size,
            final(self).total_emotion_intensity == old(self).total_emotion_intensity,
            final(self)@ == step(old(self)@, delta_time),
            bounded(old(self)@) ==> bounded(final(self)@),
    {
        let ghost before = self@;
        let mut y: usize = 0;
        while y < self.cells.len()
            invariant
                y <= self.cells@.len(),
                self.width == old(self).width,
                self.height == old(self).height,
                self.cell_size == old(self).cell_size,
                self.total_emotion_intensity == old(self).total_emotion_intensity,
                before == old(self)@,
                ready_for(next@, before, delta_time),
                self@.len() == before.len(),
                forall|j: int| 0 <= j < before.len() ==> (#[trigger] self@[j]).len() == before[j].len(),
                forall|i: int, j: int|
                    0 <= j < y && 0 <= i < before[j].len() ==> (#[trigger] self@[j][i])
                        == next_cell(before, i, j, delta_time),
                forall|i: int, j: int|
                    y <= j < before.len() && 0 <= i < before[j].len() ==> (#[trigger] self@[j][i])
                        == before[j][i],
            decreases self.cells@.len() - y,
        {
            let mut x: usize = 0;
            while x < self.cells[y].len()
                invariant
                    y < self.cells@.len(),
                    x <= self.cells@[y as int]@.len(),
                    self.width == old(self).width,
                    self.height == old(self).height,
                    self.cell_size == old(self).cell_size,
                    self.total_emotion_intensity == old(self).total_emotion_intensity,
                    before == old(self)@,
                    ready_for(next@, before, delta_time),
                    self@.len() == before.len(),
                    forall|j: int|
                        0 <= j < before.len() ==> (#[trigger] self@[j]).len() == before[j].len(),
                    forall|i: int, j: int|
                        (0 <= j < y && 0 <= i < before[j].len()) || (j == y && 0 <= i < x) ==> (
                        #[trigger] self@[j][i]) == next_cell(before, i, j, delta_time),
                    forall|i: int, j: int|
                        (y < j < before.len() && 0 <= i < before[j].len()) || (j == y && x <= i
                            < before[j].len()) ==> (#[trigger] self@[j][i]) == before[j][i],
                decreases self.cells@[y as int]@.len() - x,
            {
                let ghost mid = self@;
                assert(mid[y as int].len() == before[y as int].len());
                assert(inside(before, x as int, y as int));
                assert(mid[y as int][x as int] == before[y as int][x as int]);
                assert(mid[y as int][x as int] == self.cells@[y as int]@[x as int]@);
                let set = next[y][x].clone();
                assert(set@ == next_emotions(before, x as int, y as int, delta_time));
                assert(set.total_capacity == before[y as int][x as int].total_capacity);
                self.cells[y][x].emotions = set;
                proof {
                    assert(self.cells@[y as int]@[x as int]@ == next_cell(
                        before,
                        x as int,
                        y as int,
                        delta_time,
                    ));
                    assert(self@ =~~= with_cell(
                        mid,
                        x as int,
                        y as int,
                        next_cell(before, x as int, y as int, delta_time),
                    ));
                }
                x += 1;
            }
            y += 1;
        }
        assert(self@ =~~= step(before, delta_time));
        proof {
            assert(self.cells@.len() == self@.len());
            assert forall|j: int| 0 <= j < self.height implies (#[trigger] self.cells@[j])@.len()
                == self.width by {
                assert(self@[j].len() == self.cells@[j]@.len());
                assert(before[j].len() == old(self).cells@[j]@.len());
            }
            assert forall|x: int, y: int| #[trigger] inside(self@, x, y) implies {
                &&& self@[y][x].x == x
                &&& self@[y][x].y == y
                &&& distinct(self@[y][x].emotions)
                &&& self@[y][x].is_barrier ==> self@[y][x].emotions.len() == 0
            } by {
                assert(inside(before, x, y));
                if before[y][x].is_barrier {
                    lemma_barrier_is_inert(before, x, y, delta_time);
                }
            }
            if bounded(before) {
                assert forall|x: int, y: int| #[trigger] inside(self@, x, y) implies all_bounded(
                    self@[y][x].emotions,
                ) by {
                    assert(inside(before, x, y));
                }
            }
        }
    }

    fn update_emotion_stats(&mut self)
        ensures
            final(self).total_emotion_intensity == saturated(grid_total(old(self)@) as int),
            final(self).cells == old(self).cells,
            final(self).width == old(self).width,
            final(self).height == old(self).height,
            final(self).cell_size == old(self).cell_size,
    {
        let ghost cells = self@;
        let mut sum: u64 = 0;
        let mut y: usize = 0;
        while y < self.cells.len()
            invariant
                *self == *old(self),
                cells == self@,
                y <= self.cells@.len(),
                sum == saturated(rows_total(cells, y as nat) as int),
            decreases self.cells@.len() - y,
        {
            let mut x: usize = 0;
            while x < self.cells[y].len()
                invariant
                    *self == *old(self),
                    cells == self@,
                    y < self.cells@.len(),
                    x <= self.cells@[y as int]@.len(),
                    sum == saturated(
                        (rows_total(cells, y as nat) + row_total(cells, y as int, x as nat)) as int,
                    ),
                decreases self.cells@[y as int]@.len() - x,
            {
                let held = self.cells[y][x].emotions.total_intensity();
                sum = add_capped(sum, held, u64::MAX);
                x += 1;
            }
            y += 1;
        }
        self.total_emotion_intensity = sum;
    }

    /// Advances the grid by a tick of `delta_time`: in every cell the
    /// emotions fade, every cell that is no barrier takes what the cells
    /// around it pass on, and the emotions of each cell then act on one
    /// another. Every cell is computed from the grid before the tick. A grid
    /// within bounds stays so.
    pub fn update(&mut self, delta_time: u64)
        requires
            old(self).wf(),
        ensures
            final(self).wf(),
            final(self).width == old(self).width,
            final(self).height == old(self).height,
            final(self).cell_size == old(self).cell_size,
            final(self)@ == step(old(self)@, delta_time),
            final(self).total_emotion_intensity == saturated(grid_total(final(self)@) as int),
            bounded(old(self)@) ==> bounded(final(self)@),
    {
        let rested = self.rest(delta_time);
        let next = self.spread(&rested, Ghost(delta_time));
        self.install(&next, Ghost(delta_time));
        self.update_emotion_stats();
    }

    /// Notes in every cell the visible entities that stand in it, and nobody
    /// else.
    pub fn update_entity_positions(&mut self, entities: &Vec<Entity>)
        requires
            old(self).wf(),
        ensures
            final(self).wf(),
            final(self).width == old(self).width,
            final(self).height == old(self).height,
            final(self).cell_size == old(self).cell_size,
            final(self).total_emotion_intensity == old(self).total_emotion_intensity,
            final(self)@ == lodged(old(self)@, entities@, old(self).cell_size as int),
    {
        let ghost before = self@;
        let ghost cs = self.cell_size as int;
        self.clear_entity_positions();
        assert(entities@.take(0) =~= Seq::empty());
        let mut i: usize = 0;
        while i < entities.len()
            invariant
                i <= entities@.len(),
                self.wf(),
                self.width == old(self).width,
                self.height == old(self).height,
                self.cell_size == old(self).cell_size,
                cs == self.cell_size,
                self.total_emotion_intensity == old(self).total_emotion_intensity,
                before.len() == self.height,
                forall|j: int| 0 <= j < before.len() ==> (#[trigger] before[j]).len() == self.width,
                self@ == lodged(before, entities@.take(i as int), cs),
            decreases entities@.len() - i,
        {
            let entity = &entities[i];
            let ghost mid = self@;
            proof {
                assert(entities@.take(i + 1).drop_last() =~= entities@.take(i as int));
                assert(entities@.take(i + 1).last() == *entity);
            }
            if entity.is_visible {
                let (x, y) = self.world_to_grid(entity.position);
                if x < self.width as usize && y < self.height as usize {
                    self.add_entity_to_cell(entity);
                }
            }
            assert(self@ =~~= lodged(before, entities@.take(i + 1), cs));
            i += 1;
        }
        assert(entities@.take(i as int) =~= entities@);
    }

    /// Builds the walls of a maze. Cells that are barriers stay so.
    pub fn create_maze_pattern(&mut self)
        requires
            old(self).wf(),
        ensures
            final(self).wf(),
            final(self).width == old(self).width,
            final(self).height == old(self).height,
            final(self).cell_size == old(self).cell_size,
            final(self).total_emotion_intensity == old(self).total_emotion_intensity,
            final(self)@ == mazed(old(self)@, old(self).width as int, old(self).height as int),
            bounded(old(self)@) ==> bounded(final(self)@),
    {
        let ghost before = self@;
        let ghost w = self.width as int;
        let ghost h = self.height as int;
        let width = self.width as usize;
        let height = self.height as usize;
        let mut y: usize = 0;
        while y < height
            invariant
                y <= height,
                width == w,
                height == h,
                self.wf(),
                self.width == old(self).width,
                self.height == old(self).height,
                w == self.width,
                h == self.height,
                self.cell_size == old(self).cell_size,
                self.total_emotion_intensity == old(self).total_emotion_intensity,
                before == old(self)@,
                before.len() == h,
                forall|j: int| 0 <= j < h ==> (#[trigger] before[j]).len() == w,
                bounded(before) ==> bounded(self@),
                forall|i: int, j: int|
                    0 <= j < y && 0 <= i < w ==> (#[trigger] self@[j][i]) == mazed(
                        before,
                        w,
                        h,
                    )[j][i],
                forall|i: int, j: int|
                    y <= j < h && 0 <= i < w ==> (#[trigger] self@[j][i]) == before[j][i],
            decreases height - y,
        {
            let mut x: usize = 0;
            while x < width
                invariant
                    y < height,
                    x <= width,
                    width == w,
                    height == h,
                    self.wf(),
                    self.width == old(self).width,
                    self.height == old(self).height,
                    w == self.width,
                    h == self.height,
                    self.cell_size == old(self).cell_size,
                    self.total_emotion_intensity == old(self).total_emotion_intensity,
                    before == old(self)@,
                    before.len() == h,
                    forall|j: int| 0 <= j < h ==> (#[trigger] before[j]).len() == w,
                    bounded(before) ==> bounded(self@),
                    forall|i: int, j: int|
                        (0 <= j < y && 0 <= i < w) || (j == y && 0 <= i < x) ==> (
                        #[trigger] self@[j][i]) == mazed(before, w, h)[j][i],
                    forall|i: int, j: int|
                        (y < j < h && 0 <= i < w) || (j == y && x <= i < w) ==> (
                        #[trigger] self@[j][i]) == before[j][i],
                decreases width - x,
            {
                let walled = x >= 2 && y >= 2 && x + 2 < width && y + 2 < height && (((y - 2) % 4
                    == 0 && x % 8 != 0) || ((x - 2) % 6 == 0 && y % 6 != 0));
                assert(walled == in_wall(x as int, y as int, w, h));
                assert(inside(self@, x as int, y as int));
                if walled {
                    self.add_barrier(x, y);
                }
                x += 1;
            }
            y += 1;
        }
        assert(self@ =~~= mazed(before, w, h));
    }

    /// Counts the cells that hold an emotion to speak of.
    pub fn get_active_cell_count(&self) -> (count: usize)
        requires
            self.wf(),
        ensures
            count == active_cells(self@),
    {
        let ghost cells = self@;
        let ghost w = self.width as int;
        let mut count: usize = 0;
        let mut y: usize = 0;
        while y < self.cells.len()
            invariant
                self.wf(),
                cells == self@,
                w == self.width,
                y <= self.cells@.len(),
                count == rows_active(cells, y as nat),
                count <= y * w,
            decreases self.cells@.len() - y,
        {
            assert(cells[y as int].len() == w);
            let mut x: usize = 0;
            while x < self.cells[y].len()
                invariant
                    self.wf(),
                    cells == self@,
                    w == self.width,
                    y < self.cells@.len(),
                    x <= self.cells@[y as int]@.len(),
                    cells[y as int].len() == w,
                    count == rows_active(cells, y as nat) + row_active(cells, y as int, x as nat),
                    count <= y * w + x,
                decreases self.cells@[y as int]@.len() - x,
            {
                proof {
                    let h = self.height as int;
                    assert(y * w + x < w * h && (y + 1) * w == y * w + w) by (nonlinear_arith)
                        requires
                            0 <= x < w,
                            0 <= y < h,
                    ;
                }
                if self.cells[y][x].emotions.get_total_intensity() > FAINT {
                    count += 1;
                }
                x += 1;
            }
            proof {
                let h = self.height as int;
                assert((y + 1) * w == y * w + w) by (nonlinear_arith);
            }
            y += 1;
        }
        count
    }

    /// The sum of the intensities of one kind over all cells, cut off at the
    /// largest `u64`.
    pub fn get_kind_intensity(&self, emotion_type: &EmotionType) -> (sum: u64)
        requires
            self.wf(),
        ensures
            sum == saturated(kind_total(self@, emotion_type@) as int),
    {
        let ghost cells = self@;
        let mut sum: u64 = 0;
        let mut y: usize = 0;
        while y < self.cells.len()
            invariant
                self.wf(),
                cells == self@,
                y <= self.cells@.len(),
                sum == saturated(rows_kind_total(cells, emotion_type@, y as nat) as int),
            decreases self.cells@.len() - y,
        {
            let mut x: usize = 0;
            while x < self.cells[y].len()
                invariant
                    self.wf(),
                    cells == self@,
                    y < self.cells@.len(),
                    x <= self.cells@[y as int]@.len(),
                    sum == saturated(
                        (rows_kind_total(cells, emotion_type@, y as nat) + row_kind_total(
                            cells,
                            emotion_type@,
                            y as int,
                            x as nat,
                        )) as int,
                    ),
                decreases self.cells@[y as int]@.len() - x,
            {
                assert(inside(cells, x as int, y as int));
                let held = self.cells[y][x].emotions.get_intensity(emotion_type);
                sum = add_capped(sum, held, u64::MAX);
                x += 1;
            }
            y += 1;
        }
        sum
    }

    /// The sum of all intensities as of the last tick.
    pub fn get_total_emotion_intensity(&self) -> (sum: u64)
        ensures
            sum == self.total_emotion_intensity,
    {
        self.total_emotion_intensity
    }
}

/// Replacing a cell by one that is sound in the same place keeps the grid
/// sound, and within bounds where the new cell is.
proof fn lemma_with_cell_keeps(cells: Seq<Seq<CellData>>, x: int, y: int, cell: CellData)
    requires
        sound(cells),
        inside(cells, x, y),
        cell.x == cells[y][x].x,
        cell.y == cells[y][x].y,
        distinct(cell.emotions),
        cell.is_barrier ==> cell.emotions.len() == 0,
    ensures
        sound(with_cell(cells, x, y, cell)),
        with_cell(cells, x, y, cell).len() == cells.len(),
        forall|j: int| 0 <= j < cells.len() ==> (#[trigger] with_cell(cells, x, y, cell)[j]).len() == cells[j].len(),
        bounded(cells) && all_bounded(cell.emotions) ==> bounded(with_cell(cells, x, y, cell)),
{
    let after = with_cell(cells, x, y, cell);
    assert forall|i: int, j: int| #[trigger] inside(after, i, j) implies {
        &&& after[j][i].x == i
        &&& after[j][i].y == j
        &&& distinct(after[j][i].emotions)
        &&& after[j][i].is_barrier ==> after[j][i].emotions.len() == 0
    } by {
        assert(inside(cells, i, j));
    }
    if bounded(cells) && all_bounded(cell.emotions) {
        assert forall|i: int, j: int| #[trigger] inside(after, i, j) implies all_bounded(
            after[j][i].emotions,
        ) by {
            assert(inside(cells, i, j));
        }
    }
}

} // verus!
