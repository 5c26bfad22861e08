//! The grid of the single-emotion automaton and its synchronous tick.

use crate::config::ConfigError;
use crate::fixed::{add_capped, fraction, least, lemma_product_fits, ratio, saturated, UNIT};
use crate::life::emotions::{EmotionCell, EmotionType, GridStats, SIGNIFICANT};
use crate::moore::shift;
use crate::random::{below, flip};
use crate::world::{cell_index, fits};
use rand::rngs::StdRng;
use vstd::prelude::*;

verus! {

/// The cell at column `x` of row `y`; outside the grid, the dead empty cell.
pub open spec fn cell_at(cells: Seq<Seq<EmotionCell>>, x: int, y: int) -> EmotionCell {
    if 0 <= y < cells.len() && 0 <= x < cells[y].len() {
        cells[y][x]
    } else {
        EmotionCell::empty()
    }
}

/// One where the cell at `(x, y)` is alive, zero elsewhere and outside the grid.
pub open spec fn lives(cells: Seq<Seq<EmotionCell>>, x: int, y: int) -> nat {
    if cell_at(cells, x, y).alive {
        1
    } else {
        0
    }
}

/// The number of live cells among the eight cells that touch `(x, y)`. The
/// grid does not wrap around.
pub open spec fn live_neighbors(cells: Seq<Seq<EmotionCell>>, x: int, y: int) -> nat {
    lives(cells, x - 1, y - 1) + lives(cells, x, y - 1) + lives(cells, x + 1, y - 1) + lives(
        cells,
        x - 1,
        y,
    ) + lives(cells, x + 1, y) + lives(cells, x - 1, y + 1) + lives(cells, x, y + 1) + lives(
        cells,
        x + 1,
        y + 1,
    )
}

/// What a cell offers its neighbours: its emotion and intensity where it is
/// alive and the intensity is significant, nothing otherwise.
pub open spec fn offered(cell: EmotionCell) -> Seq<(EmotionType, u64)> {
    if cell.expressive() {
        seq![(cell.emotion->0, cell.intensity)]
    } else {
        Seq::empty()
    }
}

/// What the eight cells that touch `(x, y)` offer, row by row from the top,
/// each row from the left.
pub open spec fn neighbor_emotions(cells: Seq<Seq<EmotionCell>>, x: int, y: int) -> Seq<
    (EmotionType, u64),
> {
    offered(cell_at(cells, x - 1, y - 1)) + offered(cell_at(cells, x, y - 1)) + offered(
        cell_at(cells, x + 1, y - 1),
    ) + offered(cell_at(cells, x - 1, y)) + offered(cell_at(cells, x + 1, y)) + offered(
        cell_at(cells, x - 1, y + 1),
    ) + offered(cell_at(cells, x, y + 1)) + offered(cell_at(cells, x + 1, y + 1))
}

/// The summed intensity of the entries of `s` that carry `kind`.
pub open spec fn kind_sum(s: Seq<(EmotionType, u64)>, kind: EmotionType) -> nat
    decreases s.len(),
{
    if s.len() == 0 {
        0
    } else {
        kind_sum(s.drop_last(), kind) + if s.last().0 == kind {
            s.last().1 as nat
        } else {
            0
        }
    }
}

/// The summed intensity of `kind` in `s`, cut off at the largest `u64`.
pub open spec fn kind_total(s: Seq<(EmotionType, u64)>, kind: EmotionType) -> int {
    saturated(kind_sum(s, kind) as int)
}

/// Some entry of `s` carries `kind`.
pub open spec fn mentions(s: Seq<(EmotionType, u64)>, kind: EmotionType) -> bool {
    exists|i: int| 0 <= i < s.len() && (#[trigger] s[i]).0 == kind
}

/// `kind` has a larger total in `s` than `other`, or the same total and a
/// place in the catalogue that is not later.
pub open spec fn outranks(s: Seq<(EmotionType, u64)>, kind: EmotionType, other: EmotionType) -> bool {
    kind_total(s, other) < kind_total(s, kind) || (kind_total(s, other) == kind_total(s, kind)
        && kind.rank() <= other.rank())
}

/// `kind` is the dominant emotion of `s` and `total` its summed intensity:
/// no emotion that `s` mentions has a larger total, and among those with the
/// same total `kind` comes first in the catalogue.
pub open spec fn is_dominant(s: Seq<(EmotionType, u64)>, kind: EmotionType, total: u64) -> bool {
    &&& mentions(s, kind)
    &&& total == kind_total(s, kind)
    &&& forall|other: EmotionType| #[trigger] mentions(s, other) ==> outranks(s, kind, other)
}

/// The dominant emotion of a non-empty `s`, with its total.
pub open spec fn dominant_of(s: Seq<(EmotionType, u64)>) -> (EmotionType, u64) {
    choose|p: (EmotionType, u64)| is_dominant(s, p.0, p.1)
}

/// Any list has at most one dominant emotion: the choice between emotions of
/// equal total is fixed by the catalogue and does not vary from run to run.
pub proof fn lemma_dominant_is_unique(
    s: Seq<(EmotionType, u64)>,
    first: (EmotionType, u64),
    second: (EmotionType, u64),
)
    requires
        is_dominant(s, first.0, first.1),
        is_dominant(s, second.0, second.1),
    ensures
        first == second,
{
    assert(outranks(s, first.0, second.0));
    assert(outranks(s, second.0, first.0));
    assert(first.0.rank() == second.0.rank());
}

/// Conway's rule: a live cell stays alive with two or three live neighbours,
/// a dead cell comes alive with exactly three.
pub open spec fn next_alive(alive: bool, neighbors: nat) -> bool {
    if alive {
        2 <= neighbors <= 3
    } else {
        neighbors == 3
    }
}

/// The cell at `(x, y)` is alive after the tick and some neighbour offers it
/// an emotion.
pub open spec fn receives(cells: Seq<Seq<EmotionCell>>, x: int, y: int) -> bool {
    next_alive(cell_at(cells, x, y).alive, live_neighbors(cells, x, y)) && neighbor_emotions(
        cells,
        x,
        y,
    ).len() > 0
}

/// The cell at `(x, y)` after one tick, computed from the grid before it.
///
/// Its intensity first fades to nine tenths. Where the cell is alive after the
/// tick and a neighbour offers an emotion, it takes the dominant emotion of
/// its neighbours and gains three tenths of that emotion's total, up to
/// `UNIT`. Otherwise it keeps its emotion.
pub open spec fn next_cell(cells: Seq<Seq<EmotionCell>>, x: int, y: int) -> EmotionCell {
    let current = cell_at(cells, x, y);
    let alive = next_alive(current.alive, live_neighbors(cells, x, y));
    let faded = ratio(current.intensity as int, 9, 10);
    if receives(cells, x, y) {
        let dominant = dominant_of(neighbor_emotions(cells, x, y));
        EmotionCell {
            alive,
            emotion: Some(dominant.0),
            intensity: least(faded + ratio(dominant.1 as int, 3, 10), UNIT as int) as u64,
        }
    } else {
        EmotionCell { alive, emotion: current.emotion, intensity: faded as u64 }
    }
}

/// The grid after one tick: every cell is computed from the grid before it.
pub open spec fn step(cells: Seq<Seq<EmotionCell>>) -> Seq<Seq<EmotionCell>> {
    Seq::new(cells.len(), |y: int| Seq::new(cells[y].len(), |x: int| next_cell(cells, x, y)))
}

/// A grid of `height` rows of `width` dead, empty cells.
pub open spec fn blank(width: nat, height: nat) -> Seq<Seq<EmotionCell>> {
    Seq::new(height, |y: int| Seq::new(width, |x: int| EmotionCell::empty()))
}

/// Every cell's intensity is at most `UNIT`.
pub open spec fn bounded(cells: Seq<Seq<EmotionCell>>) -> bool {
    forall|x: int, y: int|
        0 <= y < cells.len() && 0 <= x < cells[y].len() ==> (#[trigger] cells[y][x]).intensity
            <= UNIT
}

/// The grid in which the cell that holds the world position
/// `(world_x, world_y)` is replaced by a live cell carrying `emotion` at full
/// intensity. A position outside the grid leaves it as it is.
pub open spec fn with_source(
    cells: Seq<Seq<EmotionCell>>,
    emotion: EmotionType,
    world_x: int,
    world_y: int,
    cell_size: int,
) -> Seq<Seq<EmotionCell>> {
    let gx = cell_index(world_x, cell_size);
    let gy = cell_index(world_y, cell_size);
    if 0 <= gy < cells.len() && 0 <= gx < cells[gy].len() {
        cells.update(gy, cells[gy].update(gx, EmotionCell::seeded(emotion, UNIT)))
    } else {
        cells
    }
}

/// The grid after the sources have been placed one after the other.
pub open spec fn sown(
    cells: Seq<Seq<EmotionCell>>,
    sources: Seq<(EmotionType, i64, i64)>,
    cell_size: int,
) -> Seq<Seq<EmotionCell>>
    decreases sources.len(),
{
    if sources.len() == 0 {
        cells
    } else {
        with_source(
            sown(cells, sources.drop_last(), cell_size),
            sources.last().0,
            sources.last().1 as int,
            sources.last().2 as int,
            cell_size,
        )
    }
}

/// The flag at column `x` of row `y`; `false` where there is none.
pub open spec fn flag_at(alive: Seq<Seq<bool>>, x: int, y: int) -> bool {
    0 <= y < alive.len() && 0 <= x < alive[y].len() && alive[y][x]
}

/// A grid of cells without emotion, alive where the flags say so.
pub open spec fn population(alive: Seq<Seq<bool>>, width: nat, height: nat) -> Seq<
    Seq<EmotionCell>,
> {
    Seq::new(
        height,
        |y: int|
            Seq::new(
                width,
                |x: int| EmotionCell { alive: flag_at(alive, x, y), emotion: None, intensity: 0 },
            ),
    )
}

/// The rows of a table of flags, as values.
pub open spec fn flags_of(alive: Seq<Vec<bool>>) -> Seq<Seq<bool>> {
    Seq::new(alive.len(), |y: int| alive[y]@)
}

/// The number of emotion sources that a random population is given.
pub const SOURCE_COUNT: usize = 10;

/// The intensity above which a cell's emotion can tunnel: seven tenths.
pub const TUNNEL_THRESHOLD: u64 = 700_000;

/// The number of cells that are tried as the origin of a tunnelling.
pub const TUNNEL_TRIES: usize = 20;

/// The cell is alive and carries an emotion strong enough to tunnel.
pub open spec fn can_tunnel(cell: EmotionCell) -> bool {
    cell.alive && cell.emotion is Some && cell.intensity > TUNNEL_THRESHOLD
}

/// The grid after the emotion of the cell at `(sx, sy)` has tunnelled to
/// `(tx, ty)`: the target becomes a live cell with that emotion at eight
/// tenths of the origin's intensity. Where the origin's emotion cannot tunnel
/// the grid is as before.
pub open spec fn tunnelled(cells: Seq<Seq<EmotionCell>>, sx: int, sy: int, tx: int, ty: int) -> Seq<
    Seq<EmotionCell>,
> {
    let origin = cell_at(cells, sx, sy);
    if can_tunnel(origin) && 0 <= ty < cells.len() && 0 <= tx < cells[ty].len() {
        cells.update(
            ty,
            cells[ty].update(
                tx,
                EmotionCell::seeded(origin.emotion->0, ratio(origin.intensity as int, 8, 10) as u64),
            ),
        )
    } else {
        cells
    }
}

/// `tried` lists as many cells of the grid as a tunnelling tries as origins,
/// and the emotion of none of them can tunnel.
pub open spec fn futile(cells: Seq<Seq<EmotionCell>>, tried: Seq<(int, int)>) -> bool {
    &&& tried.len() == TUNNEL_TRIES
    &&& forall|i: int|
        0 <= i < tried.len() ==> {
            &&& 0 <= (#[trigger] tried[i]).1 < cells.len()
            &&& 0 <= tried[i].0 < cells[tried[i].1].len()
            &&& !can_tunnel(cells[tried[i].1][tried[i].0])
        }
}

/// What the statistics count.
pub enum Measure {
    /// Cells that are alive.
    Alive,
    /// Live cells with an emotion above the significance threshold.
    Expressive,
    /// Cells that are dead and alive after the tick.
    Birth,
    /// Cells that are alive and dead after the tick.
    Death,
    /// Cells that take an emotion from their neighbours in the tick.
    Spread,
}

/// The cell at `(x, y)` counts towards `measure`.
pub open spec fn counts(measure: Measure, cells: Seq<Seq<EmotionCell>>, x: int, y: int) -> bool {
    match measure {
        Measure::Alive => cell_at(cells, x, y).alive,
        Measure::Expressive => cell_at(cells, x, y).expressive(),
        Measure::Birth => !cell_at(cells, x, y).alive && next_cell(cells, x, y).alive,
        Measure::Death => cell_at(cells, x, y).alive && !next_cell(cells, x, y).alive,
        Measure::Spread => receives(cells, x, y),
    }
}

/// The number of cells among the first `n` of row `y` that count towards
/// `measure`.
pub open spec fn tally_row(measure: Measure, cells: Seq<Seq<EmotionCell>>, y: int, n: nat) -> nat
    decreases n,
{
    if n == 0 {
        0
    } else {
        tally_row(measure, cells, y, (n - 1) as nat) + if counts(measure, cells, n - 1, y) {
            1nat
        } else {
            0nat
        }
    }
}

/// The number of cells in the first `rows` rows that count towards `measure`.
pub open spec fn tally_rows(measure: Measure, cells: Seq<Seq<EmotionCell>>, rows: nat) -> nat
    decreases rows,
{
    if rows == 0 {
        0
    } else {
        tally_rows(measure, cells, (rows - 1) as nat) + tally_row(
            measure,
            cells,
            rows - 1,
            cells[rows - 1].len(),
        )
    }
}

/// The number of cells of the grid that count towards `measure`.
pub open spec fn tally(measure: Measure, cells: Seq<Seq<EmotionCell>>) -> nat {
    tally_rows(measure, cells, cells.len())
}

/// The rows of a grid, as values.
pub open spec fn rows_of(grid: Seq<Vec<EmotionCell>>) -> Seq<Seq<EmotionCell>> {
    Seq::new(grid.len(), |y: int| grid[y]@)
}

proof fn lemma_cell_number(x: int, y: int, w: int, h: int)
    requires
        0 <= x < w,
        0 <= y < h,
    ensures
        y * w + x < w * h,
        (y + 1) * w == y * w + w,
        0 <= y * w,
{
    assert(y * w + x < w * h && (y + 1) * w == y * w + w && 0 <= y * w) by (nonlinear_arith)
        requires
            0 <= x < w,
            0 <= y < h,
    ;
}

fn blank_rows(width: usize, height: usize) -> (grid: Vec<Vec<EmotionCell>>)
    ensures
        rows_of(grid@) == blank(width as nat, height as nat),
        grid@.len() == height,
        forall|y: int| 0 <= y < height ==> (#[trigger] grid@[y])@.len() == width,
{
    let mut grid: Vec<Vec<EmotionCell>> = Vec::new();
    let mut y: usize = 0;
    while y < height
        invariant
            y <= height,
            grid@.len() == y,
            forall|j: int|
                0 <= j < y ==> (#[trigger] grid@[j])@ == Seq::new(
                    width as nat,
                    |x: int| EmotionCell::empty(),
                ),
        decreases height - y,
    {
        let mut row: Vec<EmotionCell> = Vec::new();
        let mut x: usize = 0;
        while x < width
            invariant
                x <= width,
                row@.len() == x,
                forall|i: int| 0 <= i < x ==> #[trigger] row@[i] == EmotionCell::empty(),
            decreases width - x,
        {
            row.push(EmotionCell::new());
            x += 1;
        }
        assert(row@ =~= Seq::new(width as nat, |x: int| EmotionCell::empty()));
        grid.push(row);
        y += 1;
    }
    assert(rows_of(grid@) =~= blank(width as nat, height as nat));
    grid
}

/// A tick keeps every intensity within bounds: where no cell's intensity
/// exceeds `UNIT` before the tick, none does after it.
pub proof fn lemma_step_keeps_bounds(cells: Seq<Seq<EmotionCell>>)
    requires
        bounded(cells),
    ensures
        bounded(step(cells)),
{
    assert forall|x: int, y: int|
        0 <= y < step(cells).len() && 0 <= x < step(cells)[y].len() implies (#[trigger] step(
        cells,
    )[y][x]).intensity <= UNIT by {
        assert(cells[y][x].intensity <= UNIT);
        assert(step(cells)[y][x] == next_cell(cells, x, y));
    }
}

/// The rule of life, read off a grid: a dead cell with exactly three live
/// neighbours is alive after the tick, and a live cell with fewer than two or
/// more than three live neighbours is dead after it.
pub proof fn lemma_life_rule(cells: Seq<Seq<EmotionCell>>, x: int, y: int)
    requires
        0 <= y < cells.len(),
        0 <= x < cells[y].len(),
    ensures
        !cells[y][x].alive && live_neighbors(cells, x, y) == 3 ==> step(cells)[y][x].alive,
        !cells[y][x].alive && live_neighbors(cells, x, y) != 3 ==> !step(cells)[y][x].alive,
        cells[y][x].alive && (live_neighbors(cells, x, y) < 2 || live_neighbors(cells, x, y) > 3)
            ==> !step(cells)[y][x].alive,
        cells[y][x].alive && 2 <= live_neighbors(cells, x, y) <= 3 ==> step(cells)[y][x].alive,
{
    assert(step(cells)[y][x] == next_cell(cells, x, y));
}

/// A cell to which no neighbour offers an emotion keeps its emotion, and its
/// intensity fades to nine tenths, which is less than before unless it was
/// zero.
pub proof fn lemma_isolated_cell_decays(cells: Seq<Seq<EmotionCell>>, x: int, y: int)
    requires
        0 <= y < cells.len(),
        0 <= x < cells[y].len(),
        neighbor_emotions(cells, x, y).len() == 0,
    ensures
        step(cells)[y][x].emotion == cells[y][x].emotion,
        step(cells)[y][x].intensity == cells[y][x].intensity * 9 / 10,
        cells[y][x].intensity > 0 ==> step(cells)[y][x].intensity < cells[y][x].intensity,
{
    assert(step(cells)[y][x] == next_cell(cells, x, y));
}

/// The grid of the automaton. Rows run from the top, cells in a row from the
/// left; `cell_size` is the fixed-point edge length of a cell in the world.
#[derive(Debug, Clone)]
pub struct EmotionGrid {
    pub width: usize,
    pub height: usize,
    pub cell_size: u64,
    pub grid: Vec<Vec<EmotionCell>>,
    pub update_count: u32,
}

impl View for EmotionGrid {
    type V = Seq<Seq<EmotionCell>>;

    /// The rows of the grid.
    open spec fn view(&self) -> Seq<Seq<EmotionCell>> {
        rows_of(self.grid@)
    }
}

fn total_of(emotions: &[(EmotionType, u64)], kind: EmotionType) -> (r: (bool, u64))
    ensures
        r.0 == mentions(emotions@, kind),
        r.1 == kind_total(emotions@, kind),
{
    let mut found = false;
    let mut sum: u64 = 0;
    let mut i: usize = 0;
    while i < emotions.len()
        invariant
            i <= emotions@.len(),
            found <==> exists|j: int| 0 <= j < i && (#[trigger] emotions@[j]).0 == kind,
            sum == saturated(kind_sum(emotions@.take(i as int), kind) as int),
        decreases emotions@.len() - i,
    {
        let entry = emotions[i];
        proof {
            assert(emotions@.take(i + 1).drop_last() =~= emotions@.take(i as int));
            assert(emotions@.take(i + 1).last() == emotions@[i as int]);
        }
        if entry.0 == kind {
            found = true;
            sum = add_capped(sum, entry.1, u64::MAX);
        }
        i += 1;
    }
    proof {
        assert(emotions@.take(i as int) =~= emotions@);
    }
    (found, sum)
}

impl EmotionGrid {
    /// The grid is rectangular and not empty, its cells have an extent, and
    /// its shape is within the machine's limits.
    pub open spec fn wf(&self) -> bool {
        &&& 0 < self.width
        &&& 0 < self.height
        &&& 0 < self.cell_size
        &&& fits(self.width as int, self.height as int, self.cell_size as int)
        &&& self.grid@.len() == self.height
        &&& forall|y: int| 0 <= y < self.height ==> (#[trigger] self.grid@[y])@.len() == self.width
    }

    fn peek(&self, x: usize, y: usize, dx: i8, dy: i8) -> (c: EmotionCell)
        requires
            -1 <= dx <= 1,
            -1 <= dy <= 1,
        ensures
            c == cell_at(self@, x + dx, y + dy),
    {
        let rows = self.grid.len();
        assert(self@.len() == rows);
        let ny = match shift(y, dy) {
            Some(ny) => ny,
            None => {
                return EmotionCell::new();
            },
        };
        if ny >= rows {
            return EmotionCell::new();
        }
        assert(self@[ny as int] == self.grid@[ny as int]@);
        let row = &self.grid[ny];
        let cols = row.len();
        match shift(x, dx) {
            Some(nx) => {
                if nx < cols {
                    row[nx]
                } else {
                    EmotionCell::new()
                }
            },
            None => EmotionCell::new(),
        }
    }

    /// Builds a grid of dead, empty cells.
    pub fn new(width: usize, height: usize, cell_size: u64) -> (grid: EmotionGrid)
        requires
            0 < width,
            0 < height,
            0 < cell_size,
            fits(width as int, height as int, cell_size as int),
        ensures
            grid.wf(),
            grid.width == width,
            grid.height == height,
            grid.cell_size == cell_size,
            grid.update_count == 0,
            grid@ == blank(width as nat, height as nat),
    {
        EmotionGrid { width, height, cell_size, grid: blank_rows(width, height), update_count: 0 }
    }

    /// Builds a grid of dead, empty cells, or says why the shape is refused.
    pub fn try_new(width: usize, height: usize, cell_size: u64) -> (r: Result<
        EmotionGrid,
        ConfigError,
    >)
        ensures
            width == 0 ==> r == Err::<EmotionGrid, ConfigError>(ConfigError::ZeroWidth),
            width > 0 && height == 0 ==> r == Err::<EmotionGrid, ConfigError>(
                ConfigError::ZeroHeight,
            ),
            width > 0 && height > 0 && cell_size == 0 ==> r == Err::<EmotionGrid, ConfigError>(
                ConfigError::ZeroCellSize,
            ),
            width > 0 && height > 0 && cell_size > 0 && !fits(
                width as int,
                height as int,
                cell_size as int,
            ) ==> r == Err::<EmotionGrid, ConfigError>(ConfigError::TooLarge),
            width > 0 && height > 0 && cell_size > 0 && fits(
                width as int,
                height as int,
                cell_size as int,
            ) ==> {
                &&& r matches Ok(grid)
                &&& grid.wf()
                &&& grid.width == width
                &&& grid.height == height
                &&& grid.cell_size == cell_size
                &&& grid.update_count == 0
                &&& grid@ == blank(width as nat, height as nat)
            },
    {
        if width == 0 {
            return Err(ConfigError::ZeroWidth);
        }
        if height == 0 {
            return Err(ConfigError::ZeroHeight);
        }
        if cell_size == 0 {
            return Err(ConfigError::ZeroCellSize);
        }
        proof {
            lemma_product_fits(width as u64, height as u64);
            lemma_product_fits(width as u64, cell_size);
            lemma_product_fits(height as u64, cell_size);
        }
        let area: u128 = (width as u128) * (height as u128);
        let across: u128 = (width as u128) * (cell_size as u128);
        let down: u128 = (height as u128) * (cell_size as u128);
        if area > u32::MAX as u128 || across > i64::MAX as u128 || down > i64::MAX as u128 {
            return Err(ConfigError::TooLarge);
        }
        Ok(EmotionGrid::new(width, height, cell_size))
    }

    /// Replaces the cell that holds the world position `(world_x, world_y)`
    /// by a live cell carrying `emotion` at full intensity. A position outside
    /// the grid changes nothing.
    pub fn add_emotion_source(&mut self, emotion: EmotionType, world_x: i64, world_y: i64)
        requires
            old(self).wf(),
        ensures
            final(self).wf(),
            final(self).width == old(self).width,
            final(self).height == old(self).height,
            final(self).cell_size == old(self).cell_size,
            final(self).update_count == old(self).update_count,
            final(self)@ == with_source(
                old(self)@,
                emotion,
                world_x as int,
                world_y as int,
                old(self).cell_size as int,
            ),
    {
        proof {
            let cs = self.cell_size as int;
            if world_x < 0 {
                assert((world_x as int) / cs < 0) by (nonlinear_arith)
                    requires
                        world_x < 0,
                        cs > 0,
                ;
            }
            if world_y < 0 {
                assert((world_y as int) / cs < 0) by (nonlinear_arith)
                    requires
                        world_y < 0,
                        cs > 0,
                ;
            }
        }
        if world_x < 0 || world_y < 0 {
            return ;
        }
        let gx: u64 = (world_x as u64) / self.cell_size;
        let gy: u64 = (world_y as u64) / self.cell_size;
        if gx < self.width as u64 && gy < self.height as u64 {
            let ghost before = self@;
            self.grid[gy as usize][gx as usize] = EmotionCell::new_with_emotion(emotion, UNIT);
            assert(self@ =~= before.update(
                gy as int,
                before[gy as int].update(gx as int, EmotionCell::seeded(emotion, UNIT)),
            ));
        }
    }

    fn evolve(&self, x: usize, y: usize) -> (r: (EmotionCell, bool))
        requires
            y < self@.len(),
            x < self@[y as int].len(),
        ensures
            r.0 == next_cell(self@, x as int, y as int),
            r.1 == receives(self@, x as int, y as int),
    {
        let neighbors = self.count_neighbors(x, y);
        assert(self@[y as int] == self.grid@[y as int]@);
        let current = self.grid[y][x];
        let alive = if current.alive {
            !(neighbors < 2 || neighbors > 3)
        } else {
            neighbors == 3
        };
        let faded = fraction(current.intensity, 9, 10);
        if alive {
            let around = self.get_neighbor_emotions(x, y);
            if let Some(dominant) = self.get_dominant_emotion(around.as_slice()) {
                let gained = fraction(dominant.1, 3, 10);
                let cell = EmotionCell {
                    alive,
                    emotion: Some(dominant.0),
                    intensity: add_capped(faded, gained, UNIT),
                };
                return (cell, true);
            }
        }
        (EmotionCell { alive, emotion: current.emotion, intensity: faded }, false)
    }

    fn advance(&self) -> (r: (Vec<Vec<EmotionCell>>, GridStats))
        requires
            self.wf(),
        ensures
            rows_of(r.0@) == step(self@),
            r.0@.len() == self.height,
            forall|y: int| 0 <= y < self.height ==> (#[trigger] r.0@[y])@.len() == self.width,
            r.1.births == tally(Measure::Birth, self@),
            r.1.deaths == tally(Measure::Death, self@),
            r.1.emotion_spreads == tally(Measure::Spread, self@),
            r.1.alive_count == tally(Measure::Alive, step(self@)),
            r.1.emotion_count == tally(Measure::Expressive, step(self@)),
    {
        let ghost cells = self@;
        let ghost after = step(cells);
        let ghost w = self.width as int;
        let mut grid: Vec<Vec<EmotionCell>> = Vec::new();
        let mut stats = GridStats::new();
        let mut y: usize = 0;
        while y < self.height
            invariant
                self.wf(),
                cells == self@,
                after == step(cells),
                w == self.width,
                y <= self.height,
                grid@.len() == y,
                forall|j: int| 0 <= j < y ==> (#[trigger] grid@[j])@ == after[j],
                stats.births == tally_rows(Measure::Birth, cells, y as nat),
                stats.deaths == tally_rows(Measure::Death, cells, y as nat),
                stats.emotion_spreads == tally_rows(Measure::Spread, cells, y as nat),
                stats.alive_count == tally_rows(Measure::Alive, after, y as nat),
                stats.emotion_count == tally_rows(Measure::Expressive, after, y as nat),
                stats.births <= y * w,
                stats.deaths <= y * w,
                stats.emotion_spreads <= y * w,
                stats.alive_count <= y * w,
                stats.emotion_count <= y * w,
            decreases self.height - y,
        {
            assert(cells[y as int] == self.grid@[y as int]@);
            assert(cells[y as int].len() == w);
            assert(after[y as int].len() == w);
            let mut row: Vec<EmotionCell> = Vec::new();
            let mut x: usize = 0;
            while x < self.width
                invariant
                    self.wf(),
                    cells == self@,
                    after == step(cells),
                    w == self.width,
                    y < self.height,
                    x <= self.width,
                    cells[y as int].len() == w,
                    row@.len() == x,
                    forall|i: int| 0 <= i < x ==> #[trigger] row@[i] == after[y as int][i],
                    stats.births == tally_rows(Measure::Birth, cells, y as nat) + tally_row(
                        Measure::Birth,
                        cells,
                        y as int,
                        x as nat,
                    ),
                    stats.deaths == tally_rows(Measure::Death, cells, y as nat) + tally_row(
                        Measure::Death,
                        cells,
                        y as int,
                        x as nat,
                    ),
                    stats.emotion_spreads == tally_rows(Measure::Spread, cells, y as nat)
                        + tally_row(Measure::Spread, cells, y as int, x as nat),
                    stats.alive_count == tally_rows(Measure::Alive, after, y as nat) + tally_row(
                        Measure::Alive,
                        after,
                        y as int,
                        x as nat,
                    ),
                    stats.emotion_count == tally_rows(Measure::Expressive, after, y as nat)
                        + tally_row(Measure::Expressive, after, y as int, x as nat),
                    stats.births <= y * w + x,
                    stats.deaths <= y * w + x,
                    stats.emotion_spreads <= y * w + x,
                    stats.alive_count <= y * w + x,
                    stats.emotion_count <= y * w + x,
                decreases self.width - x,
            {
                proof {
                    lemma_cell_number(x as int, y as int, w, self.height as int);
                }
                let current = self.grid[y][x];
                assert(current == cell_at(cells, x as int, y as int));
                let (cell, spread) = self.evolve(x, y);
                assert(cell == after[y as int][x as int]);
                assert(cell == cell_at(after, x as int, y as int));
                if current.alive && !cell.alive {
                    stats.deaths += 1;
                }
                if !current.alive && cell.alive {
                    stats.births += 1;
                }
                if spread {
                    stats.emotion_spreads += 1;
                }
                if cell.alive {
                    stats.alive_count += 1;
                    if cell.emotion.is_some() && cell.intensity > SIGNIFICANT {
                        stats.emotion_count += 1;
                    }
                }
                row.push(cell);
                x += 1;
            }
            proof {
                lemma_cell_number(0, y as int, w, self.height as int);
                assert(row@ =~= after[y as int]);
            }
            grid.push(row);
            y += 1;
        }
        assert(rows_of(grid@) =~= after);
        (grid, stats)
    }

    /// Advances the grid by one tick and reports what changed.
    ///
    /// Every cell of the new grid is computed from the grid before the tick.
    /// A grid whose intensities are at most `UNIT` stays so.
    pub fn update(&mut self) -> (stats: GridStats)
        requires
            old(self).wf(),
            old(self).update_count < u32::MAX,
        ensures
            final(self).wf(),
            final(self).width == old(self).width,
            final(self).height == old(self).height,
            final(self).cell_size == old(self).cell_size,
            final(self).update_count == old(self).update_count + 1,
            final(self)@ == step(old(self)@),
            bounded(old(self)@) ==> bounded(final(self)@),
            stats.births == tally(Measure::Birth, old(self)@),
            stats.deaths == tally(Measure::Death, old(self)@),
            stats.emotion_spreads == tally(Measure::Spread, old(self)@),
            stats.alive_count == tally(Measure::Alive, final(self)@),
            stats.emotion_count == tally(Measure::Expressive, final(self)@),
    {
        let (grid, stats) = self.advance();
        proof {
            if bounded(self@) {
                lemma_step_keeps_bounds(self@);
            }
        }
        self.grid = grid;
        self.update_count += 1;
        stats
    }

    /// Resets every cell to dead and empty, and the tick counter to zero.
    pub fn clear(&mut self)
        requires
            old(self).wf(),
        ensures
            final(self).wf(),
            final(self).width == old(self).width,
            final(self).height == old(self).height,
            final(self).cell_size == old(self).cell_size,
            final(self).update_count == 0,
            final(self)@ == blank(old(self).width as nat, old(self).height as nat),
    {
        self.grid = blank_rows(self.width, self.height);
        self.update_count = 0;
    }

    /// Counts the live cells and those with a significant emotion. The
    /// counters of changes are zero.
    pub fn get_stats(&self) -> (stats: GridStats)
        requires
            self.wf(),
        ensures
            stats.alive_count == tally(Measure::Alive, self@),
            stats.emotion_count == tally(Measure::Expressive, self@),
            stats.births == 0,
            stats.deaths == 0,
            stats.emotion_spreads == 0,
    {
        let ghost cells = self@;
        let ghost w = self.width as int;
        let mut stats = GridStats::new();
        let mut y: usize = 0;
        while y < self.height
            invariant
                self.wf(),
                cells == self@,
                w == self.width,
                y <= self.height,
                stats.alive_count == tally_rows(Measure::Alive, cells, y as nat),
                stats.emotion_count == tally_rows(Measure::Expressive, cells, y as nat),
                stats.alive_count <= y * w,
                stats.emotion_count <= y * w,
                stats.births == 0,
                stats.deaths == 0,
                stats.emotion_spreads == 0,
            decreases self.height - y,
        {
            assert(cells[y as int] == self.grid@[y as int]@);
            let mut x: usize = 0;
            while x < self.width
                invariant
                    self.wf(),
                    cells == self@,
                    w == self.width,
                    y < self.height,
                    x <= self.width,
                    cells[y as int].len() == w,
                    stats.alive_count == tally_rows(Measure::Alive, cells, y as nat) + tally_row(
                        Measure::Alive,
                        cells,
                        y as int,
                        x as nat,
                    ),
                    stats.emotion_count == tally_rows(Measure::Expressive, cells, y as nat)
                        + tally_row(Measure::Expressive, cells, y as int, x as nat),
                    stats.alive_count <= y * w + x,
                    stats.emotion_count <= y * w + x,
                    stats.births == 0,
                    stats.deaths == 0,
                    stats.emotion_spreads == 0,
                decreases self.width - x,
            {
                proof {
                    lemma_cell_number(x as int, y as int, w, self.height as int);
                }
                assert(cells[y as int] == self.grid@[y as int]@);
                let cell = self.grid[y][x];
                assert(cell == cell_at(cells, x as int, y as int));
                if cell.alive {
                    stats.alive_count += 1;
                    if cell.emotion.is_some() && cell.intensity > SIGNIFICANT {
                        stats.emotion_count += 1;
                    }
                }
                x += 1;
            }
            proof {
                lemma_cell_number(0, y as int, w, self.height as int);
            }
            y += 1;
        }
        stats
    }

    /// Replaces the grid by a population without emotion, alive where
    /// `alive` says so (a missing flag counts as dead), places the sources in
    /// order, and resets the tick counter.
    pub fn repopulate(&mut self, alive: &Vec<Vec<bool>>, sources: &Vec<(EmotionType, i64, i64)>)
        requires
            old(self).wf(),
        ensures
            final(self).wf(),
            final(self).width == old(self).width,
            final(self).height == old(self).height,
            final(self).cell_size == old(self).cell_size,
            final(self).update_count == 0,
            final(self)@ == sown(
                population(flags_of(alive@), old(self).width as nat, old(self).height as nat),
                sources@,
                old(self).cell_size as int,
            ),
    {
        let ghost flags = flags_of(alive@);
        let ghost start = population(flags, self.width as nat, self.height as nat);
        let mut grid: Vec<Vec<EmotionCell>> = Vec::new();
        let mut y: usize = 0;
        while y < self.height
            invariant
                y <= self.height,
                flags == flags_of(alive@),
                start == population(flags, self.width as nat, self.height as nat),
                grid@.len() == y,
                forall|j: int| 0 <= j < y ==> (#[trigger] grid@[j])@ == start[j],
            decreases self.height - y,
        {
            let mut row: Vec<EmotionCell> = Vec::new();
            let mut x: usize = 0;
            while x < self.width
                invariant
                    y < self.height,
                    x <= self.width,
                    flags == flags_of(alive@),
                    start == population(flags, self.width as nat, self.height as nat),
                    row@.len() == x,
                    forall|i: int| 0 <= i < x ==> #[trigger] row@[i] == start[y as int][i],
                decreases self.width - x,
            {
                let lives = y < alive.len() && x < alive[y].len() && alive[y][x];
                proof {
                    if y < alive@.len() {
                        assert(flags[y as int] == alive@[y as int]@);
                    }
                    assert(lives == flag_at(flags, x as int, y as int));
                }
                row.push(EmotionCell { alive: lives, emotion: None, intensity: 0 });
                x += 1;
            }
            assert(row@ =~= start[y as int]);
            grid.push(row);
            y += 1;
        }
        assert(rows_of(grid@) =~= start);
        self.grid = grid;
        self.update_count = 0;
        let mut i: usize = 0;
        while i < sources.len()
            invariant
                i <= sources@.len(),
                self.wf(),
                self.width == old(self).width,
                self.height == old(self).height,
                self.cell_size == old(self).cell_size,
                self.update_count == 0,
                self@ == sown(start, sources@.take(i as int), self.cell_size as int),
            decreases sources@.len() - i,
        {
            let source = sources[i];
            proof {
                assert(sources@.take(i + 1).drop_last() =~= sources@.take(i as int));
                assert(sources@.take(i + 1).last() == source);
            }
            self.add_emotion_source(source.0, source.1, source.2);
            i += 1;
        }
        assert(sources@.take(i as int) =~= sources@);
    }

    /// Replaces the grid by a random population: every cell is alive with
    /// probability three tenths, and ten sources of random emotions are then
    /// placed at random positions of the world.
    ///
    /// Whatever is drawn, the outcome is that of [`Self::repopulate`] for some
    /// flags and some ten sources inside the world.
    pub fn randomize(&mut self, rng: &mut StdRng)
        requires
            old(self).wf(),
        ensures
            final(self).wf(),
            final(self).width == old(self).width,
            final(self).height == old(self).height,
            final(self).cell_size == old(self).cell_size,
            final(self).update_count == 0,
            exists|alive: Seq<Seq<bool>>, sources: Seq<(EmotionType, i64, i64)>|
                {
                    &&& sources.len() == SOURCE_COUNT
                    &&& forall|i: int|
                        0 <= i < sources.len() ==> {
                            &&& 0 <= (#[trigger] sources[i]).1 < old(self).width * old(
                                self,
                            ).cell_size
                            &&& 0 <= sources[i].2 < old(self).height * old(self).cell_size
                        }
                    &&& final(self)@ == #[trigger] sown(
                        population(alive, old(self).width as nat, old(self).height as nat),
                        sources,
                        old(self).cell_size as int,
                    )
                },
    {
        let mut alive: Vec<Vec<bool>> = Vec::new();
        let mut y: usize = 0;
        while y < self.height
            invariant
                y <= self.height,
            decreases self.height - y,
        {
            let mut row: Vec<bool> = Vec::new();
            let mut x: usize = 0;
            while x < self.width
                invariant
                    x <= self.width,
                decreases self.width - x,
            {
                row.push(flip(rng, 3, 10));
                x += 1;
            }
            alive.push(row);
            y += 1;
        }
        let kinds = EmotionType::all();
        proof {
            let (w, h, cs) = (self.width as int, self.height as int, self.cell_size as int);
            assert(0 < w * cs && 0 < h * cs) by (nonlinear_arith)
                requires
                    0 < w,
                    0 < h,
                    0 < cs,
            ;
        }
        let across: u64 = (self.width as u64) * self.cell_size;
        let down: u64 = (self.height as u64) * self.cell_size;
        let mut sources: Vec<(EmotionType, i64, i64)> = Vec::new();
        let mut n: usize = 0;
        while n < SOURCE_COUNT
            invariant
                n <= SOURCE_COUNT,
                sources@.len() == n,
                kinds@.len() == 9,
                0 < across <= i64::MAX,
                0 < down <= i64::MAX,
                forall|i: int|
                    0 <= i < n ==> {
                        &&& 0 <= (#[trigger] sources@[i]).1 < across
                        &&& 0 <= sources@[i].2 < down
                    },
            decreases SOURCE_COUNT - n,
        {
            let kind = kinds[below(rng, 9) as usize];
            let world_x = below(rng, across) as i64;
            let world_y = below(rng, down) as i64;
            sources.push((kind, world_x, world_y));
            n += 1;
        }
        self.repopulate(&alive, &sources);
        assert(self@ == sown(
            population(flags_of(alive@), old(self).width as nat, old(self).height as nat),
            sources@,
            old(self).cell_size as int,
        ));
    }

    /// Lets the emotion of the cell at `(source_x, source_y)` tunnel to
    /// `(target_x, target_y)`, where it is strong enough, and says whether it
    /// did.
    pub fn tunnel(&mut self, source_x: usize, source_y: usize, target_x: usize, target_y: usize) -> (moved:
        bool)
        requires
            old(self).wf(),
            source_x < old(self).width,
            source_y < old(self).height,
            target_x < old(self).width,
            target_y < old(self).height,
        ensures
            final(self).wf(),
            final(self).width == old(self).width,
            final(self).height == old(self).height,
            final(self).cell_size == old(self).cell_size,
            final(self).update_count == old(self).update_count,
            moved == can_tunnel(old(self)@[source_y as int][source_x as int]),
            final(self)@ == tunnelled(
                old(self)@,
                source_x as int,
                source_y as int,
                target_x as int,
                target_y as int,
            ),
    {
        assert(self@[source_y as int] == self.grid@[source_y as int]@);
        assert(self@[target_y as int] == self.grid@[target_y as int]@);
        let origin = self.grid[source_y][source_x];
        if origin.alive && origin.emotion.is_some() && origin.intensity > TUNNEL_THRESHOLD {
            let ghost before = self@;
            let cell = EmotionCell::new_with_emotion(
                origin.emotion.unwrap(),
                fraction(origin.intensity, 8, 10),
            );
            self.grid[target_y][target_x] = cell;
            assert(self@ =~= before.update(
                target_y as int,
                before[target_y as int].update(target_x as int, cell),
            ));
            true
        } else {
            false
        }
    }

    /// Tries up to twenty random cells as the origin of a tunnelling; the
    /// first whose emotion is strong enough tunnels to a random cell. Says
    /// whether a tunnelling took place.
    ///
    /// Whatever is drawn: a tunnelling takes place where every cell holds an
    /// emotion that can tunnel, and none where no cell does. In between it
    /// fails only after twenty cells were tried in vain.
    pub fn perform_quantum_tunneling(&mut self, rng: &mut StdRng) -> (moved: bool)
        requires
            old(self).wf(),
        ensures
            final(self).wf(),
            final(self).width == old(self).width,
            final(self).height == old(self).height,
            final(self).cell_size == old(self).cell_size,
            final(self).update_count == old(self).update_count,
            !moved ==> final(self)@ == old(self)@,
            !moved ==> exists|tried: Seq<(int, int)>| #[trigger] futile(old(self)@, tried),
            moved ==> exists|sx: int, sy: int, tx: int, ty: int|
                {
                    &&& 0 <= sx < old(self).width
                    &&& 0 <= tx < old(self).width
                    &&& 0 <= sy < old(self).height
                    &&& 0 <= ty < old(self).height
                    &&& can_tunnel(old(self)@[sy][sx])
                    &&& final(self)@ == #[trigger] tunnelled(old(self)@, sx, sy, tx, ty)
                },
            (forall|x: int, y: int|
                0 <= y < old(self).height && 0 <= x < old(self).width ==> can_tunnel(
                    #[trigger] old(self)@[y][x],
                )) ==> moved,
            (forall|x: int, y: int|
                0 <= y < old(self).height && 0 <= x < old(self).width ==> !can_tunnel(
                    #[trigger] old(self)@[y][x],
                )) ==> !moved,
    {
        let ghost cells = self@;
        let ghost mut tried: Seq<(int, int)> = Seq::empty();
        let mut tries: usize = 0;
        while tries < TUNNEL_TRIES
            invariant
                tries <= TUNNEL_TRIES,
                self.wf(),
                *self == *old(self),
                cells == self@,
                tried.len() == tries,
                forall|i: int|
                    0 <= i < tried.len() ==> {
                        &&& 0 <= (#[trigger] tried[i]).1 < cells.len()
                        &&& 0 <= tried[i].0 < cells[tried[i].1].len()
                        &&& !can_tunnel(cells[tried[i].1][tried[i].0])
                    },
            decreases TUNNEL_TRIES - tries,
        {
            let source_x = below(rng, self.width as u64) as usize;
            let source_y = below(rng, self.height as u64) as usize;
            assert(self@[source_y as int] == self.grid@[source_y as int]@);
            let origin = self.grid[source_y][source_x];
            assert(origin == cells[source_y as int][source_x as int]);
            if origin.alive && origin.emotion.is_some() && origin.intensity > TUNNEL_THRESHOLD {
                let target_x = below(rng, self.width as u64) as usize;
                let target_y = below(rng, self.height as u64) as usize;
                let moved = self.tunnel(source_x, source_y, target_x, target_y);
                assert(self@ == tunnelled(
                    old(self)@,
                    source_x as int,
                    source_y as int,
                    target_x as int,
                    target_y as int,
                ));
                assert(can_tunnel(cells[source_y as int][source_x as int]));
                return moved;
            }
            proof {
                let before = tried;
                tried = tried.push((source_x as int, source_y as int));
                assert forall|i: int| 0 <= i < tried.len() implies {
                    &&& 0 <= (#[trigger] tried[i]).1 < cells.len()
                    &&& 0 <= tried[i].0 < cells[tried[i].1].len()
                    &&& !can_tunnel(cells[tried[i].1][tried[i].0])
                } by {
                    if i < before.len() {
                        assert(tried[i] == before[i]);
                    }
                }
            }
            tries += 1;
        }
        proof {
            assert(futile(cells, tried));
            let first = tried[0];
            assert(!can_tunnel(cells[first.1][first.0]));
        }
        false
    }

    /// Counts the live cells among the eight that touch `(x, y)`.
    pub fn count_neighbors(&self, x: usize, y: usize) -> (count: u8)
        ensures
            count == live_neighbors(self@, x as int, y as int),
    {
        let mut count: u8 = 0;
        if self.peek(x, y, -1, -1).alive {
            count += 1;
        }
        if self.peek(x, y, 0, -1).alive {
            count += 1;
        }
        if self.peek(x, y, 1, -1).alive {
            count += 1;
        }
        if self.peek(x, y, -1, 0).alive {
            count += 1;
        }
        if self.peek(x, y, 1, 0).alive {
            count += 1;
        }
        if self.peek(x, y, -1, 1).alive {
            count += 1;
        }
        if self.peek(x, y, 0, 1).alive {
            count += 1;
        }
        if self.peek(x, y, 1, 1).alive {
            count += 1;
        }
        count
    }

    fn collect(&self, x: usize, y: usize, dx: i8, dy: i8, emotions: &mut Vec<(EmotionType, u64)>)
        requires
            -1 <= dx <= 1,
            -1 <= dy <= 1,
        ensures
            final(emotions)@ == old(emotions)@ + offered(cell_at(self@, x + dx, y + dy)),
    {
        let cell = self.peek(x, y, dx, dy);
        if cell.alive && cell.emotion.is_some() && cell.intensity > SIGNIFICANT {
            emotions.push((cell.emotion.unwrap(), cell.intensity));
        } else {
            assert(emotions@ + Seq::<(EmotionType, u64)>::empty() =~= emotions@);
        }
    }

    /// Lists what the eight cells that touch `(x, y)` offer.
    pub fn get_neighbor_emotions(&self, x: usize, y: usize) -> (emotions: Vec<(EmotionType, u64)>)
        ensures
            emotions@ == neighbor_emotions(self@, x as int, y as int),
    {
        let mut emotions: Vec<(EmotionType, u64)> = Vec::new();
        assert(emotions@ =~= Seq::empty());
        self.collect(x, y, -1, -1, &mut emotions);
        self.collect(x, y, 0, -1, &mut emotions);
        self.collect(x, y, 1, -1, &mut emotions);
        self.collect(x, y, -1, 0, &mut emotions);
        self.collect(x, y, 1, 0, &mut emotions);
        self.collect(x, y, -1, 1, &mut emotions);
        self.collect(x, y, 0, 1, &mut emotions);
        self.collect(x, y, 1, 1, &mut emotions);
        assert(emotions@ =~= neighbor_emotions(self@, x as int, y as int));
        emotions
    }

    /// Finds the dominant emotion of a list and its summed intensity.
    pub fn get_dominant_emotion(&self, emotions: &[(EmotionType, u64)]) -> (r: Option<
        (EmotionType, u64),
    >)
        ensures
            r is None <==> emotions@.len() == 0,
            r matches Some(p) ==> is_dominant(emotions@, p.0, p.1) && p == dominant_of(emotions@),
    {
        let kinds = EmotionType::all();
        let mut best: Option<(EmotionType, u64)> = None;
        let mut j: usize = 0;
        while j < kinds.len()
            invariant
                j <= 9,
                kinds@ == EmotionType::catalog(),
                best is None ==> forall|i: int| 0 <= i < j ==> !mentions(emotions@, #[trigger] kinds@[i]),
                best matches Some(p) ==> {
                    &&& mentions(emotions@, p.0)
                    &&& p.1 == kind_total(emotions@, p.0)
                    &&& p.0.rank() < j
                    &&& forall|i: int|
                        0 <= i < j && mentions(emotions@, #[trigger] kinds@[i]) ==> outranks(
                            emotions@,
                            p.0,
                            kinds@[i],
                        )
                },
            decreases 9 - j,
        {
            let kind = kinds[j];
            assert(kind.rank() == j);
            let (found, sum) = total_of(emotions, kind);
            if found {
                let better = match best {
                    None => true,
                    Some(p) => sum > p.1,
                };
                if better {
                    best = Some((kind, sum));
                }
            }
            j += 1;
        }
        proof {
            assert forall|other: EmotionType| true implies other == #[trigger] kinds@[other.rank()]
                && 0 <= other.rank() < 9 by {}
            if emotions@.len() > 0 {
                let head = emotions@[0].0;
                assert(mentions(emotions@, head));
                assert(head == kinds@[head.rank()]);
            }
            if let Some(p) = best {
                assert forall|other: EmotionType| #[trigger]
                    mentions(emotions@, other) implies outranks(emotions@, p.0, other) by {
                    assert(other == kinds@[other.rank()]);
                }
                assert(is_dominant(emotions@, p.0, p.1));
                lemma_dominant_is_unique(emotions@, p, dominant_of(emotions@));
            } else {
                if emotions@.len() > 0 {
                    assert(false);
                }
            }
        }
        best
    }
}

} // verus!
