//! Coordinate math, the dense render grid, and the layer composer.
//!
//! A level's layers are merged into a single [`RenderGrid`]: layers are
//! painted back-to-front (last declared layer first), so the first-declared
//! layer wins wherever two layers touch the same cell.  Within one layer the
//! auto-tile placements are painted before the explicit grid tiles, so an
//! explicit tile wins over an auto tile at a shared cell.
use crate::AutoTileRule;
use crate::GridTile;
use crate::LayerInstance;
use crate::Level;
use crate::Project;
use vstd::arithmetic::div_mod::lemma_fundamental_div_mod_converse;
use vstd::prelude::*;

verus! {

/// A pair of cell or pixel coordinates: column first, then row.
#[derive(Clone, Copy, PartialEq, Eq, Structural, Debug)]
pub struct Point(pub usize, pub usize);

impl Default for Point {
    /// The origin, `(0, 0)`.
    fn default() -> (p: Self)
        ensures
            p == Point(0usize, 0usize),
    {
        Point(0, 0)
    }
}

impl From<(usize, usize)> for Point {
    fn from(tup: (usize, usize)) -> (p: Self) {
        Point(tup.0, tup.1)
    }
}

impl vstd::std_specs::convert::FromSpecImpl<(usize, usize)> for Point {
    open spec fn obeys_from_spec() -> bool {
        true
    }

    open spec fn from_spec(tup: (usize, usize)) -> Self {
        Point(tup.0, tup.1)
    }
}

/// The row-major cell index of grid point `(x, y)` in a grid `w` cells wide.
pub open spec fn coord_id_of(x: int, y: int, w: int) -> int {
    x + y * w
}

/// The column of the cell with row-major index `c` in a grid `w` cells wide.
pub open spec fn point_x_of(c: int, w: int) -> int {
    c % w
}

/// The row of the cell with row-major index `c` in a grid `w` cells wide.
pub open spec fn point_y_of(c: int, w: int) -> int {
    c / w
}

/// Converts from a grid (x, y) point to a coordinate ID.
pub fn grid_point_to_coord(point: Point, grid_width: usize) -> (r: usize)
    requires
        point.0 + point.1 * grid_width <= usize::MAX,
    ensures
        r == coord_id_of(point.0 as int, point.1 as int, grid_width as int),
{
    point.0 + point.1 * grid_width
}

/// Converts from a coordinate ID to a grid (x, y) point.
pub fn grid_coord_to_point(coord: usize, grid_width: usize) -> (p: Point)
    requires
        grid_width > 0,
    ensures
        p.0 == point_x_of(coord as int, grid_width as int),
        p.1 == point_y_of(coord as int, grid_width as int),
{
    proof {
        let c = coord as int;
        let w = grid_width as int;
        assert(0 <= c % w && c % w < w && c == (c / w) * w + c % w) by (nonlinear_arith)
            requires
                w > 0 && c >= 0,
        ;
    }
    let grid_y = coord / grid_width;
    Point(coord - grid_y * grid_width, coord / grid_width)
}

/// Converts from an atlas sprite ID to a pixel position in the atlas.
///
/// The atlas is a regular grid of `grid_width`-pixel cells, `atlas_width`
/// cells wide, framed by `padding` pixels and with `spacing` pixels between
/// neighbouring cells.
pub fn tile_id_to_atlas_pixel(
    tile_id: usize,
    atlas_width: usize,
    grid_width: usize,
    padding: usize,
    spacing: usize,
) -> (p: Point)
    requires
        atlas_width > 0,
        grid_width + spacing <= usize::MAX,
        padding + point_x_of(tile_id as int, atlas_width as int) * (grid_width + spacing)
            <= usize::MAX,
        padding + point_y_of(tile_id as int, atlas_width as int) * (grid_width + spacing)
            <= usize::MAX,
    ensures
        p.0 == padding + point_x_of(tile_id as int, atlas_width as int) * (grid_width + spacing),
        p.1 == padding + point_y_of(tile_id as int, atlas_width as int) * (grid_width + spacing),
{
    proof {
        let t = tile_id as int;
        let a = atlas_width as int;
        assert(0 <= t % a && t % a < a && t == a * (t / a) + t % a) by (nonlinear_arith)
            requires
                a > 0 && t >= 0,
        ;
    }
    let grid_x = tile_id - atlas_width * (tile_id / atlas_width);
    let grid_y = tile_id / atlas_width;

    Point(
        padding + grid_x * (grid_width + spacing),
        padding + grid_y * (grid_width + spacing),
    )
}

/// One cell of a composed render grid.
///
/// `atlas_pos` is the source tile's atlas position in grid cells (column,
/// row), not in pixels; [`tile_id_to_atlas_pixel`] converts a tile id to
/// pixels when a consumer needs them.
#[derive(Clone, Copy, PartialEq, Eq, Structural, Debug)]
pub struct RenderCell {
    pub is_empty: bool,
    pub tile_id: usize,
    pub atlas_pos: Point,
}

/// The state of a cell no layer has written: empty, with a zero tile id and
/// a zeroed atlas position.
pub open spec fn empty_cell() -> RenderCell {
    RenderCell { is_empty: true, tile_id: 0, atlas_pos: Point(0, 0) }
}

/// A dense, row-major grid of composed cells for one level.
#[derive(Debug)]
pub struct RenderGrid {
    pub tiles: Vec<RenderCell>,
    /// Pixel size of one tile (fixed at 16 by 16 by the composer).
    pub tile_size: Point,
    /// Size of the grid in cells: width, then height.
    pub grid_size: Point,
}

impl RenderGrid {
    /// A grid is well formed when its cell storage is exactly as long as its
    /// declared width times height.
    pub open spec fn wf(self) -> bool {
        self.tiles@.len() == self.grid_size.0 * self.grid_size.1
    }

    /// Allocates a grid of `num_cells` cells, each initialized to the empty
    /// state.
    pub fn new(num_cells: usize, tile_size: Point, grid_size: Point) -> (g: Self)
        ensures
            g.tiles@.len() == num_cells,
            forall|i: int| 0 <= i < num_cells ==> g.tiles@[i] == empty_cell(),
            g.tile_size == tile_size,
            g.grid_size == grid_size,
    {
        let mut tiles: Vec<RenderCell> = Vec::new();
        let mut i: usize = 0;
        while i < num_cells
            invariant
                i <= num_cells,
                tiles@.len() == i,
                forall|j: int| 0 <= j < i ==> tiles@[j] == empty_cell(),
            decreases num_cells - i,
        {
            tiles.push(RenderCell { is_empty: true, tile_id: 0, atlas_pos: Point(0, 0) });
            i = i + 1;
        }
        RenderGrid { tiles, tile_size, grid_size }
    }

    /// The cell at grid point `(x, y)`; the point must lie inside the grid.
    pub fn get_tile(&self, x: usize, y: usize) -> (c: &RenderCell)
        requires
            self.wf(),
            x < self.grid_size.0,
            y < self.grid_size.1,
        ensures
            *c == self.tiles@[coord_id_of(x as int, y as int, self.grid_size.0 as int)],
    {
        proof {
            lemma_coord_id_in_grid(x as int, y as int, self.grid_size.0 as int,
                self.grid_size.1 as int);
            assert(self.tiles.len() == self.tiles@.len());
        }
        let coord_id = grid_point_to_coord(Point(x, y), self.grid_size.0);
        &self.tiles[coord_id]
    }

    /// The grid's cells as rows, top to bottom, each row `grid_size.0` cells
    /// wide from left to right.
    pub fn rows(&self) -> (r: Vec<Vec<RenderCell>>)
        requires
            self.wf(),
            self.grid_size.0 > 0,
        ensures
            r@.len() == self.grid_size.1,
            forall|i: int| 0 <= i < r@.len() ==> #[trigger] r@[i]@.len() == self.grid_size.0,
            forall|i: int, j: int|
                0 <= i < r@.len() && 0 <= j < self.grid_size.0 ==> #[trigger] r@[i]@[j]
                    == self.tiles@[coord_id_of(j, i, self.grid_size.0 as int)],
    {
        let w = self.grid_size.0;
        let h = self.grid_size.1;
        let mut r: Vec<Vec<RenderCell>> = Vec::new();
        let mut y: usize = 0;
        while y < h
            invariant
                y <= h,
                self.wf(),
                self.grid_size.0 == w,
                self.grid_size.1 == h,
                w > 0,
                r@.len() == y,
                forall|i: int| 0 <= i < y ==> #[trigger] r@[i]@.len() == w,
                forall|i: int, j: int|
                    0 <= i < y && 0 <= j < w ==> #[trigger] r@[i]@[j]
                        == self.tiles@[coord_id_of(j, i, w as int)],
            decreases h - y,
        {
            let mut row: Vec<RenderCell> = Vec::new();
            let mut x: usize = 0;
            while x < w
                invariant
                    x <= w,
                    y < h,
                    self.wf(),
                    self.grid_size.0 == w,
                    self.grid_size.1 == h,
                    w > 0,
                    row@.len() == x,
                    forall|j: int|
                        0 <= j < x ==> #[trigger] row@[j]
                            == self.tiles@[coord_id_of(j, y as int, w as int)],
                decreases w - x,
            {
                proof {
                    lemma_coord_id_in_grid(x as int, y as int, w as int, h as int);
                    assert(self.tiles.len() == self.tiles@.len());
                }
                row.push(self.tiles[x + y * w]);
                x = x + 1;
            }
            r.push(row);
            y = y + 1;
        }
        r
    }
}

/// Every in-grid point has a cell id below the grid's cell count.
pub proof fn lemma_coord_id_in_grid(x: int, y: int, w: int, h: int)
    requires
        0 <= x < w,
        0 <= y < h,
    ensures
        0 <= coord_id_of(x, y, w) < w * h,
{
    assert(0 <= x + y * w < w * h) by (nonlinear_arith)
        requires
            0 <= x < w && 0 <= y < h,
    ;
}

/// Writing a tile at `(x, y)` and reading the cell id back recovers the
/// point, for every point inside a grid of positive width.
pub proof fn lemma_point_coord_round_trip(x: int, y: int, w: int)
    requires
        0 <= x < w,
        0 <= y,
    ensures
        point_x_of(coord_id_of(x, y, w), w) == x,
        point_y_of(coord_id_of(x, y, w), w) == y,
{
    lemma_fundamental_div_mod_converse(x + y * w, w, y, x);
}

// ---------------------------------------------------------------------------
// The composition model.
//
// Painting a level is modelled as one long sequence of tile writes, in the
// order the composer applies them; the value of a cell is decided by the
// last write that targets it.
// ---------------------------------------------------------------------------

/// The cell value a single tile write leaves behind.
pub open spec fn cell_of_tile(t: GridTile) -> RenderCell {
    RenderCell { is_empty: false, tile_id: t.tile_id, atlas_pos: Point(t.tile_x, t.tile_y) }
}

/// The last write in `writes` that targets cell `c`, if any.
pub open spec fn last_write_to(writes: Seq<GridTile>, c: int) -> Option<GridTile>
    decreases writes.len(),
{
    if writes.len() == 0 {
        None
    } else if writes.last().coord_id as int == c {
        Some(writes.last())
    } else {
        last_write_to(writes.drop_last(), c)
    }
}

/// Whether some write in `writes` targets cell `c`.
pub open spec fn writes_to_cell(writes: Seq<GridTile>, c: int) -> bool {
    exists|k: int| 0 <= k < writes.len() && (#[trigger] writes[k]).coord_id as int == c
}

/// The writes of a sequence of auto-tile rules, each rule's placements in
/// order, rules in declared order.
pub open spec fn rule_writes(rules: Seq<AutoTileRule>) -> Seq<GridTile>
    decreases rules.len(),
{
    if rules.len() == 0 {
        Seq::empty()
    } else {
        rule_writes(rules.drop_last()) + rules.last().tiles@
    }
}

/// The writes one layer applies: all auto-tile placements first, then the
/// explicit grid tiles.
pub open spec fn layer_writes(l: LayerInstance) -> Seq<GridTile> {
    rule_writes(l.auto_tiles@) + l.grid_tiles@
}

/// The writes a whole level applies: layers painted back-to-front, so the
/// last declared layer writes first and the first declared layer writes
/// last.
pub open spec fn level_writes(layers: Seq<LayerInstance>) -> Seq<GridTile>
    decreases layers.len(),
{
    if layers.len() == 0 {
        Seq::empty()
    } else {
        level_writes(layers.drop_first()) + layer_writes(layers.first())
    }
}

/// The value a sequence of writes leaves in cell `c`: the last write to `c`
/// wins, and an untargeted cell stays empty.
pub open spec fn applied_cell(writes: Seq<GridTile>, c: int) -> RenderCell {
    match last_write_to(writes, c) {
        Some(t) => cell_of_tile(t),
        None => empty_cell(),
    }
}

/// The final value of cell `c` after composing a level's layers.
pub open spec fn composed_cell(layers: Seq<LayerInstance>, c: int) -> RenderCell {
    applied_cell(level_writes(layers), c)
}

/// One more write changes exactly the cell it targets.
pub proof fn lemma_last_write_push(writes: Seq<GridTile>, t: GridTile, c: int)
    ensures
        last_write_to(writes.push(t), c) == if t.coord_id as int == c {
            Some(t)
        } else {
            last_write_to(writes, c)
        },
{
    assert(writes.push(t).drop_last() =~= writes);
    assert(writes.push(t).last() == t);
}

/// Of two write batches applied in sequence, the later batch decides every
/// cell it targets; the earlier batch decides the rest.
pub proof fn lemma_last_write_concat(a: Seq<GridTile>, b: Seq<GridTile>, c: int)
    ensures
        last_write_to(a + b, c) == match last_write_to(b, c) {
            Some(t) => Some(t),
            None => last_write_to(a, c),
        },
    decreases b.len(),
{
    if b.len() == 0 {
        assert(a + b =~= a);
    } else {
        assert((a + b).drop_last() =~= a + b.drop_last());
        assert((a + b).last() == b.last());
        lemma_last_write_concat(a, b.drop_last(), c);
    }
}

/// Why a level could not be composed.
#[derive(Clone, Copy, PartialEq, Eq, Structural, Debug)]
pub enum ComposeError {
    /// The requested level index is outside the project's level sequence.
    LevelNotFound { requested: usize, available: usize },
    /// The level has no layer instances, so no grid size can be determined.
    EmptyLevel { requested: usize },
}

/// Every write in `tiles` targets a cell below `n`.
pub open spec fn tiles_bounded(tiles: Seq<GridTile>, n: int) -> bool {
    forall|i: int| 0 <= i < tiles.len() ==> (#[trigger] tiles[i]).coord_id < n
}

/// Every write of the layer, auto-tile or explicit, targets a cell below `n`.
pub open spec fn layer_bounded(l: LayerInstance, n: int) -> bool {
    &&& forall|i: int|
        0 <= i < l.auto_tiles@.len() ==> tiles_bounded((#[trigger] l.auto_tiles@[i]).tiles@, n)
    &&& tiles_bounded(l.grid_tiles@, n)
}

/// The cell count of a level's grid, taken from its first layer instance.
pub open spec fn level_cell_count(level: Level) -> int {
    level.layer_instances@[0].grid_width * level.layer_instances@[0].grid_height
}

/// What the document model must already guarantee of a non-empty level
/// before it can be composed: the grid's cell count is representable, and
/// every tile's `coord_id` lies inside the first layer's grid.  LEd levels
/// are homogeneous by construction, so this holds of well-formed documents.
pub open spec fn compose_feasible(level: Level) -> bool {
    &&& level_cell_count(level) <= usize::MAX
    &&& forall|i: int|
        0 <= i < level.layer_instances@.len() ==> layer_bounded(
            #[trigger] level.layer_instances@[i],
            level_cell_count(level),
        )
}

/// Whether the layer writes cell `c` at all, by an auto-tile rule or by an
/// explicit grid tile.
pub open spec fn layer_touches(l: LayerInstance, c: int) -> bool {
    ||| exists|i: int|
        0 <= i < l.auto_tiles@.len() && writes_to_cell((#[trigger] l.auto_tiles@[i]).tiles@, c)
    ||| writes_to_cell(l.grid_tiles@, c)
}

/// Concatenating write batches targets a cell exactly when one of the
/// batches does.
proof fn lemma_writes_concat(a: Seq<GridTile>, b: Seq<GridTile>, c: int)
    ensures
        writes_to_cell(a + b, c) <==> writes_to_cell(a, c) || writes_to_cell(b, c),
{
    if writes_to_cell(a + b, c) {
        let k = choose|k: int| 0 <= k < (a + b).len() && (#[trigger] (a + b)[k]).coord_id as int == c;
        if k < a.len() {
            assert((a + b)[k] == a[k]);
        } else {
            assert((a + b)[k] == b[k - a.len()]);
        }
    }
    if writes_to_cell(a, c) {
        let k = choose|k: int| 0 <= k < a.len() && (#[trigger] a[k]).coord_id as int == c;
        assert((a + b)[k] == a[k]);
    }
    if writes_to_cell(b, c) {
        let k = choose|k: int| 0 <= k < b.len() && (#[trigger] b[k]).coord_id as int == c;
        assert((a + b)[k + a.len()] == b[k]);
    }
}

/// The flattened auto-tile writes target a cell exactly when some rule's
/// own placements do.
proof fn lemma_rule_writes_touch(rules: Seq<AutoTileRule>, c: int)
    ensures
        writes_to_cell(rule_writes(rules), c) <==> exists|i: int|
            0 <= i < rules.len() && writes_to_cell((#[trigger] rules[i]).tiles@, c),
    decreases rules.len(),
{
    if rules.len() > 0 {
        lemma_rule_writes_touch(rules.drop_last(), c);
        lemma_writes_concat(rule_writes(rules.drop_last()), rules.last().tiles@, c);
        let short = rules.drop_last();
        if exists|i: int| 0 <= i < short.len() && writes_to_cell((#[trigger] short[i]).tiles@, c) {
            let i = choose|i: int|
                0 <= i < short.len() && writes_to_cell((#[trigger] short[i]).tiles@, c);
            assert(short[i] == rules[i]);
        }
        if writes_to_cell(rules.last().tiles@, c) {
            assert(rules[rules.len() - 1] == rules.last());
        }
        if exists|i: int| 0 <= i < rules.len() && writes_to_cell((#[trigger] rules[i]).tiles@, c) {
            let i = choose|i: int|
                0 <= i < rules.len() && writes_to_cell((#[trigger] rules[i]).tiles@, c);
            if i < rules.len() - 1 {
                assert(short[i] == rules[i]);
            }
        }
    }
}

/// A layer's write sequence targets a cell exactly when the layer touches
/// it.
pub proof fn lemma_layer_touches(l: LayerInstance, c: int)
    ensures
        writes_to_cell(layer_writes(l), c) <==> layer_touches(l, c),
{
    lemma_writes_concat(rule_writes(l.auto_tiles@), l.grid_tiles@, c);
    lemma_rule_writes_touch(l.auto_tiles@, c);
}

/// A batch leaves a cell alone exactly when none of its writes targets it.
pub proof fn lemma_last_write_none(writes: Seq<GridTile>, c: int)
    ensures
        last_write_to(writes, c) is None <==> !writes_to_cell(writes, c),
    decreases writes.len(),
{
    if writes.len() == 0 {
    } else if writes.last().coord_id as int == c {
        assert(writes_to_cell(writes, c)) by {
            assert((writes[writes.len() - 1]).coord_id as int == c);
        }
    } else {
        lemma_last_write_none(writes.drop_last(), c);
        if writes_to_cell(writes, c) {
            let k = choose|k: int|
                0 <= k < writes.len() && (#[trigger] writes[k]).coord_id as int == c;
            assert(writes.drop_last()[k] == writes[k]);
        } else {
            assert(forall|k: int|
                0 <= k < writes.drop_last().len() ==> (#[trigger] writes.drop_last()[k])
                    == writes[k]);
        }
    }
}

/// Where a cell is written by two different layers, the final value is the
/// one written by whichever writing layer appears earliest in the level's
/// declared layer sequence: here layer `i` writes cell `c` and no earlier
/// layer does, so layer `i` decides the cell.
pub proof fn lemma_first_layer_wins(layers: Seq<LayerInstance>, c: int, i: int)
    requires
        0 <= i < layers.len(),
        layer_touches(layers[i], c),
        forall|j: int| 0 <= j < i ==> !layer_touches(#[trigger] layers[j], c),
    ensures
        composed_cell(layers, c) == applied_cell(layer_writes(layers[i]), c),
    decreases i,
{
    lemma_last_write_concat(level_writes(layers.drop_first()), layer_writes(layers.first()), c);
    lemma_layer_touches(layers[0], c);
    lemma_last_write_none(layer_writes(layers[0]), c);
    if i > 0 {
        assert(last_write_to(layer_writes(layers[0]), c) is None);
        assert(layers.drop_first()[i - 1] == layers[i]);
        assert forall|j: int|
            0 <= j < i - 1 implies !layer_touches(#[trigger] layers.drop_first()[j], c) by {
            assert(layers.drop_first()[j] == layers[j + 1]);
        };
        lemma_first_layer_wins(layers.drop_first(), c, i - 1);
    }
}

/// Within one layer, an explicit grid tile wins over any auto-tile
/// placement at the same cell: where the layer's explicit tiles write `c`,
/// the layer as a whole leaves their value there.
pub proof fn lemma_explicit_tile_wins(l: LayerInstance, c: int)
    requires
        last_write_to(l.grid_tiles@, c) is Some,
    ensures
        last_write_to(layer_writes(l), c) == last_write_to(l.grid_tiles@, c),
{
    lemma_last_write_concat(rule_writes(l.auto_tiles@), l.grid_tiles@, c);
}

/// A cell untouched by every layer keeps the empty state: `is_empty` true,
/// a zero tile id, and a zeroed atlas position.
pub proof fn lemma_untouched_cell_is_empty(layers: Seq<LayerInstance>, c: int)
    requires
        forall|i: int| 0 <= i < layers.len() ==> !layer_touches(#[trigger] layers[i], c),
    ensures
        composed_cell(layers, c) == empty_cell(),
    decreases layers.len(),
{
    if layers.len() > 0 {
        lemma_last_write_concat(
            level_writes(layers.drop_first()),
            layer_writes(layers.first()),
            c,
        );
        lemma_layer_touches(layers[0], c);
        lemma_last_write_none(layer_writes(layers[0]), c);
        assert forall|i: int|
            0 <= i < layers.drop_first().len() implies !layer_touches(
            #[trigger] layers.drop_first()[i],
            c,
        ) by {
            assert(layers.drop_first()[i] == layers[i + 1]);
        };
        lemma_untouched_cell_is_empty(layers.drop_first(), c);
    }
}

/// The state of a grid part-way through composition: still the right shape,
/// and every cell holding exactly what the writes applied so far left there.
spec fn grid_tracks(grid: RenderGrid, done: Seq<GridTile>, cell_count: int, w: usize, h: usize) -> bool {
    &&& grid.tiles@.len() == cell_count
    &&& grid.tile_size == Point(16usize, 16usize)
    &&& grid.grid_size == Point(w, h)
    &&& forall|c: int| 0 <= c < cell_count ==> grid.tiles@[c] == applied_cell(done, c)
}

/// Merging a level's layers down into one dense grid.
pub trait ToRenderGrid {
    /// What the caller must guarantee of the document before composing.
    spec fn compose_pre(&self, level: usize) -> bool;

    /// Exactly what the composer returns, for success and for each failure.
    spec fn compose_post(&self, level: usize, r: Result<RenderGrid, ComposeError>) -> bool;

    /// Creates a render grid with the layers merged down into a single layer.
    /// Excludes entity layers and intgrid layers but includes autotile and
    /// tile layers.
    fn to_merged_render_grid(&self, level: usize) -> (r: Result<RenderGrid, ComposeError>)
        requires
            self.compose_pre(level),
        ensures
            self.compose_post(level, r),
    ;
}

impl ToRenderGrid for Project {
    /// A selectable, non-empty level must be feasible to compose; nothing is
    /// assumed where the composer reports an error instead.
    open spec fn compose_pre(&self, level: usize) -> bool {
        (level < self.levels@.len() && self.levels@[level as int].layer_instances@.len() > 0)
            ==> compose_feasible(self.levels@[level as int])
    }

    /// On success the grid has the first layer's size, 16-by-16-pixel tiles,
    /// and every cell holds the composed value of the level's layers; each
    /// error comes exactly when its condition holds.
    open spec fn compose_post(&self, level: usize, r: Result<RenderGrid, ComposeError>) -> bool {
        match r {
            Ok(grid) => level < self.levels@.len() && {
                let lev = self.levels@[level as int];
                &&& lev.layer_instances@.len() > 0
                &&& grid.tile_size == Point(16usize, 16usize)
                &&& grid.grid_size == Point(
                    lev.layer_instances@[0].grid_width,
                    lev.layer_instances@[0].grid_height,
                )
                &&& grid.tiles@.len() == level_cell_count(lev)
                &&& forall|c: int|
                    0 <= c < grid.tiles@.len() ==> grid.tiles@[c] == composed_cell(
                        lev.layer_instances@,
                        c,
                    )
            },
            Err(e) => match e {
                ComposeError::LevelNotFound { requested, available } => {
                    &&& requested == level
                    &&& available == self.levels.len()
                    &&& level >= self.levels@.len()
                },
                ComposeError::EmptyLevel { requested } => {
                    &&& requested == level
                    &&& level < self.levels@.len()
                    &&& self.levels@[level as int].layer_instances@.len() == 0
                },
            },
        }
    }

    #[verifier::loop_isolation(false)]
    fn to_merged_render_grid(&self, level: usize) -> (r: Result<RenderGrid, ComposeError>) {
        if level >= self.levels.len() {
            return Err(ComposeError::LevelNotFound {
                requested: level,
                available: self.levels.len(),
            });
        }
        let lev = &self.levels[level];
        if lev.layer_instances.len() == 0 {
            return Err(ComposeError::EmptyLevel { requested: level });
        }

        // allocate the render grid from the first layer's declared size
        let first_layer = &lev.layer_instances[0];
        let w = first_layer.grid_width;
        let h = first_layer.grid_height;
        let cell_count = w * h;
        let mut grid = RenderGrid::new(cell_count, Point(16, 16), Point(w, h));

        let ghost layers = lev.layer_instances@;
        let ghost mut done: Seq<GridTile> = Seq::empty();
        let n = lev.layer_instances.len();
        proof {
            assert(layers.subrange(n as int, n as int) =~= Seq::<LayerInstance>::empty());
        }

        // iterate the layers. Run in reverse as we "draw up" the stack
        let mut k: usize = n;
        while k > 0
            invariant
                k <= n,
                done == level_writes(layers.subrange(k as int, n as int)),
                grid_tracks(grid, done, cell_count as int, w, h),
            decreases k,
        {
            k = k - 1;
            let layer = &lev.layer_instances[k];
            let ghost layer_base = done;

            // auto-tile placements first
            let mut ri: usize = 0;
            while ri < layer.auto_tiles.len()
                invariant
                    ri <= layer.auto_tiles@.len(),
                    done == layer_base + rule_writes(layer.auto_tiles@.subrange(0, ri as int)),
                    grid_tracks(grid, done, cell_count as int, w, h),
                decreases layer.auto_tiles@.len() - ri,
            {
                let rule = &layer.auto_tiles[ri];
                let ghost rule_base = done;
                proof {
                    assert(layer.auto_tiles@.subrange(0, ri as int + 1).drop_last() =~= layer
                        .auto_tiles@
                        .subrange(0, ri as int));
                }
                let mut ti: usize = 0;
                while ti < rule.tiles.len()
                    invariant
                        ti <= rule.tiles@.len(),
                        done == rule_base + rule.tiles@.subrange(0, ti as int),
                        grid_tracks(grid, done, cell_count as int, w, h),
                    decreases rule.tiles@.len() - ti,
                {
                    let tile = &rule.tiles[ti];
                    proof {
                        assert(layer_bounded(layers[k as int], cell_count as int));
                        assert(tiles_bounded(rule.tiles@, cell_count as int));
                        assert((rule.tiles@[ti as int]).coord_id < cell_count);
                    }
                    let ghost old_tiles = grid.tiles@;
                    grid.tiles[tile.coord_id] = RenderCell {
                        is_empty: false,
                        tile_id: tile.tile_id,
                        atlas_pos: Point(tile.tile_x, tile.tile_y),
                    };
                    proof {
                        let t = rule.tiles@[ti as int];
                        let prev = done;
                        done = done.push(t);
                        assert forall|c: int| 0 <= c < cell_count implies grid.tiles@[c]
                            == applied_cell(done, c) by {
                            lemma_last_write_push(prev, t, c);
                            assert(old_tiles[c] == applied_cell(prev, c));
                            assert(grid.tiles@ == old_tiles.update(
                                t.coord_id as int,
                                cell_of_tile(t),
                            ));
                        };
                        assert(done =~= rule_base + rule.tiles@.subrange(0, ti as int + 1)) by {
                            assert(rule.tiles@.subrange(0, ti as int + 1) =~= rule
                                .tiles@
                                .subrange(0, ti as int)
                                .push(t));
                        };
                    }
                    ti = ti + 1;
                }
                proof {
                    assert(rule.tiles@.subrange(0, rule.tiles@.len() as int) =~= rule.tiles@);
                    assert(done =~= layer_base + rule_writes(
                        layer.auto_tiles@.subrange(0, ri as int + 1),
                    )) by {
                        assert(layer.auto_tiles@.subrange(0, ri as int + 1).last() == layer
                            .auto_tiles@[ri as int]);
                    };
                }
                ri = ri + 1;
            }
            proof {
                assert(layer.auto_tiles@.subrange(0, layer.auto_tiles@.len() as int) =~= layer
                    .auto_tiles@);
            }

            // then the explicit grid tiles of the same layer
            let ghost tiles_base = done;
            let mut gi: usize = 0;
            while gi < layer.grid_tiles.len()
                invariant
                    gi <= layer.grid_tiles@.len(),
                    done == tiles_base + layer.grid_tiles@.subrange(0, gi as int),
                    grid_tracks(grid, done, cell_count as int, w, h),
                decreases layer.grid_tiles@.len() - gi,
            {
                let tile = &layer.grid_tiles[gi];
                proof {
                    assert(layer_bounded(layers[k as int], cell_count as int));
                    assert((layer.grid_tiles@[gi as int]).coord_id < cell_count);
                }
                let ghost old_tiles = grid.tiles@;
                grid.tiles[tile.coord_id] = RenderCell {
                    is_empty: false,
                    tile_id: tile.tile_id,
                    atlas_pos: Point(tile.tile_x, tile.tile_y),
                };
                proof {
                    let t = layer.grid_tiles@[gi as int];
                    let prev = done;
                    done = done.push(t);
                    assert forall|c: int| 0 <= c < cell_count implies grid.tiles@[c]
                        == applied_cell(done, c) by {
                        lemma_last_write_push(prev, t, c);
                        assert(old_tiles[c] == applied_cell(prev, c));
                        assert(grid.tiles@ == old_tiles.update(
                            t.coord_id as int,
                            cell_of_tile(t),
                        ));
                    };
                    assert(done =~= tiles_base + layer.grid_tiles@.subrange(0, gi as int + 1)) by {
                        assert(layer.grid_tiles@.subrange(0, gi as int + 1) =~= layer
                            .grid_tiles@
                            .subrange(0, gi as int)
                            .push(t));
                    };
                }
                gi = gi + 1;
            }
            proof {
                assert(layer.grid_tiles@.subrange(0, layer.grid_tiles@.len() as int) =~= layer
                    .grid_tiles@);
                assert(done =~= layer_base + layer_writes(layers[k as int]));
                assert(layers.subrange(k as int, n as int).drop_first() =~= layers.subrange(
                    k as int + 1,
                    n as int,
                ));
                assert(layers.subrange(k as int, n as int).first() == layers[k as int]);
                assert(done == level_writes(layers.subrange(k as int, n as int)));
            }
        }
        proof {
            assert(layers.subrange(0, n as int) =~= layers);
        }
        Ok(grid)
    }
}

/// Composition is deterministic: two results of composing the same level of
/// the same project agree — equal grid contents on success, equal errors on
/// failure, and never one of each.
pub proof fn lemma_compose_deterministic(
    p: &Project,
    level: usize,
    r1: Result<RenderGrid, ComposeError>,
    r2: Result<RenderGrid, ComposeError>,
)
    requires
        p.compose_post(level, r1),
        p.compose_post(level, r2),
    ensures
        match (r1, r2) {
            (Ok(g1), Ok(g2)) => {
                &&& g1.tiles@ == g2.tiles@
                &&& g1.tile_size == g2.tile_size
                &&& g1.grid_size == g2.grid_size
            },
            (Err(e1), Err(e2)) => e1 == e2,
            _ => false,
        },
{
    if let (Ok(g1), Ok(g2)) = (r1, r2) {
        assert(g1.tiles@ =~= g2.tiles@);
    }
}

} // verus!

