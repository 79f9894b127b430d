//! The level grid: a rectangle of tiles with solidity queries.
//!
//! The tiles are stored in a `grid::Grid`. Verus does not look inside that
//! type, so this file names what a grid holds (`grid_cells`) and states, for
//! each grid operation the crate uses, what it does to those contents.

use vstd::prelude::*;
use grid::Grid;
use crate::tile::Tile;

verus! {

#[verifier::external_type_specification]
#[verifier::external_body]
#[verifier::reject_recursive_types(T)]
pub struct ExGrid<T>(Grid<T>);

/// The rows of a grid from row 0 on, each row from column 0 on.
pub uninterp spec fn grid_cells(g: Grid<Tile>) -> Seq<Seq<Tile>>;

/// Number of rows.
pub open spec fn grid_height(cells: Seq<Seq<Tile>>) -> nat {
    cells.len()
}

/// Number of columns: the length of the first row, 0 without rows.
pub open spec fn grid_width(cells: Seq<Seq<Tile>>) -> nat {
    if cells.len() == 0 {
        0
    } else {
        cells[0].len()
    }
}

/// All rows have the same length.
pub open spec fn rectangular(cells: Seq<Seq<Tile>>) -> bool {
    forall|y: int| 0 <= y < cells.len() ==> (#[trigger] cells[y]).len() == grid_width(cells)
}

/// `(x, y)` names a cell of the grid: column `x` of row `y`.
pub open spec fn in_bounds(cells: Seq<Seq<Tile>>, x: int, y: int) -> bool {
    0 <= y < cells.len() && 0 <= x < cells[y].len()
}

/// Whether movement is blocked at `(x, y)`. Everything outside the grid is
/// solid, so nothing can leave the map.
pub open spec fn solid_at(cells: Seq<Seq<Tile>>, x: int, y: int) -> bool {
    !in_bounds(cells, x, y) || cells[y][x].solid()
}

/// The grid with the cell `(x, y)` replaced by `tile`.
pub open spec fn with_tile(cells: Seq<Seq<Tile>>, x: int, y: int, tile: Tile) -> Seq<Seq<Tile>> {
    cells.update(y, cells[y].update(x, tile))
}

/// A grid of `width` columns and `height` rows filled with `Tile::Void`;
/// the empty grid when either is 0.
pub open spec fn blank_cells(width: nat, height: nat) -> Seq<Seq<Tile>> {
    if width == 0 || height == 0 {
        Seq::empty()
    } else {
        Seq::new(height, |y: int| Seq::new(width, |x: int| Tile::Void))
    }
}

/// `Grid::new(rows, cols)`: a grid of `rows` rows and `cols` columns in which
/// every cell is `Tile::default()`, that is `Tile::Void`; with `rows` or
/// `cols` zero the grid has no rows at all. The call panics when
/// `rows * cols` does not fit in `usize`, which `requires` rules out.
#[verifier::external_body]
fn grid_new(rows: usize, cols: usize) -> (g: Grid<Tile>)
    requires
        rows * cols <= usize::MAX,
    ensures
        grid_cells(g) == blank_cells(cols as nat, rows as nat),
{
    Grid::new(rows, cols)
}

/// `Grid::rows`: the number of rows.
#[verifier::external_body]
fn grid_rows(g: &Grid<Tile>) -> (n: usize)
    ensures
        n == grid_height(grid_cells(*g)),
{
    g.rows()
}

/// `Grid::cols`: the number of columns, which is the length of every row.
/// It is asked of a grid with rows only: a grid without rows has no row to
/// measure, and what the call gives there is left open.
#[verifier::external_body]
fn grid_cols(g: &Grid<Tile>) -> (n: usize)
    requires
        grid_height(grid_cells(*g)) > 0,
    ensures
        n == grid_width(grid_cells(*g)),
{
    g.cols()
}

/// `grid[row][col]` read: the cell in row `row`, column `col`. Indexing
/// panics outside the grid, which `requires` rules out.
#[verifier::external_body]
fn grid_get(g: &Grid<Tile>, row: usize, col: usize) -> (t: Tile)
    requires
        in_bounds(grid_cells(*g), col as int, row as int),
    ensures
        t == grid_cells(*g)[row as int][col as int],
{
    g[row][col]
}

/// `grid[row][col] = tile`: replaces that one cell and no other. Indexing
/// panics outside the grid, which `requires` rules out.
#[verifier::external_body]
fn grid_set(g: &mut Grid<Tile>, row: usize, col: usize, tile: Tile)
    requires
        in_bounds(grid_cells(*old(g)), col as int, row as int),
    ensures
        grid_cells(*final(g)) == with_tile(grid_cells(*old(g)), col as int, row as int, tile),
    no_unwind
{
    g[row][col] = tile;
}

/// Integer position of a tile: column `x`, row `y`.
#[derive(Copy, Clone, PartialEq, Eq, Structural, Debug)]
pub struct Coords {
    pub x: i32,
    pub y: i32,
}

impl Coords {
    pub fn new(x: i32, y: i32) -> (c: Coords)
        ensures
            c == (Coords { x, y }),
    {
        Coords { x, y }
    }
}

/// The tile grid of one level.
///
/// Its view is the sequence of rows. Every map is rectangular and at most
/// 65535 tiles wide and high, so tile coordinates always fit in `i32`.
pub struct TileMap {
    tiles: Grid<Tile>,
}

impl View for TileMap {
    type V = Seq<Seq<Tile>>;

    closed spec fn view(&self) -> Seq<Seq<Tile>> {
        grid_cells(self.tiles)
    }
}

/// What holds of the view of every map.
pub open spec fn map_shaped(cells: Seq<Seq<Tile>>) -> bool {
    &&& rectangular(cells)
    &&& grid_width(cells) <= u16::MAX
    &&& grid_height(cells) <= u16::MAX
}

impl TileMap {
    /// Holds of every map, at all times.
    #[verifier::type_invariant]
    pub open spec fn shaped(self) -> bool {
        map_shaped(self@)
    }

    /// A map of `width` by `height` tiles, all `Tile::Void`.
    pub fn new(width: u16, height: u16) -> (map: TileMap)
        ensures
            map@ == blank_cells(width as nat, height as nat),
            map_shaped(map@),
    {
        assert(width as usize * height as usize <= usize::MAX) by (nonlinear_arith)
            requires
                width <= 0xffff,
                height <= 0xffff,
                usize::MAX >= 0xffff_ffff,
        ;
        let tiles = grid_new(height as usize, width as usize);
        TileMap { tiles }
    }

    /// Number of columns.
    pub fn width(&self) -> (w: i32)
        ensures
            w == grid_width(self@),
            map_shaped(self@),
    {
        proof {
            use_type_invariant(self);
        }
        if grid_rows(&self.tiles) == 0 {
            0
        } else {
            grid_cols(&self.tiles) as i32
        }
    }

    /// Number of rows.
    pub fn height(&self) -> (h: i32)
        ensures
            h == grid_height(self@),
            map_shaped(self@),
    {
        proof {
            use_type_invariant(self);
        }
        grid_rows(&self.tiles) as i32
    }

    /// Whether the tile at `(x, y)` blocks movement; true for every
    /// position outside the grid.
    pub fn is_solid(&self, x: i32, y: i32) -> (b: bool)
        ensures
            b == solid_at(self@, x as int, y as int),
            !in_bounds(self@, x as int, y as int) ==> b,
    {
        proof {
            use_type_invariant(self);
        }
        if y >= 0 && y < grid_rows(&self.tiles) as i32 && x >= 0 && x < grid_cols(&self.tiles) as i32 {
            grid_get(&self.tiles, y as usize, x as usize).is_solid()
        } else {
            true
        }
    }

    /// The tile at `(x, y)`, which must lie inside the grid.
    pub fn tile(&self, x: i32, y: i32) -> (t: Tile)
        requires
            in_bounds(self@, x as int, y as int),
        ensures
            t == self@[y as int][x as int],
    {
        grid_get(&self.tiles, y as usize, x as usize)
    }

    /// Replaces the tile at `(x, y)`, which must lie inside the grid.
    pub fn set_tile(&mut self, x: i32, y: i32, tile: Tile)
        requires
            in_bounds(old(self)@, x as int, y as int),
        ensures
            final(self)@ == with_tile(old(self)@, x as int, y as int, tile),
            map_shaped(final(self)@),
    {
        proof {
            use_type_invariant(&*self);
        }
        grid_set(&mut self.tiles, y as usize, x as usize, tile);
    }
}

} // verus!
