//! The tile map: a rectangular grid of small integers, `0` for open floor.
use vstd::prelude::*;

verus! {

/// Largest width or height of a map, in cells.
pub const MAX_DIM: usize = 1024;

/// A grid given column by column: `grid[x][y]` is the tile at cell `(x, y)`.
pub open spec fn grid_rectangular(grid: Seq<Seq<u8>>) -> bool {
    &&& 1 <= grid.len() <= MAX_DIM
    &&& 1 <= grid[0].len() <= MAX_DIM
    &&& forall|x: int| 0 <= x < grid.len() ==> #[trigger] grid[x].len() == grid[0].len()
}

/// Whether a cell of the grid lies on its outer edge.
pub open spec fn on_border(w: int, h: int, x: int, y: int) -> bool {
    x == 0 || y == 0 || x == w - 1 || y == h - 1
}

/// Every cell on the outer edge of the grid is a wall.
pub open spec fn grid_border_solid(grid: Seq<Seq<u8>>) -> bool {
    forall|x: int, y: int|
        0 <= x < grid.len() && 0 <= y < grid[x].len() && on_border(
            grid.len() as int,
            grid[0].len() as int,
            x,
            y,
        ) ==> #[trigger] grid[x][y] != 0
}

/// The view of a grid held as nested vectors.
pub open spec fn grid_of(data: Seq<Vec<u8>>) -> Seq<Seq<u8>> {
    data.map_values(|c: Vec<u8>| c@)
}

/// The tiles of the map the game starts in, column by column.
pub open spec fn default_grid() -> Seq<Seq<u8>> {
    seq![
        seq![8, 8, 8, 8, 8, 8, 8, 8, 8, 8, 8, 4, 4, 6, 4, 4, 6, 4, 6, 4, 4, 4, 6, 4],
        seq![8, 0, 0, 0, 0, 0, 0, 0, 0, 0, 8, 4, 0, 0, 0, 0, 0, 0, 0, 0, 0, 0, 0, 4],
        seq![8, 0, 3, 3, 0, 0, 0, 0, 0, 8, 8, 4, 0, 0, 0, 0, 0, 0, 0, 0, 0, 0, 0, 6],
        seq![8, 0, 0, 3, 0, 0, 0, 0, 0, 0, 0, 0, 0, 0, 0, 0, 0, 0, 0, 0, 0, 0, 0, 6],
        seq![8, 0, 3, 3, 0, 0, 0, 0, 0, 8, 8, 4, 0, 0, 0, 0, 0, 0, 0, 0, 0, 0, 0, 4],
        seq![8, 0, 0, 0, 0, 0, 0, 0, 0, 0, 8, 4, 0, 0, 0, 0, 0, 6, 6, 6, 0, 6, 4, 6],
        seq![8, 8, 8, 8, 0, 8, 8, 8, 8, 8, 8, 4, 4, 4, 4, 4, 4, 6, 0, 0, 0, 0, 0, 6],
        seq![7, 7, 7, 7, 0, 7, 7, 7, 7, 0, 8, 0, 8, 0, 8, 0, 8, 4, 0, 4, 0, 6, 0, 6],
        seq![7, 7, 0, 0, 0, 0, 0, 0, 7, 8, 0, 8, 0, 8, 0, 8, 8, 6, 0, 0, 0, 0, 0, 6],
        seq![7, 0, 0, 0, 0, 0, 0, 0, 0, 0, 0, 0, 0, 0, 0, 0, 8, 6, 0, 0, 0, 0, 0, 4],
        seq![7, 0, 0, 0, 0, 0, 0, 0, 0, 0, 0, 0, 0, 0, 0, 0, 8, 6, 0, 6, 0, 6, 0, 6],
        seq![7, 7, 0, 0, 0, 0, 0, 0, 7, 8, 0, 8, 0, 8, 0, 8, 8, 6, 4, 6, 0, 6, 6, 6],
        seq![7, 7, 7, 7, 0, 7, 7, 7, 7, 8, 8, 4, 0, 6, 8, 4, 8, 3, 3, 3, 0, 3, 3, 3],
        seq![2, 2, 2, 2, 0, 2, 2, 2, 2, 4, 6, 4, 0, 0, 6, 0, 6, 3, 0, 0, 0, 0, 0, 3],
        seq![2, 2, 0, 0, 0, 0, 0, 2, 2, 4, 0, 0, 0, 0, 0, 0, 4, 3, 0, 0, 0, 0, 0, 3],
        seq![2, 0, 0, 0, 0, 0, 0, 0, 2, 4, 0, 0, 0, 0, 0, 0, 4, 3, 0, 0, 0, 0, 0, 3],
        seq![1, 0, 0, 0, 0, 0, 0, 0, 1, 4, 4, 4, 4, 4, 6, 0, 6, 3, 3, 0, 0, 0, 3, 3],
        seq![2, 0, 0, 0, 0, 0, 0, 0, 2, 2, 2, 1, 2, 2, 2, 6, 6, 0, 0, 5, 0, 5, 0, 5],
        seq![2, 2, 0, 0, 0, 0, 0, 2, 2, 2, 0, 0, 0, 2, 2, 0, 5, 0, 5, 0, 0, 0, 5, 5],
        seq![2, 0, 0, 0, 0, 0, 0, 0, 2, 0, 0, 0, 0, 0, 2, 5, 0, 5, 0, 5, 0, 5, 0, 5],
        seq![1, 0, 0, 0, 0, 0, 0, 0, 0, 0, 0, 0, 0, 0, 0, 0, 0, 0, 0, 0, 0, 0, 0, 5],
        seq![2, 0, 0, 0, 0, 0, 0, 0, 2, 0, 0, 0, 0, 0, 2, 5, 0, 5, 0, 5, 0, 5, 0, 5],
        seq![2, 2, 0, 0, 0, 0, 0, 2, 2, 2, 0, 0, 0, 2, 2, 0, 5, 0, 5, 0, 0, 0, 5, 5],
        seq![2, 2, 2, 2, 1, 2, 2, 2, 2, 2, 2, 1, 2, 2, 2, 5, 5, 5, 5, 5, 5, 5, 5, 5],
    ]
}

/// Why a grid cannot be used as a map.
#[derive(Clone, Copy, Debug, PartialEq, Eq, Structural)]
pub enum MapError {
    /// The grid has no columns, or its first column has no cells.
    Empty,
    /// The grid is wider or taller than `MAX_DIM`.
    TooLarge,
    /// The columns do not all have the same length.
    Ragged,
    /// A cell on the outer edge is open floor.
    OpenBorder,
}

/// The error that `TileMap::from_columns` reports for a grid, if any.
pub open spec fn grid_error(grid: Seq<Seq<u8>>) -> Option<MapError> {
    if grid.len() == 0 || grid[0].len() == 0 {
        Some(MapError::Empty)
    } else if grid.len() > MAX_DIM || grid[0].len() > MAX_DIM {
        Some(MapError::TooLarge)
    } else if !grid_rectangular(grid) {
        Some(MapError::Ragged)
    } else if !grid_border_solid(grid) {
        Some(MapError::OpenBorder)
    } else {
        None
    }
}

/// A fixed grid of tiles. `data[x][y]` is the tile at cell `(x, y)`.
pub struct TileMap {
    pub width: usize,
    pub height: usize,
    pub data: Vec<Vec<u8>>,
}

impl TileMap {
    pub open spec fn grid(&self) -> Seq<Seq<u8>> {
        grid_of(self.data@)
    }

    pub open spec fn wf(&self) -> bool {
        &&& grid_rectangular(self.grid())
        &&& self.width == self.data@.len()
        &&& self.height == self.data@[0]@.len()
    }

    pub open spec fn in_bounds(&self, x: int, y: int) -> bool {
        0 <= x < self.width && 0 <= y < self.height
    }

    /// A cell of the map that is not on its outer edge.
    pub open spec fn interior(&self, x: int, y: int) -> bool {
        0 < x < self.width - 1 && 0 < y < self.height - 1
    }

    pub open spec fn tile(&self, x: int, y: int) -> u8 {
        self.data@[x]@[y]
    }

    /// A cell that stops rays and movement: a wall, or anywhere off the map.
    pub open spec fn solid(&self, x: int, y: int) -> bool {
        !self.in_bounds(x, y) || self.tile(x, y) != 0
    }

    pub open spec fn border_solid(&self) -> bool {
        grid_border_solid(self.grid())
    }

    /// On a map walled all round, an open cell is not on the outer edge.
    pub proof fn lemma_open_is_interior(&self, x: int, y: int)
        requires
            self.wf(),
            self.border_solid(),
            !self.solid(x, y),
        ensures
            0 < x < self.width - 1,
            0 < y < self.height - 1,
    {
        let g = self.grid();
        assert(g[x] == self.data@[x]@);
        if on_border(g.len() as int, g[0].len() as int, x, y) {
            assert(g[x][y] != 0);
        }
    }

    /// The tile at `(x, y)`, or `None` off the map.
    pub fn tile_at(&self, x: i64, y: i64) -> (r: Option<u8>)
        requires
            self.wf(),
        ensures
            r == (if self.in_bounds(x as int, y as int) {
                Some(self.tile(x as int, y as int))
            } else {
                None
            }),
    {
        if x < 0 || y < 0 || x >= self.width as i64 || y >= self.height as i64 {
            return None;
        }
        proof {
            assert(self.grid()[x as int] == self.data@[x as int]@);
        }
        Some(self.data[x as usize][y as usize])
    }

    /// Whether a cell at `(x, y)` can be walked through: on the map and open.
    pub fn is_open(&self, x: i64, y: i64) -> (r: bool)
        requires
            self.wf(),
        ensures
            r == !self.solid(x as int, y as int),
    {
        match self.tile_at(x, y) {
            Some(t) => !is_wall(t),
            None => false,
        }
    }

    /// Builds a map from its columns, refusing a grid that is empty, too
    /// large, ragged, or open on its outer edge.
    pub fn from_columns(data: Vec<Vec<u8>>) -> (r: Result<TileMap, MapError>)
        ensures
            match r {
                Ok(m) => grid_error(grid_of(data@)) is None && m.wf() && m.border_solid()
                    && m.grid() == grid_of(data@),
                Err(e) => grid_error(grid_of(data@)) == Some(e),
            },
    {
        let ghost g = grid_of(data@);
        if data.len() == 0 || data[0].len() == 0 {
            return Err(MapError::Empty);
        }
        let w = data.len();
        let h = data[0].len();
        assert(g[0] == data@[0]@);
        if w > MAX_DIM || h > MAX_DIM {
            return Err(MapError::TooLarge);
        }
        let mut x: usize = 0;
        while x < w
            invariant
                g == grid_of(data@),
                w == g.len(),
                h == g[0].len(),
                1 <= w <= MAX_DIM,
                1 <= h <= MAX_DIM,
                0 <= x <= w,
                forall|i: int| 0 <= i < x ==> #[trigger] g[i].len() == h,
            decreases w - x,
        {
            assert(g[x as int] == data@[x as int]@);
            if data[x].len() != h {
                assert(!grid_rectangular(g)) by {
                    assert(g[x as int].len() != g[0].len());
                }
                return Err(MapError::Ragged);
            }
            x = x + 1;
        }
        assert(grid_rectangular(g));
        let mut x: usize = 0;
        while x < w
            invariant
                g == grid_of(data@),
                grid_rectangular(g),
                w == g.len(),
                h == g[0].len(),
                1 <= w <= MAX_DIM,
                1 <= h <= MAX_DIM,
                0 <= x <= w,
                forall|i: int, j: int|
                    0 <= i < x && 0 <= j < h && on_border(w as int, h as int, i, j)
                        ==> #[trigger] g[i][j] != 0,
            decreases w - x,
        {
            let mut y: usize = 0;
            while y < h
                invariant
                    g == grid_of(data@),
                    grid_rectangular(g),
                    w == g.len(),
                    h == g[0].len(),
                1 <= w <= MAX_DIM,
                1 <= h <= MAX_DIM,
                    0 <= x < w,
                    0 <= y <= h,
                    forall|i: int, j: int|
                        0 <= i < x && 0 <= j < h && on_border(w as int, h as int, i, j)
                            ==> #[trigger] g[i][j] != 0,
                    forall|j: int|
                        0 <= j < y && on_border(w as int, h as int, x as int, j)
                            ==> #[trigger] g[x as int][j] != 0,
                decreases h - y,
            {
                assert(g[x as int] == data@[x as int]@);
                if on_border_exec(w, h, x, y) && data[x][y] == 0 {
                    assert(!grid_border_solid(g)) by {
                        assert(g[x as int][y as int] == 0);
                    }
                    return Err(MapError::OpenBorder);
                }
                y = y + 1;
            }
            x = x + 1;
        }
        Ok(TileMap { width: w, height: h, data })
    }

    /// The map the game starts in: 24 by 24 cells, walled all round.
    pub fn new() -> (r: TileMap)
        ensures
            r.wf(),
            r.width == 24,
            r.height == 24,
            r.grid() == default_grid(),
            r.tile(22, 12) == 0,
            r.border_solid(),
    {
        let data: Vec<Vec<u8>> = vec![
            vec![8, 8, 8, 8, 8, 8, 8, 8, 8, 8, 8, 4, 4, 6, 4, 4, 6, 4, 6, 4, 4, 4, 6, 4],
            vec![8, 0, 0, 0, 0, 0, 0, 0, 0, 0, 8, 4, 0, 0, 0, 0, 0, 0, 0, 0, 0, 0, 0, 4],
            vec![8, 0, 3, 3, 0, 0, 0, 0, 0, 8, 8, 4, 0, 0, 0, 0, 0, 0, 0, 0, 0, 0, 0, 6],
            vec![8, 0, 0, 3, 0, 0, 0, 0, 0, 0, 0, 0, 0, 0, 0, 0, 0, 0, 0, 0, 0, 0, 0, 6],
            vec![8, 0, 3, 3, 0, 0, 0, 0, 0, 8, 8, 4, 0, 0, 0, 0, 0, 0, 0, 0, 0, 0, 0, 4],
            vec![8, 0, 0, 0, 0, 0, 0, 0, 0, 0, 8, 4, 0, 0, 0, 0, 0, 6, 6, 6, 0, 6, 4, 6],
            vec![8, 8, 8, 8, 0, 8, 8, 8, 8, 8, 8, 4, 4, 4, 4, 4, 4, 6, 0, 0, 0, 0, 0, 6],
            vec![7, 7, 7, 7, 0, 7, 7, 7, 7, 0, 8, 0, 8, 0, 8, 0, 8, 4, 0, 4, 0, 6, 0, 6],
            vec![7, 7, 0, 0, 0, 0, 0, 0, 7, 8, 0, 8, 0, 8, 0, 8, 8, 6, 0, 0, 0, 0, 0, 6],
            vec![7, 0, 0, 0, 0, 0, 0, 0, 0, 0, 0, 0, 0, 0, 0, 0, 8, 6, 0, 0, 0, 0, 0, 4],
            vec![7, 0, 0, 0, 0, 0, 0, 0, 0, 0, 0, 0, 0, 0, 0, 0, 8, 6, 0, 6, 0, 6, 0, 6],
            vec![7, 7, 0, 0, 0, 0, 0, 0, 7, 8, 0, 8, 0, 8, 0, 8, 8, 6, 4, 6, 0, 6, 6, 6],
            vec![7, 7, 7, 7, 0, 7, 7, 7, 7, 8, 8, 4, 0, 6, 8, 4, 8, 3, 3, 3, 0, 3, 3, 3],
            vec![2, 2, 2, 2, 0, 2, 2, 2, 2, 4, 6, 4, 0, 0, 6, 0, 6, 3, 0, 0, 0, 0, 0, 3],
            vec![2, 2, 0, 0, 0, 0, 0, 2, 2, 4, 0, 0, 0, 0, 0, 0, 4, 3, 0, 0, 0, 0, 0, 3],
            vec![2, 0, 0, 0, 0, 0, 0, 0, 2, 4, 0, 0, 0, 0, 0, 0, 4, 3, 0, 0, 0, 0, 0, 3],
            vec![1, 0, 0, 0, 0, 0, 0, 0, 1, 4, 4, 4, 4, 4, 6, 0, 6, 3, 3, 0, 0, 0, 3, 3],
            vec![2, 0, 0, 0, 0, 0, 0, 0, 2, 2, 2, 1, 2, 2, 2, 6, 6, 0, 0, 5, 0, 5, 0, 5],
            vec![2, 2, 0, 0, 0, 0, 0, 2, 2, 2, 0, 0, 0, 2, 2, 0, 5, 0, 5, 0, 0, 0, 5, 5],
            vec![2, 0, 0, 0, 0, 0, 0, 0, 2, 0, 0, 0, 0, 0, 2, 5, 0, 5, 0, 5, 0, 5, 0, 5],
            vec![1, 0, 0, 0, 0, 0, 0, 0, 0, 0, 0, 0, 0, 0, 0, 0, 0, 0, 0, 0, 0, 0, 0, 5],
            vec![2, 0, 0, 0, 0, 0, 0, 0, 2, 0, 0, 0, 0, 0, 2, 5, 0, 5, 0, 5, 0, 5, 0, 5],
            vec![2, 2, 0, 0, 0, 0, 0, 2, 2, 2, 0, 0, 0, 2, 2, 0, 5, 0, 5, 0, 0, 0, 5, 5],
            vec![2, 2, 2, 2, 1, 2, 2, 2, 2, 2, 2, 1, 2, 2, 2, 5, 5, 5, 5, 5, 5, 5, 5, 5],
        ];
        let ghost g = grid_of(data@);
        assert(forall|x: int| 0 <= x < 24 ==> #[trigger] g[x].len() == 24);
        assert(data@[22]@[12] == 0);
        assert forall|y: int| 0 <= y < 24 implies #[trigger] g[0][y] != 0 && g[23][y] != 0 by {
            assert(g[0] == data@[0]@);
            assert(g[23] == data@[23]@);
        }
        assert forall|x: int| 0 <= x < 24 implies #[trigger] g[x][0] != 0 && g[x][23] != 0 by {
            assert(g[x] == data@[x]@);
        }
        assert(grid_border_solid(g));
        assert(g =~~= default_grid());
        TileMap { width: 24, height: 24, data }
    }
}

fn on_border_exec(w: usize, h: usize, x: usize, y: usize) -> (r: bool)
    requires
        w >= 1,
        h >= 1,
    ensures
        r == on_border(w as int, h as int, x as int, y as int),
{
    x == 0 || y == 0 || x == w - 1 || y == h - 1
}

/// Whether a tile is a wall: every tile but `0` is.
pub fn is_wall(tile: u8) -> (r: bool)
    ensures
        r == (tile != 0),
{
    tile != 0
}

} // verus!
