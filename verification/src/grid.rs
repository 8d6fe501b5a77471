//! The world grid: a square field of tiles addressed by column and row.
//!
//! Tiles live in one vector, column after column, so the tile in column
//! `col` and row `row` of a grid of side `size` has index `col * size + row`.
//! Neighbors are recorded as such indices.  The grid is centred on the
//! origin: the tile at index `(col, row)` has position
//! `(col - size / 2, row - size / 2)`.

use vstd::prelude::*;
use vstd::arithmetic::div_mod::lemma_fundamental_div_mod_converse;
use crate::direction::Direction;
use rand::rngs::StdRng;
use crate::display::{DisplayQueue, DisplayRequest};
use crate::random::draw_below;
use crate::tile::{Tile, TileView};
use crate::tile_type::{TileType, TileTypeView};

verus! {

/// Side length of the world the game starts with.
pub const GRIDSIZE: usize = 512;

/// Side length of the square cells that each receive one ore vein.
pub const ORE_SPACING: usize = 32;

/// Longest random walk a vein makes from its first tile.
pub const VEIN_STEPS: usize = 32;

/// Index of the tile in column `col` and row `row`.
pub open spec fn flat_index(size: nat, col: nat, row: nat) -> nat {
    col * size + row
}

/// Column of the tile at index `idx`.
pub open spec fn column_of(size: nat, idx: int) -> nat {
    (idx / size as int) as nat
}

/// Row of the tile at index `idx`.
pub open spec fn row_of(size: nat, idx: int) -> nat {
    (idx % size as int) as nat
}

/// World position of the tile in column `col` and row `row`.
pub open spec fn position_of(size: nat, col: nat, row: nat) -> (i32, i32) {
    ((col - size / 2) as i32, (row - size / 2) as i32)
}

/// Column and row reached by one step in direction `d` from column `col`,
/// row `row`, or `None` where that step leaves the grid.
pub open spec fn step_from(size: nat, col: nat, row: nat, d: Direction) -> Option<(nat, nat)> {
    let c = col + d.spec_delta().0;
    let r = row + d.spec_delta().1;
    if 0 <= c < size && 0 <= r < size {
        Some((c as nat, r as nat))
    } else {
        None
    }
}

/// Index of the tile one step in direction `d` from column `col`, row `row`,
/// or `None` where that step leaves the grid.
pub open spec fn neighbor_of(size: nat, col: nat, row: nat, d: Direction) -> Option<usize> {
    match step_from(size, col, row, d) {
        Some((c, r)) => Some(flat_index(size, c, r) as usize),
        None => None,
    }
}

/// The neighbor list of the tile in column `col` and row `row`.
pub open spec fn links(size: nat, col: nat, row: nat) -> Seq<Option<usize>> {
    Seq::new(4, |k: int| neighbor_of(size, col, row, Direction::spec_from_index(k as usize)))
}

/// The tile at index `idx` of a newly allocated grid before it is linked.
pub open spec fn bare_at(size: nat, idx: int) -> TileView {
    TileView::bare(position_of(size, column_of(size, idx), row_of(size, idx)))
}

/// The tile at index `idx` of a newly allocated grid: bare, and linked.
pub open spec fn fresh_at(size: nat, idx: int) -> TileView {
    TileView {
        pos: position_of(size, column_of(size, idx), row_of(size, idx)),
        stack: Seq::empty(),
        neighbors: links(size, column_of(size, idx), row_of(size, idx)),
    }
}

/// Model of a [`Grid`].
pub struct GridView {
    pub size: nat,
    pub tiles: Seq<TileView>,
}

impl GridView {
    /// The grid is square, every tile sits at the position its index
    /// dictates and is linked to its in-bounds neighbors, and every stack is
    /// ordered.
    pub open spec fn wf(self) -> bool {
        &&& self.size <= i32::MAX
        &&& self.size * self.size <= usize::MAX
        &&& self.tiles.len() == self.size * self.size
        &&& forall|k: int|
            0 <= k < self.tiles.len() ==> {
                let t = #[trigger] self.tiles[k];
                &&& t.ordered()
                &&& t.pos == fresh_at(self.size, k).pos
                &&& t.neighbors == fresh_at(self.size, k).neighbors
            }
    }

    /// A newly allocated grid: all tiles bare and linked.
    pub open spec fn fresh(size: nat) -> GridView {
        GridView { size, tiles: Seq::new(size * size, |k: int| fresh_at(size, k)) }
    }
}

/// A grid together with the display queue that shows it.
pub struct World {
    pub grid: GridView,
    pub requests: Seq<DisplayRequest>,
}

/// One ore vein: the ore it is made of and the tiles it visits, in order.
pub struct Vein {
    pub ore: TileTypeView,
    pub path: Seq<int>,
}

impl World {
    /// A newly allocated grid of side `size` beside a display queue that
    /// already holds `requests`.
    pub open spec fn fresh(size: nat, requests: Seq<DisplayRequest>) -> World {
        World { grid: GridView::fresh(size), requests }
    }

    /// The world after a push of `t` on the tile at index `idx`.
    pub open spec fn place(self, idx: int, t: TileTypeView, rot: u8) -> World {
        let p = self.grid.tiles[idx].push(self.requests, t, rot);
        World {
            grid: GridView { size: self.grid.size, tiles: self.grid.tiles.update(idx, p.tile) },
            requests: p.requests,
        }
    }

    /// The world after the starting layout is placed around the centre: a
    /// printer in the middle, a wire extruder on ore on three sides of it,
    /// and a worker on the fourth.
    pub open spec fn seeded(self) -> World {
        let n = self.grid.size;
        let c = n / 2;
        let east = flat_index(n, c + 1, c) as int;
        let west = flat_index(n, (c - 1) as nat, c) as int;
        let south = flat_index(n, c, (c - 1) as nat) as int;
        let north = flat_index(n, c, c + 1) as int;
        self.place(flat_index(n, c, c) as int, TileTypeView::Printer3D, 0)
            .place(east, TileTypeView::Iron, 0)
            .place(west, TileTypeView::Copper, 0)
            .place(south, TileTypeView::Silicon, 0)
            .place(east, TileTypeView::WireExtruder, 0)
            .place(west, TileTypeView::WireExtruder, 2)
            .place(south, TileTypeView::WireExtruder, 3)
            .place(north, TileTypeView::Worker, 1)
    }

    /// The world after `ore` is pushed on each tile of `path` in turn.
    pub open spec fn lay(self, ore: TileTypeView, path: Seq<int>) -> World
        decreases path.len(),
    {
        if path.len() == 0 {
            self
        } else {
            self.lay(ore, path.drop_last()).place(path.last(), ore, 0)
        }
    }

    /// The world after each of `veins` is laid in turn.
    pub open spec fn lay_all(self, veins: Seq<Vein>) -> World
        decreases veins.len(),
    {
        if veins.len() == 0 {
            self
        } else {
            self.lay_all(veins.drop_last()).lay(veins.last().ore, veins.last().path)
        }
    }
}

/// Tile `b` is one step from tile `a`.
pub open spec fn adjacent(size: nat, a: int, b: int) -> bool {
    exists|d: Direction| #[trigger]
        neighbor_of(size, column_of(size, a), row_of(size, a), d) == Some(b as usize)
}

/// Some step from tile `a` leaves the grid.
pub open spec fn on_border(size: nat, a: int) -> bool {
    exists|d: Direction| #[trigger]
        neighbor_of(size, column_of(size, a), row_of(size, a), d) is None
}

/// `path` starts at `start`, stays inside the grid, and moves by one step
/// at a time.
pub open spec fn is_walk(size: nat, start: int, path: Seq<int>) -> bool {
    &&& 1 <= path.len() <= VEIN_STEPS + 1
    &&& path[0] == start
    &&& forall|k: int| 0 <= k < path.len() ==> 0 <= #[trigger] path[k] < size * size
    &&& forall|k: int| 0 <= k < path.len() - 1 ==> adjacent(size, #[trigger] path[k], path[k + 1])
}

/// `path` is a walk from `start` that ran its full length or stopped on a
/// tile at the edge of the grid.
pub open spec fn is_vein_path(size: nat, start: int, path: Seq<int>) -> bool {
    &&& is_walk(size, start, path)
    &&& (path.len() == VEIN_STEPS + 1 || on_border(size, path.last()))
}

/// `v` is a vein of ore whose first tile lies in the cell in column
/// `cell_col` and row `cell_row` of the cells of side `spacing`.
pub open spec fn vein_in_cell(size: nat, spacing: nat, cell_col: nat, cell_row: nat, v: Vein) -> bool {
    &&& v.ore.is_ore()
    &&& v.path.len() > 0
    &&& is_vein_path(size, v.path[0], v.path)
    &&& cell_col * spacing <= column_of(size, v.path[0]) < (cell_col + 1) * spacing
    &&& cell_row * spacing <= row_of(size, v.path[0]) < (cell_row + 1) * spacing
}

/// `veins` holds one vein for every cell of side `spacing` that fits in the
/// grid, cell column after cell column.
pub open spec fn scattered(size: nat, spacing: nat, veins: Seq<Vein>) -> bool {
    let cells = size / spacing;
    &&& veins.len() == cells * cells
    &&& forall|n: int|
        0 <= n < veins.len() ==> vein_in_cell(
            size,
            spacing,
            column_of(cells, n),
            row_of(cells, n),
            #[trigger] veins[n],
        )
}

/// Column and row are recovered from an index by division and remainder.
pub proof fn lemma_flat_index(size: nat, col: nat, row: nat)
    requires
        col < size,
        row < size,
    ensures
        flat_index(size, col, row) < size * size,
        flat_index(size, col, row) / size == col,
        flat_index(size, col, row) % size == row,
{
    assert(col * size + size <= size * size) by (nonlinear_arith)
        requires
            col < size,
    ;
    lemma_fundamental_div_mod_converse(
        flat_index(size, col, row) as int,
        size as int,
        col as int,
        row as int,
    );
}

/// World position of the tile in column `i` and row `j` of a grid of side `size`.
pub fn index_to_pos(i: usize, j: usize, size: usize) -> (p: (i32, i32))
    requires
        i < size,
        j < size,
        size <= i32::MAX,
    ensures
        p == position_of(size as nat, i as nat, j as nat),
{
    (i as i32 - size as i32 / 2, j as i32 - size as i32 / 2)
}

/// Takes one step in direction `d` from column `col`, row `row`.  Returns
/// the column and row reached, or `None` if the step leaves the grid.
pub fn step(size: usize, col: usize, row: usize, d: Direction) -> (r: Option<(usize, usize)>)
    requires
        col < size,
        row < size,
        size <= i32::MAX,
    ensures
        match step_from(size as nat, col as nat, row as nat, d) {
            Some((c, r2)) => r == Some((c as usize, r2 as usize)) && c < size && r2 < size,
            None => r is None,
        },
{
    let delta = d.delta();
    let x: i64 = col as i64 + delta.0;
    let y: i64 = row as i64 + delta.1;
    if x < 0 || x >= size as i64 || y < 0 || y >= size as i64 {
        None
    } else {
        Some((x as usize, y as usize))
    }
}

/// Index of the neighbor in direction `d` of the tile in column `col`, row
/// `row`, if that neighbor lies inside the grid.
pub fn link(size: usize, col: usize, row: usize, d: Direction) -> (n: Option<usize>)
    requires
        col < size,
        row < size,
        size <= i32::MAX,
        size * size <= usize::MAX,
    ensures
        n == neighbor_of(size as nat, col as nat, row as nat, d),
        n matches Some(k) ==> k < size * size,
{
    match step(size, col, row, d) {
        Some((c, r)) => {
            proof {
                lemma_flat_index(size as nat, c as nat, r as nat);
            }
            Some(c * size + r)
        },
        None => None,
    }
}

/// The square world.
#[derive(Clone, Debug, PartialEq, Eq)]
pub struct Grid {
    tiles: Vec<Tile>,
    size: usize,
}

impl View for Grid {
    type V = GridView;

    closed spec fn view(&self) -> GridView {
        GridView {
            size: self.size as nat,
            tiles: Seq::new(self.tiles@.len(), |k: int| self.tiles@[k]@),
        }
    }
}

impl Grid {
    /// Every tile keeps its contents in its lowest slots.
    pub closed spec fn packed(&self) -> bool {
        forall|k: int| 0 <= k < self.tiles@.len() ==> (#[trigger] self.tiles@[k]).packed()
    }

    /// The tiles are packed and the grid they model is well-formed.
    pub open spec fn wf(&self) -> bool {
        &&& self.packed()
        &&& self@.wf()
    }

    /// Allocates a grid of side `size`: first every tile, bare, at its
    /// position; then, once all tiles exist, the neighbor links of each.
    pub fn new(size: usize) -> (g: Grid)
        requires
            size <= i32::MAX,
            size * size <= usize::MAX,
        ensures
            g.wf(),
            g@ == GridView::fresh(size as nat),
    {
        let mut tiles: Vec<Tile> = Vec::new();
        let mut i: usize = 0;
        while i < size
            invariant
                i <= size,
                size <= i32::MAX,
                size * size <= usize::MAX,
                tiles@.len() == i * size,
                forall|k: int|
                    0 <= k < tiles@.len() ==> (#[trigger] tiles@[k]).wf() && tiles@[k]@ == bare_at(
                        size as nat,
                        k,
                    ),
            decreases size - i,
        {
            let mut j: usize = 0;
            while j < size
                invariant
                    i < size,
                    j <= size,
                    size <= i32::MAX,
                    size * size <= usize::MAX,
                    tiles@.len() == i * size + j,
                    forall|k: int|
                        0 <= k < tiles@.len() ==> (#[trigger] tiles@[k]).wf() && tiles@[k]@
                            == bare_at(size as nat, k),
                decreases size - j,
            {
                proof {
                    lemma_flat_index(size as nat, i as nat, j as nat);
                }
                tiles.push(Tile::new(index_to_pos(i, j, size)));
                j += 1;
            }
            assert(i * size + size == (i + 1) * size) by (nonlinear_arith);
            i += 1;
        }
        let mut i: usize = 0;
        while i < size
            invariant
                i <= size,
                size <= i32::MAX,
                size * size <= usize::MAX,
                tiles@.len() == size * size,
                forall|k: int|
                    0 <= k < tiles@.len() ==> (#[trigger] tiles@[k]).wf() && tiles@[k]@ == (if k
                        < i * size {
                        fresh_at(size as nat, k)
                    } else {
                        bare_at(size as nat, k)
                    }),
            decreases size - i,
        {
            let mut j: usize = 0;
            while j < size
                invariant
                    i < size,
                    j <= size,
                    size <= i32::MAX,
                    size * size <= usize::MAX,
                    tiles@.len() == size * size,
                    forall|k: int|
                        0 <= k < tiles@.len() ==> (#[trigger] tiles@[k]).wf() && tiles@[k]@ == (if k
                            < i * size + j {
                            fresh_at(size as nat, k)
                        } else {
                            bare_at(size as nat, k)
                        }),
                decreases size - j,
            {
                proof {
                    lemma_flat_index(size as nat, i as nat, j as nat);
                }
                let idx = i * size + j;
                let around = [
                    link(size, i, j, Direction::East),
                    link(size, i, j, Direction::West),
                    link(size, i, j, Direction::North),
                    link(size, i, j, Direction::South),
                ];
                let linked = tiles[idx].with_neighbors(around);
                proof {
                    assert(around@ =~= links(size as nat, i as nat, j as nat));
                    assert(linked@.stack =~= Seq::empty());
                    assert(linked@ == fresh_at(size as nat, idx as int));
                }
                tiles[idx] = linked;
                j += 1;
            }
            assert(i * size + size == (i + 1) * size) by (nonlinear_arith);
            i += 1;
        }
        let g = Grid { tiles, size };
        proof {
            assert(g@.tiles =~= GridView::fresh(size as nat).tiles);
        }
        g
    }

    /// Side length of the grid.
    pub fn size(&self) -> (n: usize)
        ensures
            n == self@.size,
    {
        self.size
    }

    /// Index of the tile in column `col` and row `row`.
    pub fn index_of(&self, col: usize, row: usize) -> (idx: usize)
        requires
            self.wf(),
            col < self@.size,
            row < self@.size,
        ensures
            idx == flat_index(self@.size, col as nat, row as nat),
            idx < self@.tiles.len(),
    {
        proof {
            lemma_flat_index(self.size as nat, col as nat, row as nat);
        }
        col * self.size + row
    }

    /// The tile at index `idx`, if the grid has that many tiles.
    pub fn tile(&self, idx: usize) -> (t: Option<Tile>)
        ensures
            idx < self@.tiles.len() ==> t is Some && t.unwrap()@ == self@.tiles[idx as int],
            idx >= self@.tiles.len() ==> t is None,
            self.wf() && t is Some ==> t.unwrap().wf(),
    {
        if idx < self.tiles.len() {
            assert(self.wf() ==> self@.tiles[idx as int].ordered());
            Some(self.tiles[idx])
        } else {
            None
        }
    }

    /// Pushes `tile_type` onto the tile at index `idx`; see [`Tile::push`].
    pub fn push_at(
        &mut self,
        display: &mut DisplayQueue,
        idx: usize,
        tile_type: TileType,
        rot: u8,
    ) -> (success: bool)
        requires
            old(self).wf(),
            idx < old(self)@.tiles.len(),
        ensures
            final(self).wf(),
            (World { grid: final(self)@, requests: final(display)@ }) == (World {
                grid: old(self)@,
                requests: old(display)@,
            }).place(idx as int, tile_type@, rot),
            success == old(self)@.tiles[idx as int].accepts(tile_type@),
            old(display).wf() ==> final(display).wf(),
    {
        assert(self@.tiles[idx as int].ordered());
        let (tile, success) = self.tiles[idx].push(display, tile_type, rot);
        self.tiles[idx] = tile;
        assert(self@.tiles =~= old(self)@.tiles.update(idx as int, tile@));
        success
    }

    /// Places the starting layout around the centre of the grid.  The
    /// outcome of the individual pushes is not looked at.
    pub fn seed_center(&mut self, display: &mut DisplayQueue)
        requires
            old(self).wf(),
            old(self)@.size >= 3,
        ensures
            final(self).wf(),
            (World { grid: final(self)@, requests: final(display)@ }) == (World {
                grid: old(self)@,
                requests: old(display)@,
            }).seeded(),
            old(display).wf() ==> final(display).wf(),
    {
        let c = self.size / 2;
        let middle = self.index_of(c, c);
        let east = self.index_of(c + 1, c);
        let west = self.index_of(c - 1, c);
        let south = self.index_of(c, c - 1);
        let north = self.index_of(c, c + 1);
        self.push_at(display, middle, TileType::Printer3D, 0);
        self.push_at(display, east, TileType::Iron, 0);
        self.push_at(display, west, TileType::Copper, 0);
        self.push_at(display, south, TileType::Silicon, 0);
        self.push_at(display, east, TileType::WireExtruder, 0);
        self.push_at(display, west, TileType::WireExtruder, 2);
        self.push_at(display, south, TileType::WireExtruder, 3);
        self.push_at(display, north, TileType::Worker, 1);
    }

    /// Takes a vein of `ore` one step further, in direction `d` from the
    /// tile in column `col`, row `row`.  Pushes the ore on the tile reached
    /// and returns its column and row; where the step leaves the grid,
    /// nothing changes and `None` is returned.
    pub fn extend_vein(
        &mut self,
        display: &mut DisplayQueue,
        col: usize,
        row: usize,
        d: Direction,
        ore: TileType,
    ) -> (next: Option<(usize, usize)>)
        requires
            old(self).wf(),
            col < old(self)@.size,
            row < old(self)@.size,
        ensures
            final(self).wf(),
            old(display).wf() ==> final(display).wf(),
            match step_from(old(self)@.size, col as nat, row as nat, d) {
                Some((c, r)) => {
                    &&& next == Some((c as usize, r as usize))
                    &&& (World { grid: final(self)@, requests: final(display)@ }) == (World {
                        grid: old(self)@,
                        requests: old(display)@,
                    }).place(flat_index(old(self)@.size, c, r) as int, ore@, 0)
                },
                None => {
                    &&& next is None
                    &&& *final(self) == *old(self)
                    &&& final(display)@ == old(display)@
                },
            },
    {
        match step(self.size, col, row, d) {
            None => None,
            Some(next) => {
                let idx = self.index_of(next.0, next.1);
                self.push_at(display, idx, ore, 0);
                Some(next)
            },
        }
    }

    /// Lays one vein of `ore`: on the tile in column `col`, row `row`, and
    /// then along a random walk of up to [`VEIN_STEPS`] steps from there.
    /// The walk ends early when a step would leave the grid.  Tiles that are
    /// already occupied are walked over and keep what they hold.
    pub fn grow_vein(
        &mut self,
        display: &mut DisplayQueue,
        rng: &mut StdRng,
        col: usize,
        row: usize,
        ore: TileType,
    )
        requires
            old(self).wf(),
            col < old(self)@.size,
            row < old(self)@.size,
        ensures
            final(self).wf(),
            final(self)@.size == old(self)@.size,
            old(display).wf() ==> final(display).wf(),
            exists|path: Seq<int>|
                is_vein_path(
                    old(self)@.size,
                    flat_index(old(self)@.size, col as nat, row as nat) as int,
                    path,
                ) && (World { grid: final(self)@, requests: final(display)@ }) == (World {
                    grid: old(self)@,
                    requests: old(display)@,
                }).lay(ore@, path),
    {
        let size = self.size;
        let ghost before = World { grid: self@, requests: display@ };
        let start = self.index_of(col, row);
        self.push_at(display, start, ore, 0);
        let ghost mut path: Seq<int> = seq![start as int];
        proof {
            lemma_flat_index(size as nat, col as nat, row as nat);
            assert(path.drop_last() =~= Seq::<int>::empty());
            assert(before.lay(ore@, path.drop_last()) == before);
        }
        let mut pos = (col, row);
        let mut n: usize = 0;
        while n < VEIN_STEPS
            invariant
                self.wf(),
                self@.size == size,
                size == old(self)@.size,
                old(display).wf() ==> display.wf(),
                n <= VEIN_STEPS,
                pos.0 < size,
                pos.1 < size,
                path.len() == n + 1,
                path.last() == flat_index(size as nat, pos.0 as nat, pos.1 as nat),
                is_walk(size as nat, start as int, path),
                (World { grid: self@, requests: display@ }) == before.lay(ore@, path),
            ensures
                n == VEIN_STEPS || on_border(size as nat, path.last()),
            decreases VEIN_STEPS - n,
        {
            let d = Direction::from_index(draw_below(rng, 4));
            proof {
                lemma_flat_index(size as nat, pos.0 as nat, pos.1 as nat);
            }
            let ghost here = neighbor_of(
                size as nat,
                column_of(size as nat, path.last()),
                row_of(size as nat, path.last()),
                d,
            );
            match self.extend_vein(display, pos.0, pos.1, d, ore) {
                None => {
                    assert(here is None);
                    break ;
                },
                Some(next) => {
                    proof {
                        let idx = flat_index(size as nat, next.0 as nat, next.1 as nat) as int;
                        lemma_flat_index(size as nat, next.0 as nat, next.1 as nat);
                        assert(here == Some(idx as usize));
                        let longer = path.push(idx);
                        assert(longer.drop_last() =~= path);
                        assert forall|k: int| 0 <= k < longer.len() - 1 implies adjacent(
                            size as nat,
                            #[trigger] longer[k],
                            longer[k + 1],
                        ) by {
                            if k < path.len() - 1 {
                                assert(adjacent(size as nat, path[k], path[k + 1]));
                            }
                        }
                        path = longer;
                    }
                    pos = next;
                },
            }
            n += 1;
        }
    }

    /// Scatters ore over the grid: one vein for every cell of side
    /// `ore_spacing`, started on a random tile of the cell and made of a
    /// random ore.
    pub fn scatter_ore(&mut self, display: &mut DisplayQueue, rng: &mut StdRng, ore_spacing: usize)
        requires
            old(self).wf(),
            ore_spacing >= 1,
        ensures
            final(self).wf(),
            final(self)@.size == old(self)@.size,
            old(display).wf() ==> final(display).wf(),
            exists|veins: Seq<Vein>|
                scattered(old(self)@.size, ore_spacing as nat, veins) && (World {
                    grid: final(self)@,
                    requests: final(display)@,
                }) == (World { grid: old(self)@, requests: old(display)@ }).lay_all(veins),
    {
        let size = self.size;
        let cells = size / ore_spacing;
        let ghost before = World { grid: self@, requests: display@ };
        let ghost mut veins: Seq<Vein> = Seq::empty();
        proof {
            assert(cells * ore_spacing <= size) by (nonlinear_arith)
                requires
                    cells == size / ore_spacing,
                    ore_spacing >= 1,
            ;
        }
        let mut i: usize = 0;
        while i < cells
            invariant
                self.wf(),
                self@.size == size,
                size == old(self)@.size,
                old(display).wf() ==> display.wf(),
                ore_spacing >= 1,
                cells == size as int / ore_spacing as int,
                cells * ore_spacing <= size,
                i <= cells,
                veins.len() == i * cells,
                forall|n: int|
                    0 <= n < veins.len() ==> vein_in_cell(
                        size as nat,
                        ore_spacing as nat,
                        column_of(cells as nat, n),
                        row_of(cells as nat, n),
                        #[trigger] veins[n],
                    ),
                (World { grid: self@, requests: display@ }) == before.lay_all(veins),
            decreases cells - i,
        {
            let mut j: usize = 0;
            while j < cells
                invariant
                    self.wf(),
                    self@.size == size,
                    size == old(self)@.size,
                    old(display).wf() ==> display.wf(),
                    ore_spacing >= 1,
                    cells == size as int / ore_spacing as int,
                    cells * ore_spacing <= size,
                    i < cells,
                    j <= cells,
                    veins.len() == i * cells + j,
                    forall|n: int|
                        0 <= n < veins.len() ==> vein_in_cell(
                            size as nat,
                            ore_spacing as nat,
                            column_of(cells as nat, n),
                            row_of(cells as nat, n),
                            #[trigger] veins[n],
                        ),
                    (World { grid: self@, requests: display@ }) == before.lay_all(veins),
                decreases cells - j,
            {
                let column_off = draw_below(rng, ore_spacing);
                let row_off = draw_below(rng, ore_spacing);
                proof {
                    assert((i + 1) * ore_spacing <= cells * ore_spacing) by (nonlinear_arith)
                        requires
                            i < cells,
                    ;
                    assert((j + 1) * ore_spacing <= cells * ore_spacing) by (nonlinear_arith)
                        requires
                            j < cells,
                    ;
                    assert((i + 1) * ore_spacing == i * ore_spacing + ore_spacing)
                        by (nonlinear_arith);
                    assert((j + 1) * ore_spacing == j * ore_spacing + ore_spacing)
                        by (nonlinear_arith);
                }
                let column: usize = i * ore_spacing + column_off;
                let row: usize = j * ore_spacing + row_off;
                let ore = TileType::ore_kind(draw_below(rng, 3));
                let ghost here = World { grid: self@, requests: display@ };
                self.grow_vein(display, rng, column, row, ore);
                proof {
                    let start = flat_index(size as nat, column as nat, row as nat) as int;
                    let path = choose|path: Seq<int>|
                        is_vein_path(size as nat, start, path) && (World {
                            grid: self@,
                            requests: display@,
                        }) == here.lay(ore@, path);
                    let vein = Vein { ore: ore@, path };
                    let more = veins.push(vein);
                    assert(more.drop_last() =~= veins);
                    lemma_flat_index(size as nat, column as nat, row as nat);
                    lemma_flat_index(cells as nat, i as nat, j as nat);
                    assert(vein_in_cell(
                        size as nat,
                        ore_spacing as nat,
                        i as nat,
                        j as nat,
                        vein,
                    ));
                    veins = more;
                }
                j += 1;
            }
            assert(i * cells + cells == (i + 1) * cells) by (nonlinear_arith);
            i += 1;
        }
        proof {
            assert(cells as nat == size as nat / ore_spacing as nat);
            assert(scattered(size as nat, ore_spacing as nat, veins));
        }
    }

    /// Generates a world of side `size`: allocates and links the tiles,
    /// places the starting layout at the centre, and scatters one ore vein
    /// over every cell of side `ore_spacing`.
    pub fn generate(
        display: &mut DisplayQueue,
        size: usize,
        ore_spacing: usize,
        rng: &mut StdRng,
    ) -> (g: Grid)
        requires
            3 <= size <= i32::MAX,
            size * size <= usize::MAX,
            ore_spacing >= 1,
        ensures
            g.wf(),
            g@.size == size,
            old(display).wf() ==> final(display).wf(),
            exists|veins: Seq<Vein>|
                scattered(size as nat, ore_spacing as nat, veins) && (World {
                    grid: g@,
                    requests: final(display)@,
                }) == World::fresh(size as nat, old(display)@).seeded().lay_all(veins),
    {
        let mut g = Grid::new(size);
        g.seed_center(display);
        g.scatter_ore(display, rng, ore_spacing);
        g
    }
}

} // verus!
